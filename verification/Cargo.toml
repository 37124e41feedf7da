[package]
name = "qr_api"
version = "0.1.0"
edition = "2021"
publish = false

[dependencies]
qrcode = "*"
image = { version = "*", default-features = false, features = ["png"] }
uuid = { version = "*", features = ["v4"] }
base64 = "*"
chrono = "*"
serde = { version = "*", features = ["derive"] }
serde_json = "*"
axum = "*"
tokio = { version = "*", features = ["rt-multi-thread", "macros"] }
