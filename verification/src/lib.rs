pub mod auth;
pub mod database;
pub mod models;
pub mod pipeline;
pub mod qr_service;
pub mod quota;
