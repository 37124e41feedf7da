use qr_api::models::{
    default_bg_color, default_color, default_format, default_size, get_plan_limit, QRRequest,
};
use qr_api::qr_service::{apply_customizations, generate_qr, parse_hex_color, Color};

fn req(data: &str, color: &str, bg_color: &str) -> QRRequest {
    QRRequest {
        data: data.to_string(),
        size: default_size(),
        format: default_format(),
        color: color.to_string(),
        bg_color: bg_color.to_string(),
        logo: None,
    }
}

#[test]
fn plan_limits_table() {
    assert_eq!(get_plan_limit("free"), 100);
    assert_eq!(get_plan_limit("starter"), 2500);
    assert_eq!(get_plan_limit("pro"), 10000);
    assert_eq!(get_plan_limit("business"), 100000);
    assert_eq!(get_plan_limit("enterprise"), 100);
    assert_eq!(get_plan_limit(""), 100);
}

#[test]
fn default_request_values() {
    assert_eq!(default_size(), 256);
    assert_eq!(default_format(), "png");
    assert_eq!(default_color(), "#000000");
    assert_eq!(default_bg_color(), "#FFFFFF");
}

#[test]
fn hex_color_well_formed() {
    assert_eq!(parse_hex_color("#FF0000"), Color { r: 255, g: 0, b: 0 });
    assert_eq!(parse_hex_color("00ff7f"), Color { r: 0, g: 255, b: 127 });
    assert_eq!(parse_hex_color("#1A2b3C"), Color { r: 26, g: 43, b: 60 });
}

#[test]
fn hex_color_malformed_falls_back_to_black() {
    let black = Color { r: 0, g: 0, b: 0 };
    assert_eq!(parse_hex_color(""), black);
    assert_eq!(parse_hex_color("#12345"), black);
    assert_eq!(parse_hex_color("#1234567"), black);
    assert_eq!(parse_hex_color("#GGGGGG"), black);
    assert_eq!(parse_hex_color("red"), black);
}

#[test]
fn substitution_recolors_pixels() {
    // one black pixel, one white pixel, one transparent pixel
    let mut buf: Vec<u8> = vec![0, 0, 0, 255, 255, 255, 255, 255, 7, 7, 7, 0];
    let fg = Color { r: 255, g: 0, b: 0 };
    let bg = Color { r: 0, g: 255, b: 0 };
    apply_customizations(&mut buf, fg, bg);
    assert_eq!(buf, vec![255, 0, 0, 255, 0, 255, 0, 255, 7, 7, 7, 0]);
}

#[test]
fn free_tier_output_ignores_requested_colors() {
    let a = generate_qr(&req("https://example.com", "#FF0000", "#00FF00"), "free").unwrap();
    let b = generate_qr(&req("https://example.com", "#123456", "#ABCDEF"), "free").unwrap();
    assert_eq!(a, b);
}

#[test]
fn starter_tier_output_ignores_requested_colors() {
    let mut with_logo = req("hello", "#FF0000", "#00FF00");
    with_logo.logo = Some("aGVsbG8=".to_string());
    let a = generate_qr(&with_logo, "starter").unwrap();
    let b = generate_qr(&req("hello", "#000001", "#FEFEFE"), "starter").unwrap();
    assert_eq!(a, b);
}

#[test]
fn pro_tier_output_holds_only_the_two_requested_colors() {
    let png = generate_qr(&req("https://example.com", "#FF0000", "#00FF00"), "pro").unwrap();
    let img = image::load_from_memory(&png).unwrap().to_rgba8();
    assert!(img.width() > 0 && img.width() <= 256 && img.height() > 0);
    let mut reds: u64 = 0;
    let mut greens: u64 = 0;
    for p in img.pixels() {
        if p[3] == 0 {
            continue;
        }
        if p[0] == 255 && p[1] == 0 && p[2] == 0 && p[3] == 255 {
            reds += 1;
        } else if p[0] == 0 && p[1] == 255 && p[2] == 0 && p[3] == 255 {
            greens += 1;
        } else {
            panic!("unexpected pixel {:?}", p);
        }
    }
    assert!(reds > 0 && greens > 0);
}

#[test]
fn business_tier_recolors_but_free_stays_monochrome() {
    let colored = generate_qr(&req("data", "#0000FF", "#FFFF00"), "business").unwrap();
    let plain = generate_qr(&req("data", "#0000FF", "#FFFF00"), "free").unwrap();
    assert_ne!(colored, plain);
    let img = image::load_from_memory(&plain).unwrap().to_rgba8();
    for p in img.pixels() {
        if p[3] != 0 {
            let is_black = p[0] == 0 && p[1] == 0 && p[2] == 0;
            let is_white = p[0] == 255 && p[1] == 255 && p[2] == 255;
            assert!(is_black || is_white);
        }
    }
}

#[test]
fn malformed_color_on_pro_falls_back_to_black_foreground() {
    let bad = generate_qr(&req("x", "notacolor", "#FFFFFF"), "pro").unwrap();
    let explicit = generate_qr(&req("x", "#000000", "#FFFFFF"), "pro").unwrap();
    assert_eq!(bad, explicit);
}

#[test]
fn oversized_payload_fails_render() {
    let huge = "a".repeat(8000);
    let r = generate_qr(&req(&huge, "#000000", "#FFFFFF"), "free");
    assert!(r.is_err());
}
