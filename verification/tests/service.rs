use qr_api::auth::{fresh_artifact_id, generate_api_key};
use qr_api::database::StoreError;
use qr_api::models::{default_bg_color, default_color, default_format, default_size, QRRequest};
use qr_api::pipeline::{aggregate, get_next_month_first, get_qr_analytics, AppState, IssuanceError, ScanView};
use qr_api::quota::QuotaCounter;

const BASE: &str = "http://localhost:8080";
const YEAR: i32 = 2026;
const MONTH: u32 = 10;
const NOW: i64 = 1_791_000_000;

fn req(data: &str) -> QRRequest {
    QRRequest {
        data: data.to_string(),
        size: default_size(),
        format: default_format(),
        color: default_color(),
        bg_color: default_bg_color(),
        logo: None,
    }
}

#[test]
fn generated_credentials_have_the_documented_shape() {
    let key = generate_api_key();
    assert_eq!(key.chars().count(), 35);
    assert!(key.starts_with("qr_"));
    let id = fresh_artifact_id();
    assert_eq!(id.chars().count(), 36);
    assert_ne!(fresh_artifact_id(), id);
}

#[test]
fn registration_grants_the_free_tier() {
    let mut st = AppState::new();
    let resp = st.register(NOW).unwrap();
    assert_eq!(resp.plan, "free");
    assert_eq!(resp.limit, 100);
    assert!(resp.api_key.starts_with("qr_"));
    assert_eq!(resp.message, "Welcome! You have 100 free QR codes per month.");
}

#[test]
fn duplicate_credential_is_a_conflict() {
    let mut st = AppState::new();
    assert!(st.register_with_key("qr_fixed".to_string(), NOW).is_ok());
    let second = st.register_with_key("qr_fixed".to_string(), NOW);
    assert_eq!(second.unwrap_err(), StoreError::Conflict);
}

#[test]
fn issue_with_unknown_credential_is_unauthorized() {
    let mut st = AppState::new();
    let r = st.issue("qr_nobody", &req("hello"), YEAR, MONTH, NOW, BASE);
    assert_eq!(r.unwrap_err(), IssuanceError::Unauthorized);
}

#[test]
fn issue_round_trip_with_scan_and_analytics() {
    let mut st = AppState::new();
    let reg = st.register(NOW).unwrap();
    let key = reg.api_key.as_str();

    let resp = st.issue(key, &req("https://example.com"), YEAR, MONTH, NOW, BASE).unwrap();
    let prefix = format!("{}/qr/", BASE);
    assert!(resp.qr_url.starts_with(&prefix));
    let id = resp.qr_url[prefix.len()..].to_string();
    assert_eq!(resp.analytics, format!("{}/analytics/{}", BASE, id));

    // the image travels base64-encoded and must decode to the rendered PNG
    let png =
        base64::Engine::decode(&base64::engine::general_purpose::STANDARD, &resp.qr_code).unwrap();
    assert!(image::load_from_memory(&png).is_ok());

    // issuing consumed one unit of quota
    let usage = st.usage_report(key, YEAR, MONTH).unwrap();
    assert_eq!(usage.usage, 1);
    assert_eq!(usage.limit, 100);
    assert_eq!(usage.remaining, 99);

    // a URL-looking payload redirects, and each view counts one scan
    match st.scan_view(&id).unwrap() {
        ScanView::Redirect(d) => assert_eq!(d, "https://example.com"),
        ScanView::Data(_) => panic!("expected a redirect"),
    }
    let stats = get_qr_analytics(&st.artifacts, &id, NOW).unwrap();
    assert_eq!(stats.total_scans, 1);
    assert_eq!(stats.created_at, NOW);
    assert_eq!(stats.qr_id, id);
}

#[test]
fn issue_at_the_limit_is_refused_and_charges_nothing() {
    let mut st = AppState::new();
    let reg = st.register_with_key("qr_capped".to_string(), NOW).unwrap();
    assert_eq!(reg.limit, 100);
    let user = st.users.get_user_by_api_key("qr_capped").unwrap();
    for _ in 0..100 {
        st.quota.increment_usage(user.id, YEAR, MONTH);
    }
    let r = st.issue("qr_capped", &req("hello"), YEAR, MONTH, NOW, BASE);
    assert_eq!(r.unwrap_err(), IssuanceError::QuotaExceeded);
    let usage = st.usage_report("qr_capped", YEAR, MONTH).unwrap();
    assert_eq!(usage.usage, 100);
    assert_eq!(usage.remaining, 0);
}

#[test]
fn issue_below_the_limit_still_succeeds() {
    let mut st = AppState::new();
    st.register_with_key("qr_near".to_string(), NOW).unwrap();
    let user = st.users.get_user_by_api_key("qr_near").unwrap();
    for _ in 0..99 {
        st.quota.increment_usage(user.id, YEAR, MONTH);
    }
    assert!(st.issue("qr_near", &req("hello"), YEAR, MONTH, NOW, BASE).is_ok());
    assert_eq!(st.usage_report("qr_near", YEAR, MONTH).unwrap().usage, 100);
}

#[test]
fn unencodable_payload_fails_and_charges_nothing() {
    let mut st = AppState::new();
    st.register_with_key("qr_render".to_string(), NOW).unwrap();
    let huge = "a".repeat(8000);
    let r = st.issue("qr_render", &req(&huge), YEAR, MONTH, NOW, BASE);
    assert_eq!(r.unwrap_err(), IssuanceError::RenderFailed);
    assert_eq!(st.usage_report("qr_render", YEAR, MONTH).unwrap().usage, 0);
}

#[test]
fn scan_view_of_unknown_id_is_not_found_and_changes_nothing() {
    let mut st = AppState::new();
    let r = st.scan_view("no-such-id");
    assert_eq!(r.unwrap_err(), StoreError::NotFound);
    assert_eq!(st.artifacts.get_qr_data("no-such-id").unwrap_err(), StoreError::NotFound);
    assert_eq!(
        get_qr_analytics(&st.artifacts, "no-such-id", NOW).unwrap_err(),
        StoreError::NotFound
    );
}

#[test]
fn scan_view_returns_raw_data_for_plain_payloads() {
    let mut st = AppState::new();
    st.artifacts.create_qr_code("id-1".to_string(), 1, "hello world".to_string(), NOW).unwrap();
    match st.scan_view("id-1").unwrap() {
        ScanView::Data(d) => assert_eq!(d, "hello world"),
        ScanView::Redirect(_) => panic!("expected raw data"),
    }
    match st.scan_view("id-1").unwrap() {
        ScanView::Data(d) => assert_eq!(d, "hello world"),
        ScanView::Redirect(_) => panic!("expected raw data"),
    }
    let stats = get_qr_analytics(&st.artifacts, "id-1", NOW).unwrap();
    assert_eq!(stats.total_scans, 2);
}

#[test]
fn duplicate_artifact_id_is_a_conflict() {
    let mut st = AppState::new();
    st.artifacts.create_qr_code("dup".to_string(), 1, "a".to_string(), NOW).unwrap();
    let r = st.artifacts.create_qr_code("dup".to_string(), 2, "b".to_string(), NOW);
    assert_eq!(r.unwrap_err(), StoreError::Conflict);
    // the first row was not overwritten
    assert_eq!(st.artifacts.get_qr_data("dup").unwrap(), "a");
}

#[test]
fn scan_increment_of_unknown_id_is_not_found() {
    let mut st = AppState::new();
    assert_eq!(st.artifacts.increment_scan_count("ghost").unwrap_err(), StoreError::NotFound);
}

#[test]
fn aggregate_matches_the_documented_rates() {
    // 10 scans, created 5 days ago: 2.0 scans per day
    let five_days = aggregate(10, NOW - 5 * 86400, NOW);
    assert_eq!(five_days, (10, 5));
    assert_eq!(five_days.0 as f64 / five_days.1 as f64, 2.0);
    // 3 scans, created 2 hours ago: sub-day clamp gives 3.0
    let two_hours = aggregate(3, NOW - 7200, NOW);
    assert_eq!(two_hours, (3, 1));
    assert_eq!(two_hours.0 as f64 / two_hours.1 as f64, 3.0);
    // a future creation time counts as zero elapsed days
    assert_eq!(aggregate(4, NOW + 999, NOW), (4, 1));
    // exact whole-day truncation
    assert_eq!(aggregate(9, NOW - (3 * 86400 + 86399), NOW), (9, 3));
}

#[test]
fn usage_resets_with_the_calendar_window() {
    let mut q = QuotaCounter::new();
    assert_eq!(q.get_monthly_usage(7, 2026, 9), 0);
    assert_eq!(q.increment_usage(7, 2026, 9), 1);
    assert_eq!(q.increment_usage(7, 2026, 9), 2);
    assert_eq!(q.get_monthly_usage(7, 2026, 9), 2);
    // a later month starts back at zero, and another account is untouched
    assert_eq!(q.get_monthly_usage(7, 2026, 10), 0);
    assert_eq!(q.get_monthly_usage(8, 2026, 9), 0);
}

#[test]
fn next_reset_rolls_into_the_next_month_and_year() {
    assert_eq!(get_next_month_first(2026, 10), (2026, 11));
    assert_eq!(get_next_month_first(2025, 12), (2026, 1));
    assert_eq!(get_next_month_first(2026, 1), (2026, 2));
}

#[test]
fn resolving_credentials_finds_only_registered_accounts() {
    let mut st = AppState::new();
    st.register_with_key("qr_alpha".to_string(), NOW).unwrap();
    let u = st.users.get_user_by_api_key("qr_alpha").unwrap();
    assert_eq!(u.api_key, "qr_alpha");
    assert_eq!(u.plan, "free");
    assert_eq!(u.created_at, NOW);
    assert_eq!(st.users.get_user_by_api_key("qr_beta").unwrap_err(), StoreError::NotFound);
}
