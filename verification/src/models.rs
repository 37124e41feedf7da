use vstd::prelude::*;

verus! {

/// A request to issue one artifact: the payload to encode plus rendering
/// options. The `format` field is accepted but not honored (output is always
/// PNG), and `logo` is accepted but has no visible effect yet; both are known
/// gaps kept on purpose.
#[derive(Debug)]
pub struct QRRequest {
    pub data: String,
    pub size: u32,
    pub format: String,
    pub color: String,
    pub bg_color: String,
    pub logo: Option<String>,
}

/// A successful issuance: the image as base64, and the two locator URLs.
#[derive(Debug)]
pub struct QRResponse {
    pub qr_code: String,
    pub qr_url: String,
    pub analytics: String,
}

/// A registered account. `created_at` is a unix timestamp in seconds.
#[derive(Debug)]
pub struct User {
    pub id: i64,
    pub api_key: String,
    pub plan: String,
    pub stripe_customer_id: Option<String>,
    pub created_at: i64,
}

/// The usage report for one account in the current quota window. The next
/// reset is the first instant of month `reset_month` of `reset_year`, UTC.
#[derive(Debug)]
pub struct UsageResponse {
    pub plan: String,
    pub usage: i32,
    pub limit: i32,
    pub remaining: i32,
    pub reset_year: i32,
    pub reset_month: u32,
}

/// Scan statistics for one artifact. The average scans per day is the exact
/// rational `avg_scans_num / avg_days_den`; the denominator is the number of
/// whole days elapsed since creation, clamped to at least one.
#[derive(Debug)]
pub struct AnalyticsResponse {
    pub qr_id: String,
    pub total_scans: i32,
    pub created_at: i64,
    pub avg_scans_num: i32,
    pub avg_days_den: i64,
}

/// What a fresh registration returns: the generated credential and the
/// free-tier terms.
#[derive(Debug)]
pub struct RegistrationResponse {
    pub api_key: String,
    pub plan: String,
    pub limit: i32,
    pub message: String,
}

pub fn default_size() -> (s: u32)
    ensures
        s == 256,
{
    256
}

pub fn default_format() -> (s: String)
    ensures
        s@ == "png"@,
{
    String::from_str("png")
}

pub fn default_color() -> (s: String)
    ensures
        s@ == "#000000"@,
{
    String::from_str("#000000")
}

pub fn default_bg_color() -> (s: String)
    ensures
        s@ == "#FFFFFF"@,
{
    String::from_str("#FFFFFF")
}

/// The plan limit table: free=100, starter=2500, pro=10000, business=100000.
/// An unknown tier gets the free limit.
pub open spec fn spec_plan_limit(plan: Seq<char>) -> int {
    if plan == "starter"@ {
        2500int
    } else if plan == "pro"@ {
        10000int
    } else if plan == "business"@ {
        100000int
    } else {
        100int
    }
}

/// The monthly artifact quota of a plan tier.
pub fn get_plan_limit(plan: &str) -> (limit: i32)
    ensures
        limit == spec_plan_limit(plan@),
        100 <= limit <= 100000,
{
    let p: String = plan.to_owned();
    if p == String::from_str("starter") {
        2500
    } else if p == String::from_str("pro") {
        10000
    } else if p == String::from_str("business") {
        100000
    } else {
        100
    }
}

/// Only the pro and business tiers may customize colors.
pub open spec fn plan_customizes(plan: Seq<char>) -> bool {
    plan == "pro"@ || plan == "business"@
}

/// Whether this plan tier is allowed to substitute its own colors into the
/// rendered image.
pub fn plan_allows_custom(plan: &str) -> (b: bool)
    ensures
        b == plan_customizes(plan@),
{
    let p: String = plan.to_owned();
    p == String::from_str("pro") || p == String::from_str("business")
}

} // verus!
