use vstd::prelude::*;
use crate::auth::{fresh_artifact_id, generate_api_key};
use crate::database::{ArtifactStore, IdentityStore, StoreError};
use crate::models::{
    get_plan_limit, spec_plan_limit, AnalyticsResponse, QRRequest, QRResponse,
    RegistrationResponse, UsageResponse,
};
use crate::qr_service::{generate_qr, spec_render};
use crate::quota::QuotaCounter;

verus! {

/// Failures of the issuance pipeline, one per pipeline step that can refuse.
#[derive(Debug, PartialEq, Eq, Structural, Clone, Copy)]
pub enum IssuanceError {
    /// The credential resolved to no account.
    Unauthorized,
    /// This window's usage has reached the plan limit.
    QuotaExceeded,
    /// The payload could not be rendered.
    RenderFailed,
    /// The artifact row could not be inserted.
    PersistFailed,
}

/// What a scan-view returns: a redirect instruction when the stored payload
/// looks like an HTTP(S) URL, the raw payload otherwise.
#[derive(Debug)]
pub enum ScanView {
    Redirect(String),
    Data(String),
}

/// The whole service state: the identity store, the monthly quota counter,
/// and the artifact store.
pub struct AppState {
    pub users: IdentityStore,
    pub quota: QuotaCounter,
    pub artifacts: ArtifactStore,
}

/// The base64 text that the standard alphabet assigns to these bytes: a
/// deterministic function of the bytes alone.
pub uninterp spec fn base64_of(bytes: Seq<u8>) -> Seq<char>;

/// Relies on base64's STANDARD engine: encoding is a deterministic, total
/// function of the input bytes.
#[verifier::external_body]
fn base64_encode(bytes: &Vec<u8>) -> (s: String)
    ensures
        s@ == base64_of(bytes@),
{
    base64::Engine::encode(&base64::engine::general_purpose::STANDARD, bytes.as_slice())
}

/// Whether a stored payload looks like an HTTP(S) URL: it starts with
/// "http".
pub open spec fn spec_is_url(s: Seq<char>) -> bool {
    s.len() >= 4 && s.subrange(0, 4) == "http"@
}

/// Whether this payload starts with "http".
fn is_http_like(s: &str) -> (b: bool)
    ensures
        b == spec_is_url(s@),
{
    proof {
        reveal_strlit("http");
    }
    let n = s.unicode_len();
    if n < 4 {
        return false;
    }
    let ok = s.get_char(0) == 'h' && s.get_char(1) == 't' && s.get_char(2) == 't' && s.get_char(3)
        == 'p';
    proof {
        assert(s@.subrange(0, 4)[0] == s@[0] && s@.subrange(0, 4)[1] == s@[1] && s@.subrange(
            0,
            4,
        )[2] == s@[2] && s@.subrange(0, 4)[3] == s@[3]);
        if ok {
            assert(s@.subrange(0, 4) =~= "http"@);
        } else {
            if s@.subrange(0, 4) == "http"@ {
                assert(s@[0] == "http"@[0] && s@[1] == "http"@[1] && s@[2] == "http"@[2] && s@[3]
                    == "http"@[3]);
                assert(false);
            }
        }
    }
    ok
}

/// The number of whole days between creation and now; a future creation time
/// counts as zero elapsed days.
pub open spec fn spec_days_elapsed(created_at: int, now: int) -> int {
    if now - created_at < 86400 {
        0
    } else {
        (now - created_at) / 86400
    }
}

/// Derives scan-rate statistics: the total, and the average scans per day as
/// the exact rational `r.0 / r.1`. The denominator is the number of whole
/// days elapsed, clamped to at least one, so within the first day (or for an
/// invalid future creation time) the average equals the total.
pub fn aggregate(scan_count: i32, created_at: i64, now: i64) -> (r: (i32, i64))
    requires
        created_at >= 0,
        now >= 0,
    ensures
        r.0 == scan_count,
        r.1 == if spec_days_elapsed(created_at as int, now as int) == 0 {
            1int
        } else {
            spec_days_elapsed(created_at as int, now as int)
        },
        r.1 >= 1,
{
    let diff = now - created_at;
    if diff < 86400 {
        (scan_count, 1)
    } else {
        let days = ((diff as u64) / 86400) as i64;
        (scan_count, days)
    }
}

/// Reads an artifact's stats and derives its analytics; `NotFound` exactly
/// when the identifier is unknown. Reading is idempotent: the store is not
/// touched, so repeated reads at the same time report the same numbers.
pub fn get_qr_analytics(store: &ArtifactStore, id: &str, now: i64) -> (r: Result<
    AnalyticsResponse,
    StoreError,
>)
    requires
        store.wf(),
        now >= 0,
    ensures
        r is Ok <==> store.has(id@),
        r is Err ==> r == Err::<AnalyticsResponse, StoreError>(StoreError::NotFound),
        r matches Ok(a) ==> {
            &&& a.qr_id@ == id@
            &&& a.total_scans == store.scans_of(id@)
            &&& a.created_at == store.created_of(id@)
            &&& a.avg_scans_num == store.scans_of(id@)
            &&& a.avg_days_den == if spec_days_elapsed(store.created_of(id@), now as int) == 0 {
                1int
            } else {
                spec_days_elapsed(store.created_of(id@), now as int)
            }
        },
{
    match store.get_stats(id) {
        Err(e) => Err(e),
        Ok(st) => {
            let (scans, created_at) = st;
            let avg = aggregate(scans, created_at, now);
            Ok(
                AnalyticsResponse {
                    qr_id: id.to_owned(),
                    total_scans: scans,
                    created_at,
                    avg_scans_num: avg.0,
                    avg_days_den: avg.1,
                },
            )
        },
    }
}

/// The first calendar month after `year`-`month`: the quota window rolls
/// over at its first instant (UTC).
pub open spec fn spec_next_month(year: int, month: int) -> (int, int) {
    if month == 12 {
        (year + 1, 1)
    } else {
        (year, month + 1)
    }
}

/// The year and month whose first instant is the next usage reset.
pub fn get_next_month_first(year: i32, month: u32) -> (r: (i32, u32))
    requires
        1 <= month <= 12,
        year < i32::MAX,
    ensures
        (r.0 as int, r.1 as int) == spec_next_month(year as int, month as int),
{
    if month == 12 {
        (year + 1, 1)
    } else {
        (year, month + 1)
    }
}

impl AppState {
    /// All three stores are well formed.
    pub open spec fn wf(&self) -> bool {
        self.users.wf() && self.quota.wf() && self.artifacts.wf()
    }

    /// Whether this credential resolves to an account.
    pub open spec fn authorized(&self, api_key: Seq<char>) -> bool {
        self.users.has_key(api_key)
    }

    /// The id of the account behind this credential.
    pub open spec fn account_id(&self, api_key: Seq<char>) -> i64 {
        self.users.spec_user(api_key).id
    }

    /// The plan tier of the account behind this credential.
    pub open spec fn plan_of(&self, api_key: Seq<char>) -> Seq<char> {
        self.users.spec_user(api_key).plan@
    }

    /// This account's usage in the given quota window.
    pub open spec fn usage_of(&self, api_key: Seq<char>, year: i32, month: u32) -> int {
        self.quota.spec_usage(self.account_id(api_key), year, month)
    }

    /// This account's monthly limit, from the plan limit table.
    pub open spec fn limit_of(&self, api_key: Seq<char>) -> int {
        spec_plan_limit(self.plan_of(api_key))
    }

    /// What rendering returns for this request under this account's plan.
    pub open spec fn spec_rendered(&self, api_key: Seq<char>, req: QRRequest) -> Option<Seq<u8>> {
        spec_render(req.data@, req.size, req.color@, req.bg_color@, self.plan_of(api_key))
    }

    /// A fresh service: no accounts, no usage, no artifacts.
    pub fn new() -> (s: AppState)
        ensures
            s.wf(),
            forall|k: Seq<char>| !s.authorized(k),
            forall|id: Seq<char>| !s.artifacts.has(id),
            forall|u: i64, y: i32, m: u32| s.quota.spec_usage(u, y, m) == 0,
    {
        AppState { users: IdentityStore::new(), quota: QuotaCounter::new(), artifacts: ArtifactStore::new() }
    }

    /// The issuance pipeline, given the artifact identifier to use: resolve
    /// the credential, check quota, render, persist, and only then consume
    /// one unit of quota, so a failed render or persist charges nothing. On
    /// success the identifier was fresh: it names no previously issued
    /// artifact. Errors change nothing.
    pub fn issue_with_id(
        &mut self,
        api_key: &str,
        req: &QRRequest,
        qr_id: String,
        year: i32,
        month: u32,
        now: i64,
        base_url: &str,
    ) -> (r: Result<QRResponse, IssuanceError>)
        requires
            old(self).wf(),
            now >= 0,
        ensures
            final(self).wf(),
            final(self).users == old(self).users,
            !old(self).authorized(api_key@) ==> r == Err::<QRResponse, IssuanceError>(
                IssuanceError::Unauthorized,
            ) && *final(self) == *old(self),
            old(self).authorized(api_key@) && old(self).usage_of(api_key@, year, month) >= old(
                self,
            ).limit_of(api_key@) ==> r == Err::<QRResponse, IssuanceError>(
                IssuanceError::QuotaExceeded,
            ) && *final(self) == *old(self),
            old(self).authorized(api_key@) && old(self).usage_of(api_key@, year, month) < old(
                self,
            ).limit_of(api_key@) && old(self).spec_rendered(api_key@, *req) is None ==> r
                == Err::<QRResponse, IssuanceError>(IssuanceError::RenderFailed) && *final(self)
                == *old(self),
            old(self).authorized(api_key@) && old(self).usage_of(api_key@, year, month) < old(
                self,
            ).limit_of(api_key@) && old(self).spec_rendered(api_key@, *req) is Some && old(
                self,
            ).artifacts.has(qr_id@) ==> r == Err::<QRResponse, IssuanceError>(
                IssuanceError::PersistFailed,
            ) && *final(self) == *old(self),
            old(self).authorized(api_key@) && old(self).usage_of(api_key@, year, month) < old(
                self,
            ).limit_of(api_key@) && old(self).spec_rendered(api_key@, *req) is Some && !old(
                self,
            ).artifacts.has(qr_id@) ==> {
                &&& r is Ok
                &&& final(self).artifacts.has(qr_id@)
                &&& final(self).artifacts.scans_of(qr_id@) == 0
                &&& final(self).artifacts.data_of(qr_id@) == req.data@
                &&& final(self).artifacts.created_of(qr_id@) == now
                &&& final(self).artifacts.owner_of(qr_id@) == old(self).account_id(api_key@)
                &&& forall|o: Seq<char>|
                    o != qr_id@ ==> #[trigger] final(self).artifacts.has(o) == old(
                        self,
                    ).artifacts.has(o)
                &&& final(self).usage_of(api_key@, year, month) == old(self).usage_of(
                    api_key@,
                    year,
                    month,
                ) + 1
                &&& forall|u: i64, y: i32, m: u32|
                    !(u == old(self).account_id(api_key@) && y == year && m == month)
                        ==> #[trigger] final(self).quota.spec_usage(u, y, m) == old(
                        self,
                    ).quota.spec_usage(u, y, m)
            },
            r matches Ok(resp) ==> {
                &&& resp.qr_code@ == base64_of(old(self).spec_rendered(api_key@, *req).unwrap())
                &&& resp.qr_url@ == base_url@ + "/qr/"@ + qr_id@
                &&& resp.analytics@ == base_url@ + "/analytics/"@ + qr_id@
            },
    {
        let user = match self.users.get_user_by_api_key(api_key) {
            Err(_) => {
                return Err(IssuanceError::Unauthorized);
            },
            Ok(u) => u,
        };
        let usage = self.quota.get_monthly_usage(user.id, year, month);
        let limit = get_plan_limit(user.plan.as_str());
        if usage >= limit {
            return Err(IssuanceError::QuotaExceeded);
        }
        let png = match generate_qr(req, user.plan.as_str()) {
            Err(_) => {
                return Err(IssuanceError::RenderFailed);
            },
            Ok(b) => b,
        };
        match self.artifacts.create_qr_code(qr_id.clone(), user.id, req.data.clone(), now) {
            Err(_) => {
                return Err(IssuanceError::PersistFailed);
            },
            Ok(_) => {},
        }
        let _consumed = self.quota.increment_usage(user.id, year, month);
        let encoded = base64_encode(&png);
        let mut qr_url: String = base_url.to_owned();
        qr_url.append("/qr/");
        qr_url.append(qr_id.as_str());
        let mut an_url: String = base_url.to_owned();
        an_url.append("/analytics/");
        an_url.append(qr_id.as_str());
        Ok(QRResponse { qr_code: encoded, qr_url, analytics: an_url })
    }

    /// The issuance pipeline with a freshly generated artifact identifier.
    /// Quota check and quota consumption are two separate store operations,
    /// not one atomic reserve: under concurrent requests near the limit each
    /// request that observed usage below the limit may succeed, a deliberate
    /// soft-limit trade-off. A failed render or persist changes nothing and
    /// charges no quota; on success exactly one freshly identified artifact
    /// exists and exactly one unit of quota was consumed.
    pub fn issue(
        &mut self,
        api_key: &str,
        req: &QRRequest,
        year: i32,
        month: u32,
        now: i64,
        base_url: &str,
    ) -> (r: Result<QRResponse, IssuanceError>)
        requires
            old(self).wf(),
            now >= 0,
        ensures
            final(self).wf(),
            final(self).users == old(self).users,
            !old(self).authorized(api_key@) ==> r == Err::<QRResponse, IssuanceError>(
                IssuanceError::Unauthorized,
            ) && *final(self) == *old(self),
            old(self).authorized(api_key@) && old(self).usage_of(api_key@, year, month) >= old(
                self,
            ).limit_of(api_key@) ==> r == Err::<QRResponse, IssuanceError>(
                IssuanceError::QuotaExceeded,
            ) && *final(self) == *old(self),
            old(self).authorized(api_key@) && old(self).usage_of(api_key@, year, month) < old(
                self,
            ).limit_of(api_key@) && old(self).spec_rendered(api_key@, *req) is None ==> r
                == Err::<QRResponse, IssuanceError>(IssuanceError::RenderFailed) && *final(self)
                == *old(self),
            old(self).authorized(api_key@) && old(self).usage_of(api_key@, year, month) < old(
                self,
            ).limit_of(api_key@) && old(self).spec_rendered(api_key@, *req) is Some ==> (r is Ok
                || r == Err::<QRResponse, IssuanceError>(IssuanceError::PersistFailed)),
            r is Err ==> *final(self) == *old(self),
            r is Ok ==> exists|id: Seq<char>|
                {
                    &&& !old(self).artifacts.has(id)
                    &&& #[trigger] final(self).artifacts.has(id)
                    &&& final(self).artifacts.scans_of(id) == 0
                    &&& final(self).artifacts.data_of(id) == req.data@
                    &&& final(self).artifacts.created_of(id) == now
                    &&& final(self).artifacts.owner_of(id) == old(self).account_id(api_key@)
                },
            r is Ok ==> old(self).authorized(api_key@) && old(self).usage_of(api_key@, year, month)
                < old(self).limit_of(api_key@) && final(self).usage_of(api_key@, year, month)
                == old(self).usage_of(api_key@, year, month) + 1,
    {
        let qr_id = fresh_artifact_id();
        let ghost gid = qr_id@;
        let r = self.issue_with_id(api_key, req, qr_id, year, month, now, base_url);
        proof {
            if r is Ok {
                assert(final(self).artifacts.has(gid));
            }
        }
        r
    }

    /// One issuance that observed usage below the limit consumes exactly one
    /// unit, as `issue` ensures, so by itself it pushes usage at most to the
    /// limit. Quota check and consumption are separate store operations, so
    /// under concurrent requests every request that observed usage below the
    /// limit may consume its unit: with usage one below the limit, N
    /// interleaved requests can overshoot it by at most N - 1 units. That
    /// soft-limit semantic is the documented trade-off of check-then-consume.
    pub proof fn lemma_issue_bounded_overshoot(
        pre: AppState,
        post: AppState,
        api_key: Seq<char>,
        year: i32,
        month: u32,
    )
        requires
            pre.usage_of(api_key, year, month) < pre.limit_of(api_key),
            post.usage_of(api_key, year, month) == pre.usage_of(api_key, year, month) + 1,
        ensures
            post.usage_of(api_key, year, month) <= pre.limit_of(api_key),
    {
    }

    /// The usage report for this credential's account in the given window:
    /// the plan, its limit, the usage consumed, what remains, and when the
    /// window resets (the first instant of the next calendar month, UTC).
    pub fn usage_report(&self, api_key: &str, year: i32, month: u32) -> (r: Result<
        UsageResponse,
        IssuanceError,
    >)
        requires
            self.wf(),
            1 <= month <= 12,
            year < i32::MAX,
        ensures
            r is Ok <==> self.authorized(api_key@),
            r is Err ==> r == Err::<UsageResponse, IssuanceError>(IssuanceError::Unauthorized),
            r matches Ok(u) ==> {
                &&& u.plan@ == self.plan_of(api_key@)
                &&& u.usage == self.usage_of(api_key@, year, month)
                &&& u.limit == self.limit_of(api_key@)
                &&& u.remaining == u.limit - u.usage
                &&& (u.reset_year as int, u.reset_month as int) == spec_next_month(
                    year as int,
                    month as int,
                )
            },
    {
        let user = match self.users.get_user_by_api_key(api_key) {
            Err(_) => {
                return Err(IssuanceError::Unauthorized);
            },
            Ok(u) => u,
        };
        let usage = self.quota.get_monthly_usage(user.id, year, month);
        let limit = get_plan_limit(user.plan.as_str());
        let reset = get_next_month_first(year, month);
        Ok(
            UsageResponse {
                plan: user.plan,
                usage,
                limit,
                remaining: limit - usage,
                reset_year: reset.0,
                reset_month: reset.1,
            },
        )
    }

    /// A scan-view: counts one scan and returns either a redirect
    /// instruction (when the stored payload looks like an HTTP(S) URL) or
    /// the raw payload. An unknown identifier returns `NotFound` and changes
    /// nothing: no counter entry is created.
    pub fn scan_view(&mut self, id: &str) -> (r: Result<ScanView, StoreError>)
        requires
            old(self).wf(),
            old(self).artifacts.has(id@) ==> old(self).artifacts.scans_of(id@) < i32::MAX,
        ensures
            final(self).wf(),
            final(self).users == old(self).users,
            final(self).quota == old(self).quota,
            !old(self).artifacts.has(id@) ==> r == Err::<ScanView, StoreError>(
                StoreError::NotFound,
            ) && *final(self) == *old(self),
            old(self).artifacts.has(id@) ==> {
                &&& r is Ok
                &&& final(self).artifacts.scans_of(id@) == old(self).artifacts.scans_of(id@) + 1
                &&& final(self).artifacts.data_of(id@) == old(self).artifacts.data_of(id@)
                &&& forall|o: Seq<char>|
                    o != id@ ==> #[trigger] final(self).artifacts.has(o) == old(
                        self,
                    ).artifacts.has(o)
            },
            r matches Ok(v) ==> {
                &&& v is Redirect <==> spec_is_url(old(self).artifacts.data_of(id@))
                &&& v matches ScanView::Redirect(d) ==> d@ == old(self).artifacts.data_of(id@)
                &&& v matches ScanView::Data(d) ==> d@ == old(self).artifacts.data_of(id@)
            },
    {
        match self.artifacts.increment_scan_count(id) {
            Err(e) => {
                return Err(e);
            },
            Ok(_) => {},
        }
        let data = match self.artifacts.get_qr_data(id) {
            Err(_) => {
                return Err(StoreError::NotFound);
            },
            Ok(d) => d,
        };
        if is_http_like(data.as_str()) {
            Ok(ScanView::Redirect(data))
        } else {
            Ok(ScanView::Data(data))
        }
    }

    /// Registers an account under the given credential, on the default plan
    /// tier "free" with its limit of 100. A credential collision is rejected
    /// with `Conflict` and changes nothing.
    pub fn register_with_key(&mut self, api_key: String, created_at: i64) -> (r: Result<
        RegistrationResponse,
        StoreError,
    >)
        requires
            old(self).wf(),
            old(self).users.spec_next_id() < i64::MAX,
            created_at >= 0,
        ensures
            final(self).wf(),
            final(self).quota == old(self).quota,
            final(self).artifacts == old(self).artifacts,
            r is Ok <==> !old(self).authorized(api_key@),
            r is Err ==> r == Err::<RegistrationResponse, StoreError>(StoreError::Conflict)
                && *final(self) == *old(self),
            r matches Ok(resp) ==> {
                &&& resp.api_key@ == api_key@
                &&& resp.plan@ == "free"@
                &&& resp.limit == 100
                &&& final(self).authorized(api_key@)
                &&& final(self).plan_of(api_key@) == "free"@
                &&& forall|o: Seq<char>|
                    o != api_key@ ==> #[trigger] final(self).authorized(o) == old(self).authorized(
                        o,
                    )
            },
    {
        let key_copy = api_key.clone();
        match self.users.create_user(api_key, created_at) {
            Err(e) => Err(e),
            Ok(_) => Ok(
                RegistrationResponse {
                    api_key: key_copy,
                    plan: String::from_str("free"),
                    limit: 100,
                    message: String::from_str("Welcome! You have 100 free QR codes per month."),
                },
            ),
        }
    }

    /// Registers an account under a freshly generated credential. On success
    /// the new account is on the "free" tier with its limit of 100; a
    /// credential collision is surfaced as `Conflict` and changes nothing.
    pub fn register(&mut self, created_at: i64) -> (r: Result<RegistrationResponse, StoreError>)
        requires
            old(self).wf(),
            old(self).users.spec_next_id() < i64::MAX,
            created_at >= 0,
        ensures
            final(self).wf(),
            final(self).quota == old(self).quota,
            final(self).artifacts == old(self).artifacts,
            r is Err ==> r == Err::<RegistrationResponse, StoreError>(StoreError::Conflict)
                && *final(self) == *old(self),
            r matches Ok(resp) ==> {
                &&& resp.plan@ == "free"@
                &&& resp.limit == 100
                &&& !old(self).authorized(resp.api_key@)
                &&& final(self).authorized(resp.api_key@)
                &&& final(self).plan_of(resp.api_key@) == "free"@
            },
    {
        let api_key = generate_api_key();
        self.register_with_key(api_key, created_at)
    }
}

} // verus!
