//! Quota queries: what is asked of the service, and what becomes of its replies.
use vstd::prelude::*;
use vstd::string::*;

use crate::claims::parse_access_token;
use crate::identity::canonical_account_id;
use crate::model::{AccountRecord, QuotaState, QuotaWindow, UsageData};
use crate::percent::{Percent, Reading};
use crate::settings::set_variable;
use crate::text::{blank, trim_text, truncate};
use crate::timestamp::{timestamp_from_secs, Timestamp};

#[allow(unused_imports)]
use crate::model::{AccountView, QuotaView, UsageView, WindowView};

verus! {

/// Where quota is asked for.
pub const USAGE_URL: &'static str = "https://chatgpt.com/backend-api/wham/usage";

/// Where tokens are renewed.
pub const TOKEN_URL: &'static str = "https://auth.openai.com/oauth/token";

/// Why quota cannot be had.
#[derive(Clone, Copy, Debug, PartialEq, Eq, Structural)]
pub enum ApiError {
    MissingRefreshToken,
    MissingClientId,
    MissingAccessToken,
    MissingWindows,
}

impl ApiError {
    pub open spec fn text(self) -> Seq<char> {
        match self {
            ApiError::MissingRefreshToken => "refresh token is missing"@,
            ApiError::MissingClientId => "cannot refresh token without client_id"@,
            ApiError::MissingAccessToken => "refresh response missing access_token"@,
            ApiError::MissingWindows => "quota response did not include usage windows"@,
        }
    }

    pub fn message(self) -> (r: &'static str)
        ensures
            r@ == self.text(),
    {
        match self {
            ApiError::MissingRefreshToken => "refresh token is missing",
            ApiError::MissingClientId => "cannot refresh token without client_id",
            ApiError::MissingAccessToken => "refresh response missing access_token",
            ApiError::MissingWindows => "quota response did not include usage windows",
        }
    }
}

/// A request that the service can turn down.
#[derive(Clone, Copy, Debug, PartialEq, Eq, Structural)]
pub enum Request {
    Quota,
    Refresh,
    Exchange,
    Profile,
}

impl Request {
    pub open spec fn refusal(self) -> Seq<char> {
        match self {
            Request::Quota => "quota request failed with "@,
            Request::Refresh => "refresh failed with "@,
            Request::Exchange => "oauth token exchange failed with "@,
            Request::Profile => "profile request failed with "@,
        }
    }

    /// How many bytes of the reply are shown.
    pub open spec fn shown(self) -> int {
        match self {
            Request::Profile => 200,
            _ => 240,
        }
    }
}

/// Tells whether `refusal_message` can cut the reply.
pub fn can_show(request: Request, body: &str) -> (r: bool)
    ensures
        r == crate::text::truncates(body@, request.shown()),
{
    match request {
        Request::Profile => crate::text::can_truncate(body, 200),
        _ => crate::text::can_truncate(body, 240),
    }
}

/// What is said of a request that was turned down.
pub fn refusal_message(request: Request, status: &str, body: &str) -> (r: String)
    requires
        crate::text::truncates(body@, request.shown()),
    ensures
        r@ == request.refusal() + status@ + ": "@ + crate::text::truncated(
            body@,
            request.shown(),
        ),
{
    let refusal = match request {
        Request::Quota => "quota request failed with ",
        Request::Refresh => "refresh failed with ",
        Request::Exchange => "oauth token exchange failed with ",
        Request::Profile => "profile request failed with ",
    };
    let shown: usize = match request {
        Request::Profile => 200,
        _ => 240,
    };
    let part = truncate(body, shown);
    refusal.to_string().concat(status).concat(": ").concat(part.as_str())
}

/// A window in a reply.
#[derive(Clone, Copy, Debug)]
pub struct WindowSnapshot {
    pub limit_window_seconds: i64,
    pub used_percent: Reading,
    pub reset_at: i64,
}

/// What a window in a reply says.
pub open spec fn mapped_window(snapshot: WindowSnapshot) -> WindowView {
    let used = crate::percent::clamped(snapshot.used_percent@);
    WindowView {
        window_sec: snapshot.limit_window_seconds as int,
        used_percent: used,
        left_percent: crate::percent::left_of(used),
        reset_at: crate::timestamp::at_secs(snapshot.reset_at as int),
    }
}

pub fn map_window(snapshot: WindowSnapshot) -> (r: QuotaWindow)
    ensures
        r@ == mapped_window(snapshot),
{
    let used = Percent::clamped(snapshot.used_percent);
    QuotaWindow {
        window_sec: snapshot.limit_window_seconds,
        used_percent: used,
        left_percent: used.left(),
        reset_at: timestamp_from_secs(snapshot.reset_at),
    }
}

/// The limits in a reply.
#[derive(Clone, Copy, Debug)]
pub struct RateLimitStatus {
    pub allowed: bool,
    pub limit_reached: bool,
    pub primary_window: Option<WindowSnapshot>,
    pub secondary_window: Option<WindowSnapshot>,
}

/// A reply to a quota request.
#[derive(Debug)]
pub struct UsageResponse {
    pub plan_type: String,
    pub rate_limit: RateLimitStatus,
}

/// The windows of a reply, the primary one first.
pub open spec fn reply_windows(limits: RateLimitStatus) -> Seq<WindowView> {
    match (limits.primary_window, limits.secondary_window) {
        (Some(p), Some(s)) => seq![mapped_window(p), mapped_window(s)],
        (Some(p), None) => seq![mapped_window(p)],
        (None, Some(s)) => seq![mapped_window(s)],
        (None, None) => Seq::empty(),
    }
}

/// What a reply says of an account's use.
pub open spec fn reply_usage(payload: UsageResponse) -> UsageView {
    UsageView {
        plan_type: payload.plan_type@,
        allowed: payload.rate_limit.allowed,
        limit_reached: payload.rate_limit.limit_reached,
        windows: reply_windows(payload.rate_limit),
    }
}

/// Takes a reply over into an account. A reply without windows is an error.
pub fn quota_loaded(account: &mut AccountRecord, payload: UsageResponse) -> (r: Result<(), ApiError>)
    ensures
        reply_windows(payload.rate_limit).len() == 0 ==> r == Err::<(), ApiError>(
            ApiError::MissingWindows,
        ) && final(account)@ == old(account)@,
        reply_windows(payload.rate_limit).len() > 0 ==> r is Ok && final(account)@ == (AccountView {
            quota: QuotaView::Ready(reply_usage(payload)),
            ..old(account)@
        }),
{
    let mut windows: Vec<QuotaWindow> = Vec::new();
    if let Some(primary) = payload.rate_limit.primary_window {
        windows.push(map_window(primary));
    }
    if let Some(secondary) = payload.rate_limit.secondary_window {
        windows.push(map_window(secondary));
    }
    assert(crate::model::window_views(windows@) =~= reply_windows(payload.rate_limit));
    if windows.len() == 0 {
        return Err(ApiError::MissingWindows);
    }
    account.quota = QuotaState::Ready(
        UsageData {
            plan_type: payload.plan_type,
            allowed: payload.rate_limit.allowed,
            limit_reached: payload.rate_limit.limit_reached,
            windows,
        },
    );
    Ok(())
}

/// The expiry of an account: its own, or the one that its token claims.
pub open spec fn expiry_of(a: AccountView) -> Option<(int, int)> {
    match a.expires_at {
        Some(t) => Some(t),
        None => crate::claims::claims_of(a.access_token).expires_at,
    }
}

/// Five minutes before a point in time, without a leap second.
pub open spec fn five_minutes_before(t: (int, int)) -> (int, int) {
    (t.0 - 300 + t.1 / 1_000_000_000, t.1 % 1_000_000_000)
}

/// A date can hold the point in time five minutes before the expiry.
pub open spec fn has_margin(expiry: Option<(int, int)>) -> bool {
    expiry matches Some(t) ==> five_minutes_before(t).0 >= crate::timestamp::MIN_SECS
}

/// At most five minutes are left before the expiry, if there is one.
pub open spec fn expired(expiry: Option<(int, int)>, now: (int, int)) -> bool {
    expiry matches Some(t) && crate::timestamp::no_later(five_minutes_before(t), now)
}

/// The expiry of an account: its own, or the one that its token claims.
pub fn account_expiry(account: &AccountRecord) -> (r: Option<Timestamp>)
    ensures
        crate::timestamp::moment(r) == expiry_of(account@),
{
    match account.expires_at {
        Some(expiry) => Some(expiry),
        None => parse_access_token(account.access_token.as_str()).expires_at,
    }
}

/// Tells whether at most five minutes are left before an expiry.
pub fn expires_soon(expiry: Option<Timestamp>, now: Timestamp) -> (r: bool)
    requires
        has_margin(crate::timestamp::moment(expiry)),
    ensures
        r == expired(crate::timestamp::moment(expiry), now@),
{
    match expiry {
        Some(expiry) => {
            let secs: i64 = expiry.secs() - 300 + (expiry.nanos() / 1_000_000_000) as i64;
            let nanos: u32 = expiry.nanos() % 1_000_000_000;
            secs < now.secs() || (secs == now.secs() && nanos <= now.nanos())
        },
        None => false,
    }
}

/// Tells whether the tokens of an account have to be renewed.
pub fn account_expired(account: &AccountRecord, now: Timestamp) -> (r: bool)
    requires
        has_margin(expiry_of(account@)),
    ensures
        r == expired(expiry_of(account@), now@),
{
    expires_soon(account_expiry(account), now)
}

/// What a renewal asks for.
#[derive(Debug)]
pub struct RefreshRequest {
    pub grant_type: &'static str,
    pub refresh_token: String,
    pub client_id: String,
}

#[verifier::ext_equal]
pub struct RefreshView {
    pub grant_type: Seq<char>,
    pub refresh_token: Seq<char>,
    pub client_id: Seq<char>,
}

impl View for RefreshRequest {
    type V = RefreshView;

    open spec fn view(&self) -> RefreshView {
        RefreshView {
            grant_type: self.grant_type@,
            refresh_token: self.refresh_token@,
            client_id: self.client_id@,
        }
    }
}

/// The client id of an account, or that of its token.
pub open spec fn client_of(a: AccountView) -> Seq<char> {
    if crate::text::is_blank(a.client_id) {
        crate::claims::claims_of(a.access_token).client_id
    } else {
        crate::text::trimmed(a.client_id)
    }
}

/// What the renewal of an account's tokens asks for. It needs a refresh token and a client id.
pub open spec fn refresh_asked(a: AccountView) -> Result<RefreshView, ApiError> {
    if crate::text::is_blank(a.refresh_token) {
        Err(ApiError::MissingRefreshToken)
    } else if crate::text::is_blank(client_of(a)) {
        Err(ApiError::MissingClientId)
    } else {
        Ok(
            RefreshView {
                grant_type: "refresh_token"@,
                refresh_token: crate::text::trimmed(a.refresh_token),
                client_id: crate::text::trimmed(client_of(a)),
            },
        )
    }
}

/// The view of a request that may have failed.
pub open spec fn refresh_view(r: Result<RefreshRequest, ApiError>) -> Result<RefreshView, ApiError> {
    match r {
        Ok(request) => Ok(request@),
        Err(error) => Err(error),
    }
}

/// What the renewal of an account's tokens asks for.
pub fn refresh_request(account: &AccountRecord) -> (r: Result<RefreshRequest, ApiError>)
    ensures
        refresh_view(r) == refresh_asked(account@),
{
    if blank(account.refresh_token.as_str()) {
        return Err(ApiError::MissingRefreshToken);
    }
    let client_id = if !blank(account.client_id.as_str()) {
        trim_text(account.client_id.as_str())
    } else {
        parse_access_token(account.access_token.as_str()).client_id
    };
    if blank(client_id.as_str()) {
        return Err(ApiError::MissingClientId);
    }
    Ok(
        RefreshRequest {
            grant_type: "refresh_token",
            refresh_token: trim_text(account.refresh_token.as_str()),
            client_id: trim_text(client_id.as_str()),
        },
    )
}

/// A reply to a renewal.
#[derive(Debug)]
pub struct RefreshResponse {
    pub access_token: String,
    pub refresh_token: String,
    pub expires_in: i64,
}

/// The account after its tokens were renewed.
pub open spec fn renewed(
    a: AccountView,
    client_id: Seq<char>,
    payload: RefreshResponse,
    now: (int, int),
) -> AccountView {
    let claims = crate::claims::claims_of(payload.access_token@);
    AccountView {
        access_token: payload.access_token@,
        refresh_token: if crate::text::is_blank(payload.refresh_token@) {
            a.refresh_token
        } else {
            payload.refresh_token@
        },
        client_id: if crate::text::is_blank(claims.client_id) {
            client_id
        } else {
            claims.client_id
        },
        account_id: if crate::text::is_blank(claims.account_id) {
            a.account_id
        } else {
            crate::identity::canonical(seq![a.account_id, claims.account_id])
        },
        expires_at: if payload.expires_in > 0 {
            Some((now.0 + payload.expires_in, now.1))
        } else {
            claims.expires_at
        },
        ..a
    }
}

/// A date can hold the expiry that comes `expires_in` seconds after `now`.
pub open spec fn fits(now: (int, int), expires_in: int) -> bool {
    expires_in > 0 ==> now.0 + expires_in <= crate::timestamp::MAX_SECS && now.1 < 1_000_000_000
}

/// Tells whether a date can hold the expiry that comes `expires_in` seconds after `now`.
pub fn can_expire(now: Timestamp, expires_in: i64) -> (r: bool)
    ensures
        r == fits(now@, expires_in as int),
{
    expires_in <= 0 || (expires_in <= crate::timestamp::MAX_SECS - now.secs() && now.nanos()
        < 1_000_000_000)
}

/// Takes renewed tokens over into an account; `client_id` is that of the request.
pub fn refresh_token(
    account: &mut AccountRecord,
    client_id: &str,
    payload: RefreshResponse,
    now: Timestamp,
) -> (r: Result<(), ApiError>)
    requires
        !crate::text::is_blank(payload.access_token@) ==> fits(now@, payload.expires_in as int),
    ensures
        crate::text::is_blank(payload.access_token@) ==> r == Err::<(), ApiError>(
            ApiError::MissingAccessToken,
        ) && final(account)@ == old(account)@,
        !crate::text::is_blank(payload.access_token@) ==> r is Ok && final(account)@ == renewed(
            old(account)@,
            client_id@,
            payload,
            now@,
        ),
{
    if blank(payload.access_token.as_str()) {
        return Err(ApiError::MissingAccessToken);
    }
    let expires_in: i64 = payload.expires_in;
    account.access_token = payload.access_token;
    if !blank(payload.refresh_token.as_str()) {
        account.refresh_token = payload.refresh_token;
    }
    let claims = parse_access_token(account.access_token.as_str());
    if !blank(claims.account_id.as_str()) {
        let ids = [account.account_id.as_str(), claims.account_id.as_str()];
        assert(crate::identity::texts(ids@) =~= seq![account.account_id@, claims.account_id@]);
        account.account_id = canonical_account_id(&ids);
    }
    if !blank(claims.client_id.as_str()) {
        account.client_id = claims.client_id;
    } else {
        account.client_id = client_id.to_string();
    }
    account.expires_at = if expires_in > 0 {
        Some(now.plus_seconds(expires_in))
    } else {
        claims.expires_at
    };
    Ok(())
}

/// The address at which quota is asked for, unless a variable names another.
pub fn usage_url(other: Option<&str>) -> (r: String)
    ensures
        r@ == match crate::settings::value_of(other) {
            Some(url) => if crate::text::is_blank(url) {
                USAGE_URL@
            } else {
                url
            },
            None => USAGE_URL@,
        },
{
    match other {
        Some(url) => if set_variable(other) {
            url.to_string()
        } else {
            USAGE_URL.to_string()
        },
        None => USAGE_URL.to_string(),
    }
}

/// The headers of a quota request; `account_id` is left out for an account without an id.
#[derive(Debug)]
pub struct UsageHeaders {
    pub authorization: String,
    pub accept: &'static str,
    pub user_agent: &'static str,
    pub account_id: Option<String>,
}

#[verifier::ext_equal]
pub struct HeadersView {
    pub authorization: Seq<char>,
    pub accept: Seq<char>,
    pub user_agent: Seq<char>,
    pub account_id: Option<Seq<char>>,
}

impl View for UsageHeaders {
    type V = HeadersView;

    open spec fn view(&self) -> HeadersView {
        HeadersView {
            authorization: self.authorization@,
            accept: self.accept@,
            user_agent: self.user_agent@,
            account_id: match self.account_id {
                Some(id) => Some(id@),
                None => None,
            },
        }
    }
}

/// The headers of a quota request for an account.
pub open spec fn headers_of(a: AccountView) -> HeadersView {
    HeadersView {
        authorization: "Bearer "@ + a.access_token,
        accept: "application/json"@,
        user_agent: "cas-tui"@,
        account_id: if crate::text::is_blank(a.account_id) {
            None
        } else {
            Some(crate::text::trimmed(a.account_id))
        },
    }
}

/// The value of the header that carries an access token.
pub fn bearer(access_token: &str) -> (r: String)
    ensures
        r@ == "Bearer "@ + access_token@,
{
    "Bearer ".to_string().concat(access_token)
}

/// The headers of a quota request for an account.
pub fn usage_headers(account: &AccountRecord) -> (r: UsageHeaders)
    ensures
        r@ == headers_of(account@),
{
    let account_id = if blank(account.account_id.as_str()) {
        None
    } else {
        Some(trim_text(account.account_id.as_str()))
    };
    UsageHeaders {
        authorization: bearer(account.access_token.as_str()),
        accept: "application/json",
        user_agent: "cas-tui",
        account_id,
    }
}

/// What has to be done first to learn an account's quota.
#[derive(Debug)]
pub enum FetchStep {
    /// The tokens have to be renewed.
    Refresh(RefreshRequest),
    /// The service can be asked.
    Query(UsageHeaders),
    /// Nothing can be done.
    Fail(ApiError),
}

#[verifier::ext_equal]
pub enum StepView {
    Refresh(RefreshView),
    Query(HeadersView),
    Fail(ApiError),
}

impl View for FetchStep {
    type V = StepView;

    open spec fn view(&self) -> StepView {
        match *self {
            FetchStep::Refresh(request) => StepView::Refresh(request@),
            FetchStep::Query(headers) => StepView::Query(headers@),
            FetchStep::Fail(error) => StepView::Fail(error),
        }
    }
}

/// What has to be done first: tokens that expire soon are renewed before the service is asked.
pub open spec fn first_step(a: AccountView, expiry: Option<(int, int)>, now: (int, int)) -> StepView {
    if expired(expiry, now) {
        match refresh_asked(a) {
            Ok(request) => StepView::Refresh(request),
            Err(error) => StepView::Fail(error),
        }
    } else {
        StepView::Query(headers_of(a))
    }
}

/// What has to be done first to learn the quota of an account with a known expiry.
pub fn fetch_step(account: &AccountRecord, expiry: Option<Timestamp>, now: Timestamp) -> (r: FetchStep)
    requires
        has_margin(crate::timestamp::moment(expiry)),
    ensures
        r@ == first_step(account@, crate::timestamp::moment(expiry), now@),
{
    if expires_soon(expiry, now) {
        match refresh_request(account) {
            Ok(request) => FetchStep::Refresh(request),
            Err(error) => FetchStep::Fail(error),
        }
    } else {
        FetchStep::Query(usage_headers(account))
    }
}

/// The point in time five minutes before the expiry is checked before it is needed.
pub fn margin_left(expiry: Option<Timestamp>) -> (r: bool)
    ensures
        r == has_margin(crate::timestamp::moment(expiry)),
{
    match expiry {
        Some(expiry) => expiry.secs() - 300 + (expiry.nanos() / 1_000_000_000) as i64
            >= crate::timestamp::MIN_SECS,
        None => true,
    }
}

/// Tells whether the tokens of an account have to be renewed, or nothing where no date can hold the
/// point in time five minutes before they expire.
pub fn checked_account_expired(account: &AccountRecord, now: Timestamp) -> (r: Option<bool>)
    ensures
        r == if has_margin(expiry_of(account@)) {
            Some(expired(expiry_of(account@), now@))
        } else {
            None
        },
{
    if margin_left(account_expiry(account)) {
        Some(account_expired(account, now))
    } else {
        None
    }
}

/// What has to be done first to learn the quota of an account, or nothing where no date can hold the
/// point in time five minutes before its tokens expire.
pub fn fetch_quota(account: &AccountRecord, now: Timestamp) -> (r: Option<FetchStep>)
    ensures
        match r {
            Some(step) => has_margin(expiry_of(account@)) && step@ == first_step(
                account@,
                expiry_of(account@),
                now@,
            ),
            None => !has_margin(expiry_of(account@)),
        },
{
    let expiry = account_expiry(account);
    if margin_left(expiry) {
        Some(fetch_step(account, expiry, now))
    } else {
        None
    }
}

/// Renewed tokens that are good for more than five minutes are not renewed again at once.
pub proof fn lemma_renewed_is_fresh(
    a: AccountView,
    client_id: Seq<char>,
    payload: RefreshResponse,
    now: (int, int),
)
    requires
        payload.expires_in > 300,
        crate::timestamp::in_range(now.0, now.1),
    ensures
        !expired(expiry_of(renewed(a, client_id, payload, now)), now),
{
}

/// A window is spent where the service reports that all of it is used, and only there.
pub proof fn lemma_window_spent(snapshot: WindowSnapshot)
    ensures
        mapped_window(snapshot).left_percent == 0 <==> mapped_window(snapshot).used_percent
            == crate::percent::percent(100),
{
    crate::percent::lemma_clamped_range(snapshot.used_percent@);
    crate::percent::lemma_spent_when_all_is_used(
        crate::percent::clamped(snapshot.used_percent@),
    );
}

} // verus!
