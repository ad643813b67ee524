use base64::Engine;
use codex_account_switcher::api::{
    account_expired, bearer, can_expire, can_show, checked_account_expired, fetch_quota, map_window,
    quota_loaded, refresh_request, refresh_token, refusal_message, usage_headers, usage_url, ApiError,
    FetchStep, RateLimitStatus, RefreshResponse, Request, UsageResponse, WindowSnapshot, USAGE_URL,
};
use codex_account_switcher::model::{AccountRecord, QuotaState};
use codex_account_switcher::oauth::{
    authorize_pairs, begin_login_session, build_authorize_url, callback_reply, checked_login_account,
    code_challenge, exchange_code, exchange_pairs, judge_callback, login_account, login_session,
    random_string, read_callback, request_path, respond, wait_for_callback, MeResponse, OauthError,
    TokenResponse, WaitStep, OAUTH_CLIENT_ID,
};
use codex_account_switcher::percent::Reading;
use codex_account_switcher::storage::{upsert_managed_account, ManagedStore};
use codex_account_switcher::timestamp::{Timestamp, MAX_SECS, MIN_SECS};

fn token(payload: &str) -> String {
    let part = base64::engine::general_purpose::URL_SAFE_NO_PAD.encode(payload);
    format!("head.{part}.tail")
}

fn at(secs: i64, nanos: u32) -> Timestamp {
    Timestamp::new(secs, nanos).expect("a time")
}

fn window(seconds: i64, used: f64, reset_at: i64) -> WindowSnapshot {
    WindowSnapshot {
        limit_window_seconds: seconds,
        used_percent: Reading::new(used.to_bits()).expect("a number"),
        reset_at,
    }
}

#[test]
fn windows_are_mapped() {
    let w = map_window(window(18_000, 37.5, 100));
    assert_eq!(w.window_sec, 18_000);
    assert_eq!(w.used_percent.hundredths(), 3750);
    assert_eq!(w.left_percent.hundredths(), 6250);
    assert_eq!(w.reset_at.expect("a time").secs(), 100);
    assert!(map_window(window(1, 120.0, i64::MAX)).left_percent.is_spent());
    assert!(map_window(window(1, 120.0, i64::MAX)).reset_at.is_none());
}

fn reply(primary: Option<WindowSnapshot>, secondary: Option<WindowSnapshot>) -> UsageResponse {
    UsageResponse {
        plan_type: "plus".to_string(),
        rate_limit: RateLimitStatus {
            allowed: true,
            limit_reached: false,
            primary_window: primary,
            secondary_window: secondary,
        },
    }
}

#[test]
fn quota_is_taken_over() {
    let mut a = AccountRecord::default();
    assert_eq!(quota_loaded(&mut a, reply(None, None)), Err(ApiError::MissingWindows));
    assert!(matches!(a.quota, QuotaState::Idle));
    let r = quota_loaded(&mut a, reply(Some(window(5, 1.0, 0)), Some(window(6, 100.0, 0))));
    assert_eq!(r, Ok(()));
    assert_eq!(a.plan_type(), "plus");
    match &a.quota {
        QuotaState::Ready(data) => {
            assert!(data.allowed && !data.limit_reached);
            let seconds: Vec<i64> = data.windows.iter().map(|w| w.window_sec).collect();
            assert_eq!(seconds, vec![5, 6]);
        }
        other => panic!("{other:?}"),
    }
    assert!(a.is_exhausted());
}

#[test]
fn tokens_are_renewed_five_minutes_early() {
    let mut a = AccountRecord::default();
    assert!(!account_expired(&a, at(0, 0)));
    a.expires_at = Timestamp::new(1000, 5);
    assert!(!account_expired(&a, at(700, 4)));
    assert!(account_expired(&a, at(700, 5)));
    assert!(account_expired(&a, at(2000, 0)));
    a.expires_at = None;
    a.access_token = token(r#"{"exp":1000}"#);
    assert!(account_expired(&a, at(700, 0)));
    assert!(!account_expired(&a, at(699, 999_999_999)));
    assert_eq!(checked_account_expired(&a, at(700, 0)), Some(true));
    a.expires_at = Timestamp::new(MIN_SECS + 299, 0);
    assert_eq!(checked_account_expired(&a, at(0, 0)), None);
    a.expires_at = Timestamp::new(59, 1_500_000_000);
    assert_eq!(checked_account_expired(&a, at(-240, 499_999_999)), Some(false));
    assert_eq!(checked_account_expired(&a, at(-240, 500_000_000)), Some(true));
}

#[test]
fn expiry_margin_is_that_of_dates() {
    for (secs, nanos) in [(59i64, 1_500_000_000u32), (1000, 5), (-1, 999_999_999), (119, 0)] {
        let expiry = chrono::DateTime::from_timestamp(secs, nanos).expect("a date");
        let limit = expiry - chrono::Duration::minutes(5);
        let a = AccountRecord { expires_at: Timestamp::new(secs, nanos), ..Default::default() };
        for shift in [-1i64, 0, 1] {
            let now = limit + chrono::Duration::nanoseconds(shift);
            let ours = at(now.timestamp(), now.timestamp_subsec_nanos());
            assert_eq!(account_expired(&a, ours), now >= limit);
        }
    }
}

#[test]
fn renewals_ask_for_what_is_needed() {
    let mut a = AccountRecord::default();
    assert_eq!(refresh_request(&a).unwrap_err(), ApiError::MissingRefreshToken);
    a.refresh_token = " r ".to_string();
    assert_eq!(refresh_request(&a).unwrap_err(), ApiError::MissingClientId);
    a.access_token = token(r#"{"client_id":"claimed"}"#);
    let request = refresh_request(&a).expect("a request");
    assert_eq!(request.grant_type, "refresh_token");
    assert_eq!((request.refresh_token.as_str(), request.client_id.as_str()), ("r", "claimed"));
    a.client_id = " own ".to_string();
    assert_eq!(refresh_request(&a).expect("a request").client_id, "own");
    assert_eq!(ApiError::MissingRefreshToken.message(), "refresh token is missing");
    assert_eq!(ApiError::MissingClientId.message(), "cannot refresh token without client_id");
    assert_eq!(ApiError::MissingAccessToken.message(), "refresh response missing access_token");
    assert_eq!(
        ApiError::MissingWindows.message(),
        "quota response did not include usage windows"
    );
}

#[test]
fn renewed_tokens_are_taken_over() {
    let mut a = AccountRecord {
        account_id: "acc".to_string(),
        refresh_token: "old".to_string(),
        ..Default::default()
    };
    let empty = RefreshResponse {
        access_token: " ".to_string(),
        refresh_token: String::new(),
        expires_in: i64::MAX,
    };
    assert_eq!(refresh_token(&mut a, "cid", empty, at(0, 0)), Err(ApiError::MissingAccessToken));
    assert_eq!(a.refresh_token, "old");
    let payload = RefreshResponse {
        access_token: token(r#"{"sub":"123e4567-e89b-12d3-a456-426614174000","exp":50}"#),
        refresh_token: " ".to_string(),
        expires_in: 400,
    };
    assert_eq!(refresh_token(&mut a, "cid", payload, at(100, 7)), Ok(()));
    assert_eq!(a.refresh_token, "old");
    assert_eq!(a.client_id, "cid");
    assert_eq!(a.account_id, "123e4567-e89b-12d3-a456-426614174000");
    let expiry = a.expires_at.expect("an expiry");
    assert_eq!((expiry.secs(), expiry.nanos()), (500, 7));
    assert!(!account_expired(&a, at(100, 7)));
    let payload = RefreshResponse {
        access_token: token(r#"{"cid":"claimed","exp":50}"#),
        refresh_token: "new".to_string(),
        expires_in: 0,
    };
    assert_eq!(refresh_token(&mut a, "cid", payload, at(100, 7)), Ok(()));
    assert_eq!((a.refresh_token.as_str(), a.client_id.as_str()), ("new", "claimed"));
    assert_eq!(a.expires_at.expect("claimed").secs(), 50);
    assert!(can_expire(at(0, 0), MAX_SECS) && !can_expire(at(1, 0), MAX_SECS));
    assert!(can_expire(at(1, 0), -1));
}

#[test]
fn quota_requests() {
    assert_eq!(usage_url(None), USAGE_URL);
    assert_eq!(usage_url(Some(" ")), USAGE_URL);
    assert_eq!(usage_url(Some("http://x")), "http://x");
    let mut a = AccountRecord { access_token: "t".to_string(), ..Default::default() };
    let headers = usage_headers(&a);
    assert_eq!(headers.authorization, "Bearer t");
    assert_eq!((headers.accept, headers.user_agent), ("application/json", "cas-tui"));
    assert!(headers.account_id.is_none());
    a.account_id = " acc ".to_string();
    assert_eq!(usage_headers(&a).account_id.as_deref(), Some("acc"));
    assert_eq!(bearer("x"), "Bearer x");
}

#[test]
fn fetching_starts_with_the_right_step() {
    let mut a = AccountRecord { access_token: "t".to_string(), ..Default::default() };
    assert!(matches!(fetch_quota(&a, at(0, 0)), Some(FetchStep::Query(_))));
    a.expires_at = Timestamp::new(10, 0);
    assert!(matches!(
        fetch_quota(&a, at(0, 0)),
        Some(FetchStep::Fail(ApiError::MissingRefreshToken))
    ));
    a.refresh_token = "r".to_string();
    a.client_id = "c".to_string();
    assert!(matches!(fetch_quota(&a, at(0, 0)), Some(FetchStep::Refresh(_))));
    a.expires_at = Timestamp::new(MIN_SECS, 0);
    assert!(fetch_quota(&a, at(0, 0)).is_none());
}

#[test]
fn refusals_show_part_of_the_reply() {
    let long = "x".repeat(300);
    assert_eq!(
        refusal_message(Request::Quota, "500 Internal Server Error", " no "),
        "quota request failed with 500 Internal Server Error: no"
    );
    assert_eq!(
        refusal_message(Request::Refresh, "401", &long),
        format!("refresh failed with 401: {}...", "x".repeat(240))
    );
    assert_eq!(
        refusal_message(Request::Profile, "401", &long),
        format!("profile request failed with 401: {}...", "x".repeat(200))
    );
    assert_eq!(
        refusal_message(Request::Exchange, "400", ""),
        "oauth token exchange failed with 400: "
    );
    let odd = format!("{}\u{e4}{}", "x".repeat(199), "x".repeat(60));
    assert!(!can_show(Request::Profile, &odd));
    assert!(can_show(Request::Quota, &odd));
}

#[test]
fn random_texts() {
    let a = random_string(64);
    assert_eq!(a.len(), 64);
    assert!(a.chars().all(|c| c.is_ascii_alphanumeric()));
    assert_ne!(a, random_string(64));
    assert_eq!(random_string(0), "");
}

#[test]
fn challenges_are_those_of_the_standard() {
    assert_eq!(
        code_challenge("dBjftJeZ4CVP-mB92K27uhbUJU1p1r_wW1gFWFOEjXk"),
        "E9Melhoa2OwvFrEMTJguCHaoeK1t8URWbuGJSstw-cM"
    );
}

#[test]
fn authorize_links() {
    let url = build_authorize_url("st at", "ch").expect("a link");
    assert_eq!(
        url,
        "https://auth.openai.com/oauth/authorize?response_type=code\
         &client_id=app_EMoamEEZ73f0CkXaXp7hrann\
         &redirect_uri=http%3A%2F%2Flocalhost%3A1455%2Fauth%2Fcallback\
         &scope=openid+profile+email+offline_access&code_challenge=ch&code_challenge_method=S256\
         &state=st+at&id_token_add_organizations=true&codex_cli_simplified_flow=true\
         &originator=codex-account-switcher"
    );
    assert_eq!(authorize_pairs("s", "c").len(), 10);
    let session = begin_login_session().expect("a session");
    assert_eq!((session.verifier.len(), session.state.len()), (64, 32));
    let again = login_session(session.verifier.clone(), session.state.clone()).expect("a session");
    assert_eq!(again.auth_url, session.auth_url);
    assert!(session.auth_url.contains(&code_challenge(&session.verifier)));
}

#[test]
fn requests_are_taken_apart() {
    assert_eq!(request_path("GET /a?b HTTP/1.1\r\nHost: x").as_deref(), Ok("/a?b"));
    assert_eq!(request_path("  GET \t /a \n"), Ok("/a".to_string()));
    assert_eq!(request_path(""), Err(OauthError::EmptyRequest));
    assert_eq!(request_path("\r\nGET /a"), Err(OauthError::MalformedRequest));
    assert_eq!(request_path("GET"), Err(OauthError::MalformedRequest));
    for text in ["GET /x\r", "a b\rc\nd e", "\u{3000}a\u{3000}b\u{3000}", " ", "\n", "a\r\n"] {
        let expected = text
            .lines()
            .next()
            .and_then(|line| line.split_whitespace().nth(1))
            .map(str::to_string);
        assert_eq!(request_path(text).ok(), expected, "{text:?}");
    }
}

#[test]
fn callbacks_are_judged() {
    let read = |request: &str| read_callback(request.as_bytes(), "s 1");
    let code = read("GET /auth/callback?code=a%2Bb&state=s+1&code=z HTTP/1.1\r\n\r\n");
    assert_eq!(code, Ok("a+b".to_string()));
    assert_eq!(
        callback_reply(&code).expect("a reply"),
        respond(200, "Authentication successful. You can close this window.")
    );
    let code = read("GET /auth/callback?code=a&state=s2 HTTP/1.1");
    assert_eq!(code, Err(OauthError::StateMismatch));
    assert_eq!(
        callback_reply(&code).expect("a reply"),
        respond(400, "State mismatch. You can close this window.")
    );
    let code = read("GET /auth/callback?code=+&state=s%201 HTTP/1.1");
    assert_eq!(code, Err(OauthError::MissingCode));
    assert_eq!(
        callback_reply(&code).expect("a reply"),
        respond(400, "Missing authorization code. You can close this window.")
    );
    let code = read("GET :99999999/ HTTP/1.1");
    assert_eq!(code, Err(OauthError::BadCallbackUrl));
    assert!(callback_reply(&code).is_none());
    let bytes = [&b"GET /?code=\xff&state=s+1 x"[..]].concat();
    assert_eq!(read_callback(&bytes, "s 1"), Ok("\u{fffd}".to_string()));
    let params = vec![("state".to_string(), "s".to_string()), ("code".to_string(), "c".to_string())];
    assert_eq!(judge_callback(&params, "s"), Ok("c".to_string()));
    assert_eq!(judge_callback(&params, "t"), Err(OauthError::StateMismatch));
    assert_eq!(judge_callback(&vec![], ""), Err(OauthError::MissingCode));
}

#[test]
fn responses_are_complete() {
    assert_eq!(
        respond(200, "h\u{e4}"),
        "HTTP/1.1 200 OK\r\nContent-Type: text/html; charset=utf-8\r\nContent-Length: 3\r\n\
         Connection: close\r\n\r\nh\u{e4}"
    );
}

#[test]
fn waiting_ends_after_five_minutes() {
    assert_eq!(wait_for_callback(0), WaitStep::Sleep);
    assert_eq!(wait_for_callback(299_999), WaitStep::Sleep);
    assert_eq!(wait_for_callback(300_000), WaitStep::GiveUp);
    assert_eq!(OauthError::TimedOut.message(), "oauth login timed out");
    assert_eq!(OauthError::BadAuthorizeUrl.message(), "failed to build authorize URL");
}

fn tokens(access: String, refresh: &str, expires_in: i64) -> TokenResponse {
    TokenResponse { access_token: access, refresh_token: refresh.to_string(), expires_in }
}

#[test]
fn exchanges() {
    assert_eq!(
        exchange_pairs("c", "v"),
        vec![
            ("grant_type".to_string(), "authorization_code".to_string()),
            ("client_id".to_string(), OAUTH_CLIENT_ID.to_string()),
            ("code".to_string(), "c".to_string()),
            ("code_verifier".to_string(), "v".to_string()),
            ("redirect_uri".to_string(), "http://localhost:1455/auth/callback".to_string()),
        ]
    );
    assert_eq!(exchange_code(&tokens("a".to_string(), "r", 0)), Ok(()));
    assert_eq!(
        exchange_code(&tokens("a".to_string(), " ", 0)),
        Err(OauthError::IncompleteTokens)
    );
    assert_eq!(
        exchange_code(&tokens(String::new(), "r", 0)),
        Err(OauthError::IncompleteTokens)
    );
}

#[test]
fn logins_make_accounts() {
    let access = token(r#"{"sub":"acc","email":"claimed@x","exp":77}"#);
    let a = login_account(tokens(access.clone(), "r", 0), &MeResponse::default(), at(5, 0))
        .expect("an account");
    assert_eq!((a.label.as_str(), a.email.as_str()), ("claimed@x", "claimed@x"));
    assert_eq!((a.account_id.as_str(), a.client_id.as_str()), ("acc", OAUTH_CLIENT_ID));
    assert_eq!((a.access_token.as_str(), a.refresh_token.as_str()), (access.as_str(), "r"));
    assert_eq!(a.expires_at.expect("claimed").secs(), 77);
    assert!(a.managed && !a.codex_active);
    let mut store = ManagedStore::default();
    assert_eq!(upsert_managed_account(&mut store, &a), Ok(()));
    assert_eq!(store.accounts[0].account_id, "acc");
    let me = MeResponse { email: " ".to_string(), name: " N ".to_string() };
    let a = login_account(tokens(access.clone(), "r", 10), &me, at(5, 0)).expect("an account");
    assert_eq!((a.label.as_str(), a.email.as_str()), ("N", "claimed@x"));
    assert_eq!(a.expires_at.expect("own").secs(), 15);
    let me = MeResponse { email: " m@x ".to_string(), name: "N".to_string() };
    let a = login_account(tokens(access.clone(), "r", 10), &me, at(5, 0)).expect("an account");
    assert_eq!((a.label.as_str(), a.email.as_str()), ("m@x", "m@x"));
    let bare = token(r#"{"sub":"acc","cid":"c"}"#);
    let a = login_account(tokens(bare, "r", 0), &MeResponse::default(), at(5, 0)).expect("one");
    assert_eq!((a.label.as_str(), a.email.as_str(), a.client_id.as_str()), ("acc", "", "c"));
    let r = login_account(tokens("x".to_string(), "r", 0), &me, at(5, 0));
    assert_eq!(r.unwrap_err(), OauthError::MissingAccountId);
    assert!(checked_login_account(tokens(access, "r", i64::MAX), &me, at(5, 0)).is_none());
    let r = checked_login_account(tokens("x".to_string(), "r", i64::MAX), &me, at(5, 0));
    assert!(matches!(r, Some(Err(OauthError::MissingAccountId))));
}

#[test]
fn login_errors_are_named() {
    assert_eq!(OauthError::EmptyRequest.message(), "callback request was empty");
    assert_eq!(OauthError::MalformedRequest.message(), "callback request line was malformed");
    assert_eq!(OauthError::BadCallbackUrl.message(), "failed to parse callback URL");
    assert_eq!(OauthError::StateMismatch.message(), "oauth callback state mismatch");
    assert_eq!(OauthError::MissingCode.message(), "oauth callback missing code");
    assert_eq!(OauthError::IncompleteTokens.message(), "oauth token response was incomplete");
    assert_eq!(OauthError::MissingAccountId.message(), "failed to extract account_id from token");
}
