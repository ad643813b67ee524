//! What is asked of the service and what its replies do, whatever they say.
use vstd::prelude::*;

#[allow(unused_imports)]
use vstd::utf8::*;

#[allow(unused_imports)]
use crate::api::{
    ApiError, RateLimitStatus, RefreshResponse, StepView, UsageResponse, WindowSnapshot,
};
#[allow(unused_imports)]
use crate::claims::claims_of;
#[allow(unused_imports)]
use crate::codex_auth::{applied, cleared, codex_account};
#[allow(unused_imports)]
use crate::json::JsonTree;
#[allow(unused_imports)]
use crate::model::{AccountView, QuotaView, UsageView, WindowView};
#[allow(unused_imports)]
use crate::oauth::{callback_code, MeResponse, OauthError, TokenResponse};
#[allow(unused_imports)]
use crate::percent::percent;
#[allow(unused_imports)]
use crate::text::{is_blank, trimmed};

verus! {

/// A reported window keeps its length and the second of its reset; what is used and what is left of it
/// make up a hundred percent, to the precision of the numbers.
pub proof fn lemma_window_reported(snapshot: WindowSnapshot, k: nat)
    requires
        k <= 100,
    ensures
        ({
            let w = crate::api::mapped_window(snapshot);
            &&& w.window_sec == snapshot.limit_window_seconds
            &&& w.used_percent <= percent(100)
            &&& w.used_percent == percent(k) ==> w.left_percent == percent((100 - k) as nat)
            &&& w.used_percent >= percent(k) ==> w.left_percent <= percent((100 - k) as nat)
            &&& w.used_percent <= percent(k) ==> w.left_percent >= percent((100 - k) as nat)
            &&& crate::timestamp::MIN_SECS <= snapshot.reset_at <= crate::timestamp::MAX_SECS
                ==> w.reset_at == Some((snapshot.reset_at as int, 0int))
            &&& !crate::binary64::is_negative(snapshot.used_percent@)
                && crate::binary64::is_finite(snapshot.used_percent@) && crate::binary64::magnitude(
                snapshot.used_percent@,
            ) <= percent(100) ==> w.used_percent == crate::binary64::magnitude(
                snapshot.used_percent@,
            )
        }),
{
    crate::percent::lemma_clamped_range(snapshot.used_percent@);
    crate::percent::lemma_clamped(snapshot.used_percent@);
    crate::percent::lemma_left_is_the_rest(crate::percent::clamped(snapshot.used_percent@), k);
}

/// A number is read as itself where the type that is asked for holds it, and as nothing else; what was
/// set under a key is found there, and other keys keep what they had.
pub proof fn lemma_json_values(
    n: int,
    tree: JsonTree,
    key: Seq<char>,
    other: Seq<char>,
    value: JsonTree,
)
    ensures
        JsonTree::Integer(n).unsigned() matches Some(m) ==> m == n,
        JsonTree::Integer(n).signed() matches Some(m) ==> m == n,
        JsonTree::Integer(n).unsigned() is Some <==> 0 <= n < 0x1_0000_0000_0000_0000,
        JsonTree::Integer(n).signed() is Some <==> -0x8000_0000_0000_0000 <= n
            < 0x8000_0000_0000_0000,
        tree is Object ==> tree.with(key, value).member(key) == Some(value),
        tree.without(key).member(key) is None,
        other != key ==> tree.with(key, value).member(other) == tree.member(other),
        other != key ==> tree.without(key).member(other) == tree.member(other),
        tree !is Object ==> tree.member(key) is None && tree.member_text(key).len() == 0,
{
}

/// A reply with windows of five hours and of another length makes an account exhausted exactly where
/// all of one of them is used.
pub proof fn lemma_reply_exhausts(
    a: AccountView,
    payload: UsageResponse,
    primary: WindowSnapshot,
    secondary: WindowSnapshot,
)
    requires
        payload.rate_limit.primary_window == Some(primary),
        payload.rate_limit.secondary_window == Some(secondary),
        primary.limit_window_seconds == 18_000,
        secondary.limit_window_seconds != 18_000,
        a.quota == QuotaView::Ready(crate::api::reply_usage(payload)),
    ensures
        a.is_exhausted() <==> crate::percent::clamped(primary.used_percent@) == percent(100)
            || crate::percent::clamped(secondary.used_percent@) == percent(100),
        a.plan_type() == if is_blank(payload.plan_type@) {
            "Unknown"@
        } else {
            trimmed(payload.plan_type@)
        },
{
    let usage = crate::api::reply_usage(payload);
    let p = crate::api::mapped_window(primary);
    let s = crate::api::mapped_window(secondary);
    assert(usage.windows =~= seq![p, s]);
    crate::listing_laws::lemma_exhausted(a, usage, p, s);
    crate::api::lemma_window_spent(primary);
    crate::api::lemma_window_spent(secondary);
}

/// A reply has the windows that it reports, the primary one first; both are missing only where neither
/// is reported.
pub proof fn lemma_reply_windows(limits: RateLimitStatus)
    ensures
        ({
            let windows = crate::api::reply_windows(limits);
            &&& limits.primary_window matches Some(p) ==> windows.len() > 0 && windows[0]
                == crate::api::mapped_window(p)
            &&& limits.secondary_window matches Some(s) ==> windows.len() > 0 && windows.last()
                == crate::api::mapped_window(s)
            &&& windows.len() == 0 <==> limits.primary_window is None
                && limits.secondary_window is None
            &&& windows.len() == 2 <==> limits.primary_window is Some
                && limits.secondary_window is Some
        }),
{
}

/// The nanoseconds of a point in time.
pub open spec fn nanos_of(t: (int, int)) -> int {
    t.0 * 1_000_000_000 + t.1
}

/// Tokens have to be renewed exactly where at most five minutes are left until they expire.
pub proof fn lemma_expired(t: (int, int), now: (int, int))
    requires
        crate::timestamp::in_range(t.0, t.1),
        crate::timestamp::in_range(now.0, now.1),
        now.1 < 1_000_000_000,
    ensures
        crate::api::expired(Some(t), now) <==> nanos_of(t) - nanos_of(now) <= 5 * 60
            * 1_000_000_000,
        !crate::api::expired(None, now),
{
}

/// The expiry of an account is its own, and only without one that of its token.
pub proof fn lemma_expiry(a: AccountView)
    ensures
        a.expires_at is Some ==> crate::api::expiry_of(a) == a.expires_at,
        a.expires_at is None ==> crate::api::expiry_of(a) == claims_of(a.access_token).expires_at,
{
}

/// The client id with which tokens are renewed: that of the account, and without one that of its token.
pub open spec fn renewing_client(a: AccountView) -> Seq<char> {
    if is_blank(a.client_id) {
        trimmed(claims_of(a.access_token).client_id)
    } else {
        trimmed(a.client_id)
    }
}

/// A renewal sends the refresh token and the client id of the account. It fails without one of them.
pub proof fn lemma_renewal_asked(a: AccountView)
    ensures
        match crate::api::refresh_asked(a) {
            Ok(request) => request.grant_type == "refresh_token"@ && request.refresh_token
                == trimmed(a.refresh_token) && request.client_id == renewing_client(a)
                && !is_blank(a.refresh_token) && renewing_client(a).len() > 0,
            Err(error) => (error == ApiError::MissingRefreshToken && is_blank(a.refresh_token)) || (
            error == ApiError::MissingClientId && !is_blank(a.refresh_token) && renewing_client(
                a,
            ).len() == 0),
        },
{
    crate::text::lemma_trimmed_idempotent(a.client_id);
    crate::text::lemma_trimmed_idempotent(claims_of(a.access_token).client_id);
}

/// A renewed account has the tokens of the reply; it keeps its refresh token where the reply has none.
/// It expires when the reply says, and its names, its quota and its marks stay.
pub proof fn lemma_renewed(
    a: AccountView,
    client_id: Seq<char>,
    payload: RefreshResponse,
    now: (int, int),
)
    ensures
        ({
            let r = crate::api::renewed(a, client_id, payload, now);
            let claims = claims_of(payload.access_token@);
            &&& r.access_token == payload.access_token@
            &&& !is_blank(payload.refresh_token@) ==> r.refresh_token == payload.refresh_token@
            &&& is_blank(payload.refresh_token@) ==> r.refresh_token == a.refresh_token
            &&& payload.expires_in > 0 ==> (r.expires_at matches Some(t) && nanos_of(t) - nanos_of(
                now,
            ) == payload.expires_in * 1_000_000_000)
            &&& payload.expires_in <= 0 ==> r.expires_at == claims.expires_at
            &&& is_blank(claims.account_id) ==> r.account_id == a.account_id
            &&& !is_blank(claims.account_id) ==> r.account_id == crate::identity::canonical(
                seq![a.account_id, claims.account_id],
            )
            &&& !is_blank(claims.client_id) ==> r.client_id == claims.client_id
            &&& is_blank(claims.client_id) ==> r.client_id == client_id
            &&& r.label == a.label
            &&& r.email == a.email
            &&& r.managed == a.managed
            &&& r.codex_active == a.codex_active
            &&& r.quota == a.quota
        }),
{
}

/// Quota is asked for with the access token of the account, and in the name of its id where it has one.
pub proof fn lemma_headers(a: AccountView)
    ensures
        crate::api::headers_of(a).authorization == "Bearer "@ + a.access_token,
        !is_blank(a.account_id) ==> crate::api::headers_of(a).account_id == Some(
            trimmed(a.account_id),
        ),
        is_blank(a.account_id) ==> crate::api::headers_of(a).account_id is None,
        crate::api::headers_of(a).accept == "application/json"@,
        crate::api::headers_of(a).user_agent == "cas-tui"@,
{
}

/// The service is asked at once with tokens that are good for more than five minutes; others are renewed
/// first, and where they cannot be, nothing is asked.
pub proof fn lemma_first_step(a: AccountView, t: (int, int), now: (int, int))
    requires
        crate::timestamp::in_range(t.0, t.1),
        crate::timestamp::in_range(now.0, now.1),
        now.1 < 1_000_000_000,
    ensures
        nanos_of(t) - nanos_of(now) > 5 * 60 * 1_000_000_000 ==> crate::api::first_step(
            a,
            Some(t),
            now,
        ) == StepView::Query(crate::api::headers_of(a)),
        nanos_of(t) - nanos_of(now) <= 5 * 60 * 1_000_000_000 ==> match crate::api::first_step(
            a,
            Some(t),
            now,
        ) {
            StepView::Refresh(request) => crate::api::refresh_asked(a) == Ok::<
                crate::api::RefreshView,
                ApiError,
            >(request),
            StepView::Fail(error) => crate::api::refresh_asked(a) == Err::<
                crate::api::RefreshView,
                ApiError,
            >(error),
            StepView::Query(_) => false,
        },
        crate::api::first_step(a, None, now) == StepView::Query(crate::api::headers_of(a)),
{
    lemma_expired(t, now);
}

/// The value of the first parameter with a key is found, whatever comes before and behind it.
pub proof fn lemma_value_found(
    before: Seq<(Seq<char>, Seq<char>)>,
    key: Seq<char>,
    value: Seq<char>,
    after: Seq<(Seq<char>, Seq<char>)>,
)
    requires
        forall|i: int| 0 <= i < before.len() ==> (#[trigger] before[i]).0 != key,
    ensures
        crate::oauth::value_of(before.push((key, value)) + after, key) == value,
    decreases before.len(),
{
    let all = before.push((key, value)) + after;
    if before.len() > 0 {
        assert(all[0] == before[0]);
        let rest = before.drop_first();
        assert(all.drop_first() =~= rest.push((key, value)) + after);
        assert forall|i: int| 0 <= i < rest.len() implies (#[trigger] rest[i]).0 != key by {
            assert(rest[i] == before[i + 1]);
        }
        lemma_value_found(rest, key, value, after);
    } else {
        assert(all[0] == (key, value));
    }
}

/// A parameter that is missing counts as empty.
pub proof fn lemma_value_missing(params: Seq<(Seq<char>, Seq<char>)>, key: Seq<char>)
    requires
        forall|i: int| 0 <= i < params.len() ==> (#[trigger] params[i]).0 != key,
    ensures
        crate::oauth::value_of(params, key).len() == 0,
    decreases params.len(),
{
    if params.len() > 0 {
        let rest = params.drop_first();
        assert(params[0].0 != key);
        assert forall|i: int| 0 <= i < rest.len() implies (#[trigger] rest[i]).0 != key by {
            assert(rest[i] == params[i + 1]);
        }
        lemma_value_missing(rest, key);
    }
}

/// A callback brings its code exactly where it carries the state of the login and a code that is not
/// blank.
pub proof fn lemma_callback(params: Seq<(Seq<char>, Seq<char>)>, expected: Seq<char>)
    ensures
        ({
            let state = crate::oauth::value_of(params, "state"@);
            let code = crate::oauth::value_of(params, "code"@);
            match callback_code(params, expected) {
                Ok(found) => found == code && state == expected && !is_blank(code),
                Err(error) => (error == OauthError::StateMismatch && state != expected) || (error
                    == OauthError::MissingCode && state == expected && is_blank(code)),
            }
        }),
{
}

/// The link of a login carries its state and its challenge, and names this program and where to call
/// back.
pub proof fn lemma_authorize_params(state: Seq<char>, challenge: Seq<char>)
    ensures
        ({
            let params = crate::oauth::authorize_params(state, challenge);
            &&& params.contains(("state"@, state))
            &&& params.contains(("code_challenge"@, challenge))
            &&& params.contains(("code_challenge_method"@, "S256"@))
            &&& params.contains(("response_type"@, "code"@))
            &&& params.contains(("client_id"@, crate::oauth::OAUTH_CLIENT_ID@))
            &&& params.contains(("redirect_uri"@, crate::oauth::REDIRECT_URI@))
            &&& params.contains(("scope"@, crate::oauth::OAUTH_SCOPE@))
        }),
{
    let params = crate::oauth::authorize_params(state, challenge);
    assert(params[6] == ("state"@, state));
    assert(params[4] == ("code_challenge"@, challenge));
    assert(params[5] == ("code_challenge_method"@, "S256"@));
    assert(params[0] == ("response_type"@, "code"@));
    assert(params[1] == ("client_id"@, crate::oauth::OAUTH_CLIENT_ID@));
    assert(params[2] == ("redirect_uri"@, crate::oauth::REDIRECT_URI@));
    assert(params[3] == ("scope"@, crate::oauth::OAUTH_SCOPE@));
}

/// The exchange sends the code of the callback with the verifier of the login, in the name of this
/// program and of the same address.
pub proof fn lemma_exchange_params(code: Seq<char>, verifier: Seq<char>)
    ensures
        ({
            let params = crate::oauth::exchange_params(code, verifier);
            &&& params.contains(("code"@, code))
            &&& params.contains(("code_verifier"@, verifier))
            &&& params.contains(("grant_type"@, "authorization_code"@))
            &&& params.contains(("client_id"@, crate::oauth::OAUTH_CLIENT_ID@))
            &&& params.contains(("redirect_uri"@, crate::oauth::REDIRECT_URI@))
        }),
{
    let params = crate::oauth::exchange_params(code, verifier);
    assert(params[2] == ("code"@, code));
    assert(params[3] == ("code_verifier"@, verifier));
    assert(params[0] == ("grant_type"@, "authorization_code"@));
    assert(params[1] == ("client_id"@, crate::oauth::OAUTH_CLIENT_ID@));
    assert(params[4] == ("redirect_uri"@, crate::oauth::REDIRECT_URI@));
}

/// The challenge in the link is that of the verifier which the exchange sends: the base64 text of its
/// digest.
pub proof fn lemma_challenge(verifier: Seq<char>)
    ensures
        crate::oauth::challenge_of(verifier) == crate::encoding::base64_encoded(
            crate::encoding::sha256_digest(encode_utf8(verifier)),
        ),
{
}

/// The account that logged in has the tokens of the reply and the id of its token; its email is that of
/// the profile, and without one that of the token. It expires when the reply says.
pub proof fn lemma_login(token: TokenResponse, me: MeResponse, now: (int, int))
    ensures
        ({
            let a = crate::oauth::login_record(token, me, now);
            let claims = claims_of(token.access_token@);
            &&& a.access_token == token.access_token@
            &&& a.refresh_token == token.refresh_token@
            &&& a.account_id == trimmed(claims.account_id)
            &&& !is_blank(me.email@) ==> a.email == trimmed(me.email@) && a.label == trimmed(
                me.email@,
            )
            &&& is_blank(me.email@) ==> a.email == claims.email
            &&& is_blank(me.email@) && !is_blank(me.name@) ==> a.label == trimmed(me.name@)
            &&& is_blank(me.email@) && is_blank(me.name@) && !is_blank(claims.email) ==> a.label
                == claims.email
            &&& is_blank(me.email@) && is_blank(me.name@) && is_blank(claims.email) ==> a.label
                == a.account_id
            &&& token.expires_in > 0 ==> (a.expires_at matches Some(t) && nanos_of(t) - nanos_of(now)
                == token.expires_in * 1_000_000_000)
            &&& token.expires_in <= 0 ==> a.expires_at == claims.expires_at
            &&& !is_blank(claims.client_id) ==> a.client_id == claims.client_id
            &&& is_blank(claims.client_id) ==> a.client_id == crate::oauth::OAUTH_CLIENT_ID@
            &&& a.managed
            &&& !a.codex_active
            &&& a.quota is Idle
        }),
{
    crate::identity::lemma_canonical_single(claims_of(token.access_token@).account_id);
}

/// A text without white space.
pub open spec fn is_word(s: Seq<char>) -> bool {
    s.len() > 0 && forall|i: int| 0 <= i < s.len() ==> !crate::text::is_space(#[trigger] s[i])
}

proof fn lemma_word_len(word: Seq<char>, rest: Seq<char>)
    requires
        forall|i: int| 0 <= i < word.len() ==> !crate::text::is_space(#[trigger] word[i]),
        rest.len() == 0 || crate::text::is_space(rest[0]),
    ensures
        crate::oauth::word_len(word + rest) == word.len(),
    decreases word.len(),
{
    let all = word + rest;
    if word.len() > 0 {
        assert(all[0] == word[0]);
        assert(all.drop_first() =~= word.drop_first() + rest);
        assert forall|i: int| 0 <= i < word.drop_first().len() implies !crate::text::is_space(
            #[trigger] word.drop_first()[i],
        ) by {
            assert(word.drop_first()[i] == word[i + 1]);
        }
        lemma_word_len(word.drop_first(), rest);
    } else {
        assert(all =~= rest);
    }
}

proof fn lemma_first_index(before: Seq<char>, c: char, after: Seq<char>)
    requires
        forall|i: int| 0 <= i < before.len() ==> #[trigger] before[i] != c,
    ensures
        crate::text::first_index(before.push(c) + after, c) == before.len(),
    decreases before.len(),
{
    let all = before.push(c) + after;
    if before.len() > 0 {
        assert(all[0] == before[0]);
        assert(all.drop_first() =~= before.drop_first().push(c) + after);
        assert forall|i: int| 0 <= i < before.drop_first().len() implies #[trigger] before.drop_first()[i]
            != c by {
            assert(before.drop_first()[i] == before[i + 1]);
        }
        lemma_first_index(before.drop_first(), c, after);
    } else {
        assert(all[0] == c);
    }
}

/// A request for a path is read as one, whatever its method, its version and the lines that follow.
pub proof fn lemma_requested_path(
    method: Seq<char>,
    path: Seq<char>,
    version: Seq<char>,
    rest: Seq<char>,
)
    requires
        is_word(method),
        is_word(path),
        is_word(version),
    ensures
        crate::oauth::requested_path(
            method + seq![' '] + path + seq![' '] + version + seq!['\r', '\n'] + rest,
        ) == Ok::<Seq<char>, OauthError>(path),
{
    let line = method + seq![' '] + path + seq![' '] + version;
    let all = method + seq![' '] + path + seq![' '] + version + seq!['\r', '\n'] + rest;
    let head = line.push('\r');
    assert(all =~= head.push('\n') + rest);
    assert forall|i: int| 0 <= i < head.len() implies #[trigger] head[i] != '\n' by {
        if i < method.len() {
            assert(head[i] == method[i]);
        } else if method.len() < i < method.len() + 1 + path.len() {
            assert(head[i] == path[i - method.len() - 1]);
        } else if method.len() + path.len() + 2 <= i < line.len() {
            assert(head[i] == version[i - method.len() - path.len() - 2]);
        }
    }
    lemma_first_index(head, '\n', rest);
    assert(all.take(head.len() - 1) =~= line);
    assert(all[head.len() - 1] == '\r');
    assert(crate::oauth::first_line(all) == Some(line));
    let tail = seq![' '] + path + seq![' '] + version;
    let second = path + (seq![' '] + version);
    assert(line =~= method + tail);
    assert(line[0] == method[0]);
    assert(crate::text::trim_start(line) == line);
    lemma_word_len(method, tail);
    assert(line.skip(method.len() as int) =~= tail);
    assert(tail.drop_first() =~= second);
    assert(second[0] == path[0]);
    reveal_with_fuel(crate::text::trim_start, 2);
    assert(crate::text::trim_start(tail) == second);
    lemma_word_len(path, seq![' '] + version);
    assert(second.take(path.len() as int) =~= path);
}

/// The answer to the browser carries the body whole, tells its length in bytes, and has the status: a
/// callback that brings a code is answered with success, a refused one with an error.
pub proof fn lemma_callback_response(params: Seq<(Seq<char>, Seq<char>)>, expected: Seq<char>)
    ensures
        ({
            let reply = crate::oauth::callback_response(callback_code(params, expected));
            &&& reply is Some
            &&& callback_code(params, expected) is Ok ==> crate::text::begins_with(
                reply->0,
                "HTTP/1.1 "@ + crate::text::decimal(200),
            )
            &&& callback_code(params, expected) is Err ==> crate::text::begins_with(
                reply->0,
                "HTTP/1.1 "@ + crate::text::decimal(400),
            )
        }),
{
    let reply = crate::oauth::callback_response(callback_code(params, expected));
    let status: nat = if callback_code(params, expected) is Ok {
        200
    } else {
        400
    };
    let start = "HTTP/1.1 "@ + crate::text::decimal(status);
    assert(reply->0.take(start.len() as int) =~= start);
}

/// A response ends with its body behind an empty line, and tells how many bytes the body has.
pub proof fn lemma_http_response(status: nat, body: Seq<char>)
    ensures
        ({
            let r = crate::oauth::http_response(status, body);
            &&& r.skip(r.len() - body.len()) == body
            &&& crate::text::holds(
                r,
                "Content-Length: "@ + crate::text::decimal(encode_utf8(body).len())
                    + "\r\nConnection: close\r\n\r\n"@,
            )
        }),
{
    let r = crate::oauth::http_response(status, body);
    assert(r.skip(r.len() - body.len()) =~= body);
    reveal_strlit("Content-Length: ");
    reveal_strlit(" OK\r\nContent-Type: text/html; charset=utf-8\r\nContent-Length: ");
    let head = " OK\r\nContent-Type: text/html; charset=utf-8\r\nContent-Length: "@;
    let name = "Content-Length: "@;
    assert(head.skip(head.len() - name.len()) =~= name);
    let part = name + crate::text::decimal(encode_utf8(body).len())
        + "\r\nConnection: close\r\n\r\n"@;
    let at = ("HTTP/1.1 "@ + crate::text::decimal(status)).len() + head.len() - name.len();
    assert(r.subrange(at, at + part.len()) =~= part);
}

/// A token of three parts between dots has its claims in the second.
pub proof fn lemma_payload_part(head: Seq<char>, payload: Seq<char>, rest: Seq<char>)
    requires
        head.len() > 0,
        rest.len() > 0,
        !crate::text::is_space(head[0]),
        !crate::text::is_space(rest.last()),
        forall|i: int| 0 <= i < head.len() ==> #[trigger] head[i] != '.',
        forall|i: int| 0 <= i < payload.len() ==> #[trigger] payload[i] != '.',
    ensures
        crate::claims::payload_part(head + seq!['.'] + payload + seq!['.'] + rest) == Some(payload),
{
    let token = head + seq!['.'] + payload + seq!['.'] + rest;
    assert(token[0] == head[0]);
    assert(token.last() == rest.last());
    assert(crate::text::is_trimmed(token));
    crate::text::lemma_trimmed_fixed(token);
    let tail = payload.push('.') + rest;
    assert(token =~= head.push('.') + tail);
    lemma_first_index(head, '.', tail);
    assert(token.skip(head.len() as int + 1) =~= tail);
    lemma_first_index(payload, '.', rest);
    assert(tail.take(payload.len() as int) =~= payload);
}

/// The claims are those at their own keys of the payload: the email, the expiry, the first client id
/// that is there, and the id of the account under the key of the authentication service.
pub proof fn lemma_claims(payload: JsonTree, email: Seq<char>, id: Seq<char>, client: Seq<char>, secs: int)
    ensures
        ({
            let c = crate::claims::payload_claims(payload);
            let auth = payload.member("https://api.openai.com/auth"@);
            &&& payload.member("email"@) == Some(JsonTree::Text(email)) ==> c.email == trimmed(email)
            &&& payload.member("client_id"@) == Some(JsonTree::Text(client)) && !is_blank(client)
                ==> c.client_id == trimmed(client)
            &&& payload.member("exp"@) == Some(JsonTree::Integer(secs))
                && crate::timestamp::MIN_SECS <= secs <= crate::timestamp::MAX_SECS ==> c.expires_at
                == Some((secs, 0int))
            &&& payload.member("exp"@) is None ==> c.expires_at is None
            &&& auth == Some(JsonTree::Text(id)) && crate::identity::uuid_like(trimmed(id))
                ==> c.account_id == trimmed(id)
            &&& (auth matches Some(JsonTree::Object(members)) && members.contains_key(
                "chatgpt_account_id"@,
            ) && members["chatgpt_account_id"@] == JsonTree::Text(id))
                && crate::identity::uuid_like(trimmed(id)) ==> c.account_id == trimmed(id)
        }),
{
    let clients = seq![
        payload.member_text("client_id"@),
        payload.member_text("cid"@),
        payload.member_text("clientId"@),
    ];
    assert(clients[0] == payload.member_text("client_id"@));
    crate::text::lemma_trimmed_idempotent(id);
}

/// Without a claim of the authentication service, the id is that of the account, or of the subject.
pub proof fn lemma_claimed_id(payload: JsonTree, id: Seq<char>)
    requires
        payload.member("https://api.openai.com/auth"@) is None,
        !is_blank(id),
    ensures
        payload.member("account_id"@) == Some(JsonTree::Text(id)) && payload.member("sub"@) is None
            ==> crate::claims::payload_claims(payload).account_id == trimmed(id),
        payload.member("account_id"@) is None && payload.member("sub"@) == Some(JsonTree::Text(id))
            ==> crate::claims::payload_claims(payload).account_id == trimmed(id),
{
    let none = Seq::<char>::empty();
    let a = payload.member_text("account_id"@);
    let b = payload.member_text("sub"@);
    let ids = seq![none, a, b];
    assert(crate::text::trimmed(none) =~= none);
    reveal_with_fuel(crate::identity::first_uuid, 4);
    reveal_with_fuel(crate::identity::first_non_blank, 4);
    assert(ids.drop_first() =~= seq![a, b]);
    assert(seq![a, b].drop_first() =~= seq![b]);
    assert(seq![b].drop_first() =~= Seq::empty());
    crate::text::lemma_trimmed_idempotent(id);
}

/// A member of the tokens in an authentication file.
pub open spec fn token_member(root: JsonTree, key: Seq<char>) -> Option<JsonTree> {
    match root.member("tokens"@) {
        Some(tokens) => tokens.member(key),
        None => None,
    }
}

/// Applying an account writes its access token, also as the id token, and its refresh token and id
/// where it has them; the file then says when that was.
pub proof fn lemma_applied_members(root: JsonTree, account: AccountView, now: (int, int))
    requires
        root is Object,
    ensures
        ({
            let file = applied(root, account, now);
            &&& token_member(file, "access_token"@) == Some(JsonTree::Text(account.access_token))
            &&& token_member(file, "id_token"@) == Some(JsonTree::Text(account.access_token))
            &&& !is_blank(account.refresh_token) ==> token_member(file, "refresh_token"@) == Some(
                JsonTree::Text(account.refresh_token),
            )
            &&& !is_blank(account.account_id) ==> token_member(file, "account_id"@) == Some(
                JsonTree::Text(account.account_id),
            )
            &&& file.member("last_refresh"@) == Some(
                JsonTree::Text(crate::timestamp::rfc3339_text(now.0, now.1)),
            )
        }),
{
    reveal_strlit("tokens");
    reveal_strlit("last_refresh");
    reveal_strlit("access_token");
    reveal_strlit("id_token");
    reveal_strlit("refresh_token");
    reveal_strlit("account_id");
    assert("tokens"@.len() == 6 && "last_refresh"@.len() == 12 && "access_token"@.len() == 12);
    assert("id_token"@.len() == 8 && "refresh_token"@.len() == 13 && "account_id"@.len() == 10);
}

/// The active account is read from the tokens of the file: its access token, its refresh token and its
/// id, each from the key of that name.
pub proof fn lemma_file_account(
    root: JsonTree,
    access: Seq<char>,
    refresh: Seq<char>,
    id: Seq<char>,
)
    requires
        token_member(root, "access_token"@) == Some(JsonTree::Text(access)),
        token_member(root, "refresh_token"@) == Some(JsonTree::Text(refresh)),
        token_member(root, "account_id"@) == Some(JsonTree::Text(id)),
    ensures
        is_blank(access) ==> codex_account(root) is None,
        !is_blank(access) ==> (codex_account(root) matches Some(a) && a.access_token == trimmed(
            access,
        ) && a.refresh_token == trimmed(refresh) && a.codex_active && !a.managed),
        !is_blank(access) && crate::identity::uuid_like(trimmed(id)) ==> codex_account(
            root,
        )->0.account_id == trimmed(id),
        !is_blank(access) && !is_blank(id) && is_blank(claims_of(trimmed(access)).account_id)
            ==> codex_account(root)->0.account_id == trimmed(id),
{
    crate::identity::lemma_canonical_pair(id, claims_of(trimmed(access)).account_id);
    let b = claims_of(trimmed(access)).account_id;
    if is_blank(b) {
        assert(trimmed(b) =~= Seq::empty());
    }
}

/// Clearing takes the access token, the refresh token and the account id out of the tokens, and nothing
/// else.
pub proof fn lemma_cleared_members(root: JsonTree, key: Seq<char>)
    requires
        root is Object,
        root.member("tokens"@) is Some,
        root.member("tokens"@)->0 is Object,
    ensures
        token_member(cleared(root), "access_token"@) is None,
        token_member(cleared(root), "refresh_token"@) is None,
        token_member(cleared(root), "account_id"@) is None,
        key != "access_token"@ && key != "refresh_token"@ && key != "account_id"@ ==> token_member(
            cleared(root),
            key,
        ) == token_member(root, key),
{
}

/// The files that are carried over: those that only the old directory has.
pub proof fn lemma_carried_files(files: Seq<crate::settings::LegacyFile>, i: int)
    requires
        0 <= i < files.len(),
    ensures
        crate::settings::carried_files(files).contains(i) <==> files[i].in_legacy
            && !files[i].in_target,
        forall|p: int|
            0 <= p < crate::settings::carried_files(files).len() ==> 0
                <= #[trigger] crate::settings::carried_files(files)[p] < files.len(),
    decreases files.len(),
{
    let all = crate::settings::carried_files(files);
    let front = files.drop_last();
    let part = crate::settings::carried_files(front);
    if i < front.len() {
        lemma_carried_files(front, i);
        assert(front[i] == files[i]);
    } else if front.len() > 0 {
        lemma_carried_files(front, 0);
    }
    if part.contains(i) {
        let p = choose|p: int| 0 <= p < part.len() && part[p] == i;
        assert(all[p] == i);
    }
    if all.contains(i) && i < front.len() {
        let p = choose|p: int| 0 <= p < all.len() && all[p] == i;
        assert(part[p] == i);
    }
    if i == files.len() - 1 && files[i].in_legacy && !files[i].in_target {
        assert(all[part.len() as int] == i);
    }
}

/// Colours of 24 bits are used where they are forced, or where the terminal names them.
pub proof fn lemma_true_color(
    force: Option<Seq<char>>,
    colorterm: Option<Seq<char>>,
    term: Option<Seq<char>>,
    before: Seq<char>,
    after: Seq<char>,
)
    ensures
        force == Some("1"@) ==> crate::settings::true_color(force, colorterm, term),
        colorterm matches Some(c) ==> (crate::text::ascii_lowercase(c) == before + "truecolor"@
            + after ==> crate::settings::true_color(force, colorterm, term)),
        colorterm matches Some(c) ==> (crate::text::ascii_lowercase(c) == before + "24bit"@ + after
            ==> crate::settings::true_color(force, colorterm, term)),
        term matches Some(t) ==> (crate::text::ascii_lowercase(t) == before + "direct"@ + after
            ==> crate::settings::true_color(force, colorterm, term)),
        force is None && colorterm is None && term is None ==> !crate::settings::true_color(
            force,
            colorterm,
            term,
        ),
{
    reveal_strlit("1");
    reveal_strlit("truecolor");
    reveal_strlit("24bit");
    reveal_strlit("direct");
    assert(crate::text::is_trimmed("1"@));
    crate::text::lemma_trimmed_fixed("1"@);
    assert(crate::text::ascii_lowercase("1"@) =~= "1"@);
    let i = before.len() as int;
    let a = before + "truecolor"@ + after;
    let b = before + "24bit"@ + after;
    let c = before + "direct"@ + after;
    assert(a.subrange(i, i + "truecolor"@.len()) =~= "truecolor"@);
    assert(b.subrange(i, i + "24bit"@.len()) =~= "24bit"@);
    assert(c.subrange(i, i + "direct"@.len()) =~= "direct"@);
    assert(crate::text::ascii_lowercase(Seq::empty()) =~= Seq::empty());
}

/// Bytes are an authentication file exactly where they are a JSON object; a missing file counts as an
/// empty one.
pub proof fn lemma_auth_file(bytes: Seq<u8>, tree: JsonTree)
    ensures
        crate::json::json_document(bytes) is None ==> crate::codex_auth::auth_document(bytes)
            == Err::<JsonTree, crate::codex_auth::AuthFileError>(
            crate::codex_auth::AuthFileError::Undecodable,
        ),
        crate::json::json_document(bytes) == Some(tree) && tree is Object
            ==> crate::codex_auth::auth_document(bytes) == Ok::<
            JsonTree,
            crate::codex_auth::AuthFileError,
        >(tree),
        crate::json::json_document(bytes) == Some(tree) && !(tree is Object)
            ==> crate::codex_auth::auth_document(bytes) == Err::<
            JsonTree,
            crate::codex_auth::AuthFileError,
        >(crate::codex_auth::AuthFileError::NotAnObject),
        crate::codex_auth::file_root(None) == Ok::<JsonTree, crate::codex_auth::AuthFileError>(
            JsonTree::Object(Map::empty()),
        ),
        codex_account(JsonTree::Object(Map::empty())) is None,
{
}

/// A client id may stand under three keys; the first of them that has one counts.
pub proof fn lemma_claimed_client(payload: JsonTree, client: Seq<char>)
    requires
        !is_blank(client),
        payload.member("client_id"@) is None,
    ensures
        payload.member("cid"@) == Some(JsonTree::Text(client))
            ==> crate::claims::payload_claims(payload).client_id == trimmed(client),
        payload.member("cid"@) is None && payload.member("clientId"@) == Some(JsonTree::Text(client))
            ==> crate::claims::payload_claims(payload).client_id == trimmed(client),
{
    let all = seq![
        payload.member_text("client_id"@),
        payload.member_text("cid"@),
        payload.member_text("clientId"@),
    ];
    assert(trimmed(Seq::empty()) =~= Seq::empty());
    if payload.member("cid"@) == Some(JsonTree::Text(client)) {
        crate::text_laws::lemma_first_text(all, 1);
    }
    if payload.member("cid"@) is None && payload.member("clientId"@) == Some(
        JsonTree::Text(client),
    ) {
        crate::text_laws::lemma_first_text(all, 2);
    }
}

/// Among the ids that a token claims, that of the authentication service comes before that of the
/// account, and that before the subject; but one that is like a UUID comes before any that is not.
pub proof fn lemma_claimed_ids(payload: JsonTree, auth: Seq<char>, own: Seq<char>, sub: Seq<char>)
    requires
        payload.member("https://api.openai.com/auth"@) == Some(JsonTree::Text(auth)),
        payload.member("account_id"@) == Some(JsonTree::Text(own)),
        payload.member("sub"@) == Some(JsonTree::Text(sub)),
    ensures
        ({
            let id = crate::claims::payload_claims(payload).account_id;
            let uuid = |s: Seq<char>| crate::identity::uuid_like(trimmed(s));
            &&& uuid(auth) ==> id == trimmed(auth)
            &&& !uuid(auth) && uuid(own) ==> id == trimmed(own)
            &&& !uuid(auth) && !uuid(own) && uuid(sub) ==> id == trimmed(sub)
            &&& !uuid(auth) && !uuid(own) && !uuid(sub) && !is_blank(auth) ==> id == trimmed(auth)
            &&& !uuid(own) && !uuid(sub) && is_blank(auth) && !is_blank(own) && !uuid(auth) ==> id
                == trimmed(own)
            &&& !uuid(own) && !uuid(sub) && is_blank(auth) && is_blank(own) && !is_blank(sub)
                && !uuid(auth) ==> id == trimmed(sub)
        }),
{
    let ids = seq![trimmed(auth), own, sub];
    crate::text::lemma_trimmed_idempotent(auth);
    assert(crate::claims::auth_account_id(payload) == trimmed(auth));
    crate::text_laws::lemma_canonical_of(ids, 0);
    crate::text_laws::lemma_canonical_of(ids, 1);
    crate::text_laws::lemma_canonical_of(ids, 2);
}

/// A token whose payload cannot be read claims nothing.
pub proof fn lemma_no_claims(token: Seq<char>)
    requires
        crate::claims::payload_part(token) is None || crate::encoding::base64_decoded(
            crate::claims::payload_part(token)->0,
        ) is None || crate::json::json_document(
            crate::encoding::base64_decoded(crate::claims::payload_part(token)->0)->0,
        ) is None,
    ensures
        claims_of(token).account_id.len() == 0,
        claims_of(token).email.len() == 0,
        claims_of(token).client_id.len() == 0,
        claims_of(token).expires_at is None,
{
}

/// The claims of a token are those of the JSON that its payload encodes.
pub proof fn lemma_token_claims(token: Seq<char>, part: Seq<char>, bytes: Seq<u8>, payload: JsonTree)
    requires
        crate::claims::payload_part(token) == Some(part),
        crate::encoding::base64_decoded(part) == Some(bytes),
        crate::json::json_document(bytes) == Some(payload),
    ensures
        claims_of(token) == crate::claims::payload_claims(payload),
{
}

} // verus!
