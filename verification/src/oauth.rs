//! The login flow: the link that is opened, the callback that answers it, and the account that
//! comes out of it.
use vstd::prelude::*;
use vstd::string::*;

#[allow(unused_imports)]
use vstd::utf8::*;

use crate::claims::parse_access_token;
use crate::encoding::{encode_base64, sha256};
use crate::identity::canonical_account_id;
use crate::model::{AccountRecord, QuotaState};
use crate::text::{
    blank, chars_of, find_char, is_whitespace, push_decimal, same_text, text_between, trim_text,
};
use crate::timestamp::Timestamp;

#[allow(unused_imports)]
use crate::model::{AccountView, QuotaView};

verus! {

pub const OAUTH_CLIENT_ID: &'static str = "app_EMoamEEZ73f0CkXaXp7hrann";

pub const AUTHORIZE_URL: &'static str = "https://auth.openai.com/oauth/authorize";

pub const OAUTH_TOKEN_URL: &'static str = "https://auth.openai.com/oauth/token";

pub const OAUTH_SCOPE: &'static str = "openid profile email offline_access";

pub const REDIRECT_URI: &'static str = "http://localhost:1455/auth/callback";

pub const CALLBACK_ADDRESS: &'static str = "127.0.0.1:1455";

/// Where the profile of an account is asked for.
pub const PROFILE_URL: &'static str = "https://api.openai.com/v1/me";

/// What can go wrong in the login flow.
#[derive(Clone, Copy, Debug, PartialEq, Eq, Structural)]
pub enum OauthError {
    BadAuthorizeUrl,
    EmptyRequest,
    MalformedRequest,
    BadCallbackUrl,
    StateMismatch,
    MissingCode,
    TimedOut,
    IncompleteTokens,
    MissingAccountId,
}

impl OauthError {
    pub open spec fn text(self) -> Seq<char> {
        match self {
            OauthError::BadAuthorizeUrl => "failed to build authorize URL"@,
            OauthError::EmptyRequest => "callback request was empty"@,
            OauthError::MalformedRequest => "callback request line was malformed"@,
            OauthError::BadCallbackUrl => "failed to parse callback URL"@,
            OauthError::StateMismatch => "oauth callback state mismatch"@,
            OauthError::MissingCode => "oauth callback missing code"@,
            OauthError::TimedOut => "oauth login timed out"@,
            OauthError::IncompleteTokens => "oauth token response was incomplete"@,
            OauthError::MissingAccountId => "failed to extract account_id from token"@,
        }
    }

    pub fn message(self) -> (r: &'static str)
        ensures
            r@ == self.text(),
    {
        match self {
            OauthError::BadAuthorizeUrl => "failed to build authorize URL",
            OauthError::EmptyRequest => "callback request was empty",
            OauthError::MalformedRequest => "callback request line was malformed",
            OauthError::BadCallbackUrl => "failed to parse callback URL",
            OauthError::StateMismatch => "oauth callback state mismatch",
            OauthError::MissingCode => "oauth callback missing code",
            OauthError::TimedOut => "oauth login timed out",
            OauthError::IncompleteTokens => "oauth token response was incomplete",
            OauthError::MissingAccountId => "failed to extract account_id from token",
        }
    }
}

/// A letter or digit of ASCII.
pub open spec fn is_alphanumeric(c: char) -> bool {
    'A' <= c <= 'Z' || 'a' <= c <= 'z' || '0' <= c <= '9'
}

/// A text of `n` letters and digits.
pub open spec fn is_random_text(s: Seq<char>, n: nat) -> bool {
    s.len() == n && forall|i: int| 0 <= i < s.len() ==> is_alphanumeric(#[trigger] s[i])
}

/// `rand::Rng::sample` with the distribution `Alphanumeric`: a letter or digit of ASCII, by chance.
#[verifier::external_body]
fn random_char() -> (r: char)
    ensures
        is_alphanumeric(r),
{
    char::from(rand::Rng::sample(&mut rand::thread_rng(), rand::distributions::Alphanumeric))
}

/// A text of `len` letters and digits, by chance.
pub fn random_string(len: usize) -> (r: String)
    ensures
        is_random_text(r@, len as nat),
{
    let mut r = String::new();
    for i in 0..len
        invariant
            is_random_text(r@, i as nat),
    {
        r.push(random_char());
    }
    r
}

/// The keys and values of parameters.
pub open spec fn pair_views(pairs: Seq<(String, String)>) -> Seq<(Seq<char>, Seq<char>)> {
    pairs.map_values(|p: (String, String)| (p.0@, p.1@))
}

/// The URL that `Url::parse_with_params` makes of an address and parameters.
pub uninterp spec fn url_with_params(base: Seq<char>, params: Seq<(Seq<char>, Seq<char>)>) -> Option<
    Seq<char>,
>;

/// The parameters that `Url::query_pairs` finds in a text that `Url::parse` reads.
pub uninterp spec fn url_query(url: Seq<char>) -> Option<Seq<(Seq<char>, Seq<char>)>>;

/// What `String::from_utf8_lossy` makes of bytes.
pub uninterp spec fn utf8_lossy(bytes: Seq<u8>) -> Seq<char>;

/// The text that may be missing.
pub open spec fn text_view(s: Option<String>) -> Option<Seq<char>> {
    match s {
        Some(s) => Some(s@),
        None => None,
    }
}

/// The parameters that may be missing.
pub open spec fn params_view(pairs: Option<Vec<(String, String)>>) -> Option<
    Seq<(Seq<char>, Seq<char>)>,
> {
    match pairs {
        Some(pairs) => Some(pair_views(pairs@)),
        None => None,
    }
}

/// `url::Url::parse_with_params`: the URL is a function of the address and the parameters. The
/// length of the address stays below what the crate can count. The address has no fragment: one
/// would have to be put behind the parameters, at a place that the crate can count.
#[verifier::external_body]
fn parse_with_params(base: &str, params: &Vec<(String, String)>) -> (r: Option<String>)
    requires
        base@.len() <= 0x10_0000,
        !base@.contains('#'),
    ensures
        text_view(r) == url_with_params(base@, pair_views(params@)),
{
    url::Url::parse_with_params(base, params).ok().map(String::from)
}

/// `url::Url::parse` and `Url::query_pairs`: the parameters are a function of the text.
#[verifier::external_body]
fn query_pairs(url: &str) -> (r: Option<Vec<(String, String)>>)
    ensures
        params_view(r) == url_query(url@),
{
    let parsed = url::Url::parse(url).ok()?;
    Some(parsed.query_pairs().map(|(k, v)| (k.into_owned(), v.into_owned())).collect())
}

/// `String::from_utf8_lossy`: the text is a function of the bytes, and that which they encode where
/// they are UTF-8.
#[verifier::external_body]
fn from_utf8_lossy(bytes: &[u8]) -> (r: String)
    ensures
        r@ == utf8_lossy(bytes@),
        valid_utf8(bytes@) ==> r@ == decode_utf8(bytes@),
{
    String::from_utf8_lossy(bytes).into_owned()
}

/// The parameters of the link that is opened.
pub open spec fn authorize_params(state: Seq<char>, challenge: Seq<char>) -> Seq<
    (Seq<char>, Seq<char>),
> {
    seq![
        ("response_type"@, "code"@),
        ("client_id"@, OAUTH_CLIENT_ID@),
        ("redirect_uri"@, REDIRECT_URI@),
        ("scope"@, OAUTH_SCOPE@),
        ("code_challenge"@, challenge),
        ("code_challenge_method"@, "S256"@),
        ("state"@, state),
        ("id_token_add_organizations"@, "true"@),
        ("codex_cli_simplified_flow"@, "true"@),
        ("originator"@, "codex-account-switcher"@),
    ]
}

fn pair(key: &str, value: &str) -> (r: (String, String))
    ensures
        (r.0@, r.1@) == (key@, value@),
{
    (key.to_string(), value.to_string())
}

/// The parameters of the link that is opened.
pub fn authorize_pairs(state: &str, challenge: &str) -> (r: Vec<(String, String)>)
    ensures
        pair_views(r@) == authorize_params(state@, challenge@),
{
    let r = vec![
        pair("response_type", "code"),
        pair("client_id", OAUTH_CLIENT_ID),
        pair("redirect_uri", REDIRECT_URI),
        pair("scope", OAUTH_SCOPE),
        pair("code_challenge", challenge),
        pair("code_challenge_method", "S256"),
        pair("state", state),
        pair("id_token_add_organizations", "true"),
        pair("codex_cli_simplified_flow", "true"),
        pair("originator", "codex-account-switcher"),
    ];
    assert(pair_views(r@) =~= authorize_params(state@, challenge@));
    r
}

/// The link that is opened.
pub open spec fn authorize_url(state: Seq<char>, challenge: Seq<char>) -> Option<Seq<char>> {
    url_with_params(AUTHORIZE_URL@, authorize_params(state, challenge))
}

/// The link that is opened.
pub fn build_authorize_url(state: &str, challenge: &str) -> (r: Result<String, OauthError>)
    ensures
        match r {
            Ok(url) => authorize_url(state@, challenge@) == Some(url@),
            Err(error) => error == OauthError::BadAuthorizeUrl && authorize_url(
                state@,
                challenge@,
            ) is None,
        },
{
    proof {
        reveal_strlit("https://auth.openai.com/oauth/authorize");
    }
    match parse_with_params(AUTHORIZE_URL, &authorize_pairs(state, challenge)) {
        Some(url) => Ok(url),
        None => Err(OauthError::BadAuthorizeUrl),
    }
}

/// The challenge that goes with a verifier: the base64 text of its SHA-256 digest.
pub open spec fn challenge_of(verifier: Seq<char>) -> Seq<char> {
    crate::encoding::base64_encoded(crate::encoding::sha256_digest(encode_utf8(verifier)))
}

pub fn code_challenge(verifier: &str) -> (r: String)
    ensures
        r@ == challenge_of(verifier@),
{
    let digest = sha256(verifier.as_bytes());
    encode_base64(digest.as_slice())
}

/// A login that is under way.
#[derive(Debug)]
pub struct LoginSession {
    pub verifier: String,
    pub state: String,
    pub auth_url: String,
}

/// The login with given secrets.
pub fn login_session(verifier: String, state: String) -> (r: Result<LoginSession, OauthError>)
    ensures
        match r {
            Ok(session) => session.verifier@ == verifier@ && session.state@ == state@
                && authorize_url(state@, challenge_of(verifier@)) == Some(session.auth_url@),
            Err(error) => error == OauthError::BadAuthorizeUrl && authorize_url(
                state@,
                challenge_of(verifier@),
            ) is None,
        },
{
    let challenge = code_challenge(verifier.as_str());
    match build_authorize_url(state.as_str(), challenge.as_str()) {
        Ok(auth_url) => Ok(LoginSession { verifier, state, auth_url }),
        Err(error) => Err(error),
    }
}

/// A login with secrets that chance gives. A session has a verifier of 64 and a state of 32 letters
/// and digits, and the link that goes with them. There is no session where no link goes with such
/// secrets.
pub fn begin_login_session() -> (r: Result<LoginSession, OauthError>)
    ensures
        match r {
            Ok(session) => is_random_text(session.verifier@, 64) && is_random_text(
                session.state@,
                32,
            ) && authorize_url(session.state@, challenge_of(session.verifier@)) == Some(
                session.auth_url@,
            ),
            Err(error) => error == OauthError::BadAuthorizeUrl && exists|
                verifier: Seq<char>,
                state: Seq<char>,
            |
                is_random_text(verifier, 64) && is_random_text(state, 32) && #[trigger] authorize_url(
                    state,
                    challenge_of(verifier),
                ) is None,
        },
{
    let verifier = random_string(64);
    let state = random_string(32);
    login_session(verifier, state)
}

/// The first line of a text, without its line ending.
pub open spec fn first_line(s: Seq<char>) -> Option<Seq<char>> {
    let i = crate::text::first_index(s, '\n') as int;
    if s.len() == 0 {
        None
    } else if i >= s.len() {
        Some(s)
    } else if i > 0 && s[i - 1] == '\r' {
        Some(s.take(i - 1))
    } else {
        Some(s.take(i))
    }
}

/// The number of characters before the first white space.
pub open spec fn word_len(s: Seq<char>) -> nat
    decreases s.len(),
{
    if s.len() == 0 || crate::text::is_space(s[0]) {
        0
    } else {
        1 + word_len(s.drop_first())
    }
}

/// The first word of a text, and what follows it.
pub open spec fn cut_word(s: Seq<char>) -> (Seq<char>, Seq<char>) {
    let t = crate::text::trim_start(s);
    (t.take(word_len(t) as int), t.skip(word_len(t) as int))
}

/// The second of the words between white space.
pub open spec fn second_word(s: Seq<char>) -> Option<Seq<char>> {
    let word = cut_word(cut_word(s).1).0;
    if word.len() == 0 {
        None
    } else {
        Some(word)
    }
}

/// The path that a request asks for.
pub open spec fn requested_path(request: Seq<char>) -> Result<Seq<char>, OauthError> {
    match first_line(request) {
        Some(line) => match second_word(line) {
            Some(path) => Ok(path),
            None => Err(OauthError::MalformedRequest),
        },
        None => Err(OauthError::EmptyRequest),
    }
}

fn skip_spaces(chars: &Vec<char>, from: usize, to: usize) -> (r: usize)
    requires
        from <= to <= chars.len(),
    ensures
        from <= r <= to,
        crate::text::trim_start(chars@.subrange(from as int, to as int)) == chars@.subrange(
            r as int,
            to as int,
        ),
{
    let ghost whole = chars@.subrange(from as int, to as int);
    let mut i: usize = from;
    while i < to && is_whitespace(chars[i])
        invariant
            from <= i <= to <= chars.len(),
            crate::text::trim_start(whole) == crate::text::trim_start(
                chars@.subrange(i as int, to as int),
            ),
        decreases to - i,
    {
        assert(chars@.subrange(i as int, to as int).drop_first() == chars@.subrange(
            i + 1,
            to as int,
        ));
        i = i + 1;
    }
    i
}

fn skip_word(chars: &Vec<char>, from: usize, to: usize) -> (r: usize)
    requires
        from <= to <= chars.len(),
    ensures
        from <= r <= to,
        r == from + word_len(chars@.subrange(from as int, to as int)),
{
    let ghost whole = chars@.subrange(from as int, to as int);
    let mut i: usize = from;
    while i < to && !is_whitespace(chars[i])
        invariant
            from <= i <= to <= chars.len(),
            from + word_len(whole) == i + word_len(chars@.subrange(i as int, to as int)),
        decreases to - i,
    {
        assert(chars@.subrange(i as int, to as int).drop_first() == chars@.subrange(
            i + 1,
            to as int,
        ));
        i = i + 1;
    }
    i
}

/// The view of a text that may have failed.
pub open spec fn result_text(r: Result<String, OauthError>) -> Result<Seq<char>, OauthError> {
    match r {
        Ok(s) => Ok(s@),
        Err(error) => Err(error),
    }
}

/// The path that a request asks for: the second word of its first line.
pub fn request_path(request: &str) -> (r: Result<String, OauthError>)
    ensures
        result_text(r) == requested_path(request@),
{
    let chars = chars_of(request);
    if chars.len() == 0 {
        return Err(OauthError::EmptyRequest);
    }
    assert(chars@.skip(0) == chars@);
    let mut end: usize = find_char(&chars, 0, '\n');
    if end < chars.len() && end > 0 && chars[end - 1] == '\r' {
        end = end - 1;
    }
    let ghost line = chars@.take(end as int);
    assert(first_line(request@) == Some(line)) by {
        assert(chars@.take(chars@.len() as int) == chars@);
    }
    assert(line == chars@.subrange(0, end as int));
    let a: usize = skip_spaces(&chars, 0, end);
    let b: usize = skip_word(&chars, a, end);
    assert(cut_word(line).1 == chars@.subrange(b as int, end as int));
    let c: usize = skip_spaces(&chars, b, end);
    let d: usize = skip_word(&chars, c, end);
    assert(cut_word(cut_word(line).1).0 == chars@.subrange(c as int, d as int));
    if c == d {
        return Err(OauthError::MalformedRequest);
    }
    Ok(text_between(&chars, c, d))
}

/// The value of the first parameter with a key, empty where there is none.
pub open spec fn value_of(params: Seq<(Seq<char>, Seq<char>)>, key: Seq<char>) -> Seq<char>
    decreases params.len(),
{
    if params.len() == 0 {
        Seq::empty()
    } else if params[0].0 == key {
        params[0].1
    } else {
        value_of(params.drop_first(), key)
    }
}

/// The code that a callback brings. It must carry the expected state.
pub open spec fn callback_code(
    params: Seq<(Seq<char>, Seq<char>)>,
    expected_state: Seq<char>,
) -> Result<Seq<char>, OauthError> {
    if value_of(params, "state"@) != expected_state {
        Err(OauthError::StateMismatch)
    } else if crate::text::is_blank(value_of(params, "code"@)) {
        Err(OauthError::MissingCode)
    } else {
        Ok(value_of(params, "code"@))
    }
}

fn find_value(params: &Vec<(String, String)>, key: &str) -> (r: String)
    ensures
        r@ == value_of(pair_views(params@), key@),
{
    let ghost all = pair_views(params@);
    assert(all.skip(0) == all);
    for i in 0..params.len()
        invariant
            all == pair_views(params@),
            value_of(all, key@) == value_of(all.skip(i as int), key@),
    {
        assert(all.skip(i as int)[0] == (params@[i as int].0@, params@[i as int].1@));
        if same_text(params[i].0.as_str(), key) {
            return params[i].1.clone();
        }
        assert(all.skip(i as int).drop_first() == all.skip(i + 1));
    }
    String::new()
}

/// The code that a callback with these parameters brings.
pub fn judge_callback(params: &Vec<(String, String)>, expected_state: &str) -> (r: Result<
    String,
    OauthError,
>)
    ensures
        result_text(r) == callback_code(pair_views(params@), expected_state@),
{
    let state = find_value(params, "state");
    let code = find_value(params, "code");
    if !same_text(state.as_str(), expected_state) {
        return Err(OauthError::StateMismatch);
    }
    if blank(code.as_str()) {
        return Err(OauthError::MissingCode);
    }
    Ok(code)
}

/// The code that the request of a callback brings.
pub open spec fn request_code(request: Seq<char>, expected_state: Seq<char>) -> Result<
    Seq<char>,
    OauthError,
> {
    match requested_path(request) {
        Ok(path) => match url_query("http://localhost"@ + path) {
            Some(params) => callback_code(params, expected_state),
            None => Err(OauthError::BadCallbackUrl),
        },
        Err(error) => Err(error),
    }
}

/// The code that the request of a callback brings.
pub fn read_request(request: &str, expected_state: &str) -> (r: Result<String, OauthError>)
    ensures
        result_text(r) == request_code(request@, expected_state@),
{
    match request_path(request) {
        Ok(path) => {
            let url = "http://localhost".to_string().concat(path.as_str());
            match query_pairs(url.as_str()) {
                Some(params) => judge_callback(&params, expected_state),
                None => Err(OauthError::BadCallbackUrl),
            }
        },
        Err(error) => Err(error),
    }
}

/// The code that the bytes of a callback bring.
pub fn read_callback(bytes: &[u8], expected_state: &str) -> (r: Result<String, OauthError>)
    ensures
        result_text(r) == request_code(utf8_lossy(bytes@), expected_state@),
        valid_utf8(bytes@) ==> result_text(r) == request_code(
            decode_utf8(bytes@),
            expected_state@,
        ),
{
    let request = from_utf8_lossy(bytes);
    read_request(request.as_str(), expected_state)
}

/// A response to the browser.
pub open spec fn http_response(status: nat, body: Seq<char>) -> Seq<char> {
    "HTTP/1.1 "@ + crate::text::decimal(status)
        + " OK\r\nContent-Type: text/html; charset=utf-8\r\nContent-Length: "@
        + crate::text::decimal(encode_utf8(body).len()) + "\r\nConnection: close\r\n\r\n"@ + body
}

/// A response to the browser.
pub fn respond(status: u16, body: &str) -> (r: String)
    ensures
        r@ == http_response(status as nat, body@),
{
    let mut r = "HTTP/1.1 ".to_string();
    push_decimal(&mut r, status as u64);
    r.append(" OK\r\nContent-Type: text/html; charset=utf-8\r\nContent-Length: ");
    push_decimal(&mut r, body.as_bytes().len() as u64);
    r.append("\r\nConnection: close\r\n\r\n");
    r.append(body);
    r
}

/// What the browser is told of a callback. A request that cannot be read gets no answer.
pub open spec fn callback_response(code: Result<Seq<char>, OauthError>) -> Option<Seq<char>> {
    match code {
        Ok(_) => Some(
            http_response(200, "Authentication successful. You can close this window."@),
        ),
        Err(OauthError::StateMismatch) => Some(
            http_response(400, "State mismatch. You can close this window."@),
        ),
        Err(OauthError::MissingCode) => Some(
            http_response(400, "Missing authorization code. You can close this window."@),
        ),
        Err(_) => None,
    }
}

/// What the browser is told of a callback, if anything.
pub fn callback_reply(code: &Result<String, OauthError>) -> (r: Option<String>)
    ensures
        text_view(r) == callback_response(result_text(*code)),
{
    match code {
        Ok(_) => Some(respond(200, "Authentication successful. You can close this window.")),
        Err(OauthError::StateMismatch) => Some(
            respond(400, "State mismatch. You can close this window."),
        ),
        Err(OauthError::MissingCode) => Some(
            respond(400, "Missing authorization code. You can close this window."),
        ),
        Err(_) => None,
    }
}

/// What to do while no callback has come.
#[derive(Clone, Copy, Debug, PartialEq, Eq, Structural)]
pub enum WaitStep {
    /// Look again after a hundred milliseconds.
    Sleep,
    /// Five minutes are over.
    GiveUp,
}

/// What to do while no callback has come for `elapsed_ms` milliseconds.
pub fn wait_for_callback(elapsed_ms: u64) -> (r: WaitStep)
    ensures
        r == if elapsed_ms >= 5 * 60 * 1000 {
            WaitStep::GiveUp
        } else {
            WaitStep::Sleep
        },
{
    if elapsed_ms >= 300_000 {
        WaitStep::GiveUp
    } else {
        WaitStep::Sleep
    }
}

/// The form that exchanges a code for tokens.
pub open spec fn exchange_params(code: Seq<char>, verifier: Seq<char>) -> Seq<
    (Seq<char>, Seq<char>),
> {
    seq![
        ("grant_type"@, "authorization_code"@),
        ("client_id"@, OAUTH_CLIENT_ID@),
        ("code"@, code),
        ("code_verifier"@, verifier),
        ("redirect_uri"@, REDIRECT_URI@),
    ]
}

/// The form that exchanges a code for tokens.
pub fn exchange_pairs(code: &str, verifier: &str) -> (r: Vec<(String, String)>)
    ensures
        pair_views(r@) == exchange_params(code@, verifier@),
{
    let r = vec![
        pair("grant_type", "authorization_code"),
        pair("client_id", OAUTH_CLIENT_ID),
        pair("code", code),
        pair("code_verifier", verifier),
        pair("redirect_uri", REDIRECT_URI),
    ];
    assert(pair_views(r@) =~= exchange_params(code@, verifier@));
    r
}

/// The tokens that a code was exchanged for.
#[derive(Debug)]
pub struct TokenResponse {
    pub access_token: String,
    pub refresh_token: String,
    pub expires_in: i64,
}

/// Accepts tokens that are complete.
pub fn exchange_code(token: &TokenResponse) -> (r: Result<(), OauthError>)
    ensures
        r == if crate::text::is_blank(token.access_token@) || crate::text::is_blank(
            token.refresh_token@,
        ) {
            Err(OauthError::IncompleteTokens)
        } else {
            Ok::<(), OauthError>(())
        },
{
    if blank(token.access_token.as_str()) || blank(token.refresh_token.as_str()) {
        return Err(OauthError::IncompleteTokens);
    }
    Ok(())
}

/// The profile of an account. It is empty where it could not be had.
#[derive(Debug)]
pub struct MeResponse {
    pub email: String,
    pub name: String,
}

impl Default for MeResponse {
    fn default() -> (r: Self)
        ensures
            r.email@ == Seq::<char>::empty(),
            r.name@ == Seq::<char>::empty(),
    {
        MeResponse { email: String::new(), name: String::new() }
    }
}

/// The id of the account that logged in.
pub open spec fn login_id(token: TokenResponse) -> Seq<char> {
    crate::identity::canonical(seq![crate::claims::claims_of(token.access_token@).account_id])
}

/// The account that logged in.
pub open spec fn login_record(token: TokenResponse, me: MeResponse, now: (int, int)) -> AccountView {
    let claims = crate::claims::claims_of(token.access_token@);
    AccountView {
        label: if !crate::text::is_blank(me.email@) {
            crate::text::trimmed(me.email@)
        } else if !crate::text::is_blank(me.name@) {
            crate::text::trimmed(me.name@)
        } else if !crate::text::is_blank(claims.email) {
            claims.email
        } else {
            login_id(token)
        },
        email: if !crate::text::is_blank(me.email@) {
            crate::text::trimmed(me.email@)
        } else {
            claims.email
        },
        account_id: login_id(token),
        access_token: token.access_token@,
        refresh_token: token.refresh_token@,
        expires_at: if token.expires_in > 0 {
            Some((now.0 + token.expires_in, now.1))
        } else {
            claims.expires_at
        },
        client_id: if !crate::text::is_blank(claims.client_id) {
            claims.client_id
        } else {
            OAUTH_CLIENT_ID@
        },
        managed: true,
        codex_active: false,
        quota: QuotaView::Idle,
    }
}

/// The account that logged in with these tokens. Without an id in the token there is none.
pub fn login_account(token: TokenResponse, me: &MeResponse, now: Timestamp) -> (r: Result<
    AccountRecord,
    OauthError,
>)
    requires
        login_id(token).len() > 0 ==> crate::api::fits(now@, token.expires_in as int),
    ensures
        match r {
            Ok(account) => login_id(token).len() > 0 && account@ == login_record(token, *me, now@),
            Err(error) => error == OauthError::MissingAccountId && login_id(token).len() == 0,
        },
{
    let claims = parse_access_token(token.access_token.as_str());
    let ids = [claims.account_id.as_str()];
    assert(crate::identity::texts(ids@) =~= seq![claims.account_id@]);
    let account_id = canonical_account_id(&ids);
    proof {
        crate::identity::lemma_canonical(seq![claims.account_id@]);
        crate::text::lemma_trimmed_fixed(login_id(token));
    }
    if blank(account_id.as_str()) {
        return Err(OauthError::MissingAccountId);
    }
    let label = if !blank(me.email.as_str()) {
        trim_text(me.email.as_str())
    } else if !blank(me.name.as_str()) {
        trim_text(me.name.as_str())
    } else if !blank(claims.email.as_str()) {
        claims.email.clone()
    } else {
        account_id.clone()
    };
    let email = if !blank(me.email.as_str()) {
        trim_text(me.email.as_str())
    } else {
        claims.email
    };
    let expires_at = if token.expires_in > 0 {
        Some(now.plus_seconds(token.expires_in))
    } else {
        claims.expires_at
    };
    let client_id = if !blank(claims.client_id.as_str()) {
        claims.client_id
    } else {
        OAUTH_CLIENT_ID.to_string()
    };
    Ok(
        AccountRecord {
            label,
            email,
            account_id,
            access_token: token.access_token,
            refresh_token: token.refresh_token,
            expires_at,
            client_id,
            managed: true,
            codex_active: false,
            quota: QuotaState::Idle,
        },
    )
}

/// The id of the account that logged in, empty where its token has none.
pub fn login_account_id(token: &TokenResponse) -> (r: String)
    ensures
        r@ == login_id(*token),
{
    let claims = parse_access_token(token.access_token.as_str());
    let ids = [claims.account_id.as_str()];
    assert(crate::identity::texts(ids@) =~= seq![claims.account_id@]);
    canonical_account_id(&ids)
}

/// The account that logged in, or nothing where no date can hold the expiry of its tokens.
pub fn checked_login_account(token: TokenResponse, me: &MeResponse, now: Timestamp) -> (r: Option<
    Result<AccountRecord, OauthError>,
>)
    ensures
        match r {
            Some(Ok(account)) => login_id(token).len() > 0 && crate::api::fits(
                now@,
                token.expires_in as int,
            ) && account@ == login_record(token, *me, now@),
            Some(Err(error)) => error == OauthError::MissingAccountId && login_id(token).len()
                == 0,
            None => login_id(token).len() > 0 && !crate::api::fits(now@, token.expires_in as int),
        },
{
    let id = login_account_id(&token);
    if !id.as_str().is_empty() && !crate::api::can_expire(now, token.expires_in) {
        return None;
    }
    Some(login_account(token, me, now))
}

/// A callback that carries another state than the expected one is turned down, whatever code it
/// brings.
pub proof fn lemma_foreign_state(params: Seq<(Seq<char>, Seq<char>)>, expected: Seq<char>)
    requires
        value_of(params, "state"@) != expected,
    ensures
        callback_code(params, expected) == Err::<Seq<char>, OauthError>(OauthError::StateMismatch),
        callback_response(callback_code(params, expected)) == Some(
            http_response(400, "State mismatch. You can close this window."@),
        ),
{
}

/// An account whose login gave an id can be stored.
pub proof fn lemma_login_can_be_stored(token: TokenResponse, me: MeResponse, now: (int, int))
    requires
        login_id(token).len() > 0,
    ensures
        crate::storage::upsert_error(login_record(token, me, now)) is None,
{
    let a = login_record(token, me, now);
    let ids = seq![a.account_id, crate::claims::claims_of(a.access_token).account_id];
    crate::identity::lemma_canonical(
        seq![crate::claims::claims_of(token.access_token@).account_id],
    );
    crate::text::lemma_trimmed_fixed(a.account_id);
    crate::identity::lemma_canonical(ids);
    assert(!crate::text::is_blank(ids[0]));
    crate::text::lemma_trimmed_fixed(crate::identity::canonical(ids));
}

} // verus!
