//! What messages and colours tell, whatever they are used for.
use vstd::prelude::*;

#[allow(unused_imports)]
use vstd::utf8::*;

#[allow(unused_imports)]
use crate::api::{ApiError, Request};
#[allow(unused_imports)]
use crate::oauth::OauthError;
#[allow(unused_imports)]
use crate::options::UsageErrorView;
#[allow(unused_imports)]
use crate::storage::StorageError;
#[allow(unused_imports)]
use crate::text::{begins_with, holds, trimmed, truncated};
#[allow(unused_imports)]
use crate::theme::{Color, Paint};

verus! {

proof fn lemma_stands(s: Seq<char>, part: Seq<char>, i: int)
    requires
        0 <= i <= s.len() - part.len(),
        s.subrange(i, i + part.len()) =~= part,
    ensures
        holds(s, part),
{
}

/// The message of an error of the store names what is missing, and two errors have two messages.
pub proof fn lemma_store_messages(e: StorageError, other: StorageError)
    ensures
        e == StorageError::EmptyAccessToken ==> holds(e.text(), "access token"@),
        e == StorageError::MissingAccountId ==> holds(e.text(), "account_id"@),
        e != other ==> e.text() != other.text(),
{
    reveal_strlit("access token is empty");
    reveal_strlit("account_id is missing");
    reveal_strlit("access token");
    reveal_strlit("account_id");
    match e {
        StorageError::EmptyAccessToken => lemma_stands(e.text(), "access token"@, 0),
        StorageError::MissingAccountId => lemma_stands(e.text(), "account_id"@, 0),
    }
    assert("access token is empty"@[2] != "account_id is missing"@[3]);
    assert("access token is empty"@[3] != "account_id is missing"@[3]);
}

/// The message of an error of a quota request names what is missing, and two errors have two messages.
pub proof fn lemma_quota_messages(e: ApiError, other: ApiError)
    ensures
        e == ApiError::MissingRefreshToken ==> holds(e.text(), "refresh token"@),
        e == ApiError::MissingClientId ==> holds(e.text(), "client_id"@),
        e == ApiError::MissingAccessToken ==> holds(e.text(), "access_token"@),
        e == ApiError::MissingWindows ==> holds(e.text(), "windows"@),
        e != other ==> e.text() != other.text(),
{
    reveal_strlit("refresh token is missing");
    reveal_strlit("cannot refresh token without client_id");
    reveal_strlit("refresh response missing access_token");
    reveal_strlit("quota response did not include usage windows");
    reveal_strlit("refresh token");
    reveal_strlit("client_id");
    reveal_strlit("access_token");
    reveal_strlit("windows");
    match e {
        ApiError::MissingRefreshToken => lemma_stands(e.text(), "refresh token"@, 0),
        ApiError::MissingClientId => lemma_stands(e.text(), "client_id"@, 29),
        ApiError::MissingAccessToken => lemma_stands(e.text(), "access_token"@, 25),
        ApiError::MissingWindows => lemma_stands(e.text(), "windows"@, 37),
    }
}

/// The message of an error of the login names what went wrong, and two errors have two messages.
pub proof fn lemma_login_messages(e: OauthError, other: OauthError)
    ensures
        e == OauthError::BadAuthorizeUrl ==> holds(e.text(), "authorize URL"@),
        e == OauthError::EmptyRequest ==> holds(e.text(), "empty"@),
        e == OauthError::MalformedRequest ==> holds(e.text(), "malformed"@),
        e == OauthError::BadCallbackUrl ==> holds(e.text(), "callback URL"@),
        e == OauthError::StateMismatch ==> holds(e.text(), "state"@),
        e == OauthError::MissingCode ==> holds(e.text(), "code"@),
        e == OauthError::TimedOut ==> holds(e.text(), "timed out"@),
        e == OauthError::IncompleteTokens ==> holds(e.text(), "incomplete"@),
        e == OauthError::MissingAccountId ==> holds(e.text(), "account_id"@),
        e != other ==> e.text() != other.text(),
{
    reveal_strlit("failed to build authorize URL");
    reveal_strlit("callback request was empty");
    reveal_strlit("callback request line was malformed");
    reveal_strlit("failed to parse callback URL");
    reveal_strlit("oauth callback state mismatch");
    reveal_strlit("oauth callback missing code");
    reveal_strlit("oauth login timed out");
    reveal_strlit("oauth token response was incomplete");
    reveal_strlit("failed to extract account_id from token");
    assert("oauth callback state mismatch"@[0] != "failed to build authorize URL"@[0]);
    assert("oauth token response was incomplete"@[0] != "callback request line was malformed"@[0]);
    match e {
        OauthError::BadAuthorizeUrl => {
            reveal_strlit("authorize URL");
            lemma_stands(e.text(), "authorize URL"@, 16);
        },
        OauthError::EmptyRequest => {
            reveal_strlit("empty");
            lemma_stands(e.text(), "empty"@, 21);
        },
        OauthError::MalformedRequest => {
            reveal_strlit("malformed");
            lemma_stands(e.text(), "malformed"@, 26);
        },
        OauthError::BadCallbackUrl => {
            reveal_strlit("callback URL");
            lemma_stands(e.text(), "callback URL"@, 16);
        },
        OauthError::StateMismatch => {
            reveal_strlit("state");
            lemma_stands(e.text(), "state"@, 15);
        },
        OauthError::MissingCode => {
            reveal_strlit("code");
            lemma_stands(e.text(), "code"@, 23);
        },
        OauthError::TimedOut => {
            reveal_strlit("timed out");
            lemma_stands(e.text(), "timed out"@, 12);
        },
        OauthError::IncompleteTokens => {
            reveal_strlit("incomplete");
            lemma_stands(e.text(), "incomplete"@, 25);
        },
        OauthError::MissingAccountId => {
            reveal_strlit("account_id");
            lemma_stands(e.text(), "account_id"@, 18);
        },
    }
}

/// The message of an error in the arguments shows the argument that is at fault, so that two faulty
/// values have two messages, and a limit is told from an option.
pub proof fn lemma_argument_messages(value: Seq<char>, other: Seq<char>)
    ensures
        holds(UsageErrorView::MissingNumber(value).text(), value),
        holds(UsageErrorView::InvalidLimit(value).text(), value),
        holds(UsageErrorView::UnknownOption(value).text(), value),
        begins_with(UsageErrorView::MissingPath.text(), "--sessions-dir"@),
        holds(UsageErrorView::InvalidLimit(value).text(), "limit"@),
        holds(UsageErrorView::UnknownOption(value).text(), "option"@),
        value != other ==> UsageErrorView::InvalidLimit(value).text()
            != UsageErrorView::InvalidLimit(other).text(),
        value != other ==> UsageErrorView::UnknownOption(value).text()
            != UsageErrorView::UnknownOption(other).text(),
        UsageErrorView::InvalidLimit(value).text() != UsageErrorView::UnknownOption(other).text(),
{
    reveal_strlit("invalid limit: ");
    reveal_strlit("unknown usage option: ");
    reveal_strlit("--sessions-dir requires a path");
    reveal_strlit("--sessions-dir");
    reveal_strlit("limit");
    reveal_strlit("option");
    let limit = UsageErrorView::InvalidLimit(value).text();
    let option = UsageErrorView::UnknownOption(value).text();
    lemma_stands(UsageErrorView::MissingNumber(value).text(), value, 0);
    lemma_stands(limit, value, 15);
    lemma_stands(option, value, 22);
    lemma_stands(limit, "limit"@, 8);
    lemma_stands(option, "option"@, 14);
    assert(limit.skip(15) =~= value);
    assert(UsageErrorView::InvalidLimit(other).text().skip(15) =~= other);
    assert(option.skip(22) =~= value);
    assert(UsageErrorView::UnknownOption(other).text().skip(22) =~= other);
    assert(limit[0] == 'i');
    assert(UsageErrorView::UnknownOption(other).text()[0] == 'u');
    assert("--sessions-dir requires a path"@.take(14) =~= "--sessions-dir"@);
}

/// What is said of a refused request names the request, and no two requests are named alike.
pub proof fn lemma_refusals(request: Request, other: Request)
    ensures
        request == Request::Quota ==> begins_with(request.refusal(), "quota "@),
        request == Request::Refresh ==> begins_with(request.refusal(), "refresh "@),
        request == Request::Exchange ==> holds(request.refusal(), "exchange"@),
        request == Request::Profile ==> begins_with(request.refusal(), "profile "@),
        holds(request.refusal(), "failed"@),
        request != other ==> request.refusal() != other.refusal(),
{
    reveal_strlit("quota request failed with ");
    reveal_strlit("refresh failed with ");
    reveal_strlit("oauth token exchange failed with ");
    reveal_strlit("profile request failed with ");
    reveal_strlit("failed");
    let said = request.refusal();
    match request {
        Request::Quota => {
            reveal_strlit("quota ");
            assert(said.take(6) =~= "quota "@);
            lemma_stands(said, "failed"@, 14);
        },
        Request::Refresh => {
            reveal_strlit("refresh ");
            assert(said.take(8) =~= "refresh "@);
            lemma_stands(said, "failed"@, 8);
        },
        Request::Exchange => {
            reveal_strlit("exchange");
            lemma_stands(said, "exchange"@, 12);
            lemma_stands(said, "failed"@, 21);
        },
        Request::Profile => {
            reveal_strlit("profile ");
            assert(said.take(8) =~= "profile "@);
            lemma_stands(said, "failed"@, 16);
        },
    }
}

/// A refused request shows a reply of at most 200 bytes whole. Of a longer one, 200 bytes and an
/// ellipsis are shown where a profile was asked for; of one of more than 240 bytes, 240 are elsewhere.
pub proof fn lemma_reply_shown(request: Request, body: Seq<char>)
    requires
        crate::text::truncates(body, request.shown()),
    ensures
        ({
            let t = trimmed(body);
            let n = encode_utf8(t).len();
            let r = truncated(body, request.shown());
            &&& n <= 200 ==> r == t
            &&& n <= 240 && request != Request::Profile ==> r == t
            &&& n > 200 && request == Request::Profile ==> exists|m: int|
                0 <= m <= t.len() && r == t.take(m) + "..."@ && encode_utf8(
                    #[trigger] t.take(m),
                ).len() == 200
            &&& n > 240 && request != Request::Profile ==> exists|m: int|
                0 <= m <= t.len() && r == t.take(m) + "..."@ && encode_utf8(
                    #[trigger] t.take(m),
                ).len() == 240
        }),
{
    crate::text_laws::lemma_truncated(body, request.shown());
}

/// The channels of red, green and blue that a colour lights.
pub open spec fn lit(color: Color) -> (bool, bool, bool) {
    match color {
        Color::Black => (false, false, false),
        Color::White => (true, true, true),
        Color::DarkGray => (false, false, false),
        Color::Blue => (false, false, true),
        Color::Yellow => (true, true, false),
        Color::Magenta => (true, false, true),
        Color::LightRed => (true, false, false),
        Color::LightGreen => (false, true, false),
        Color::LightMagenta => (true, false, true),
        Color::LightCyan => (false, true, true),
        Color::Rgb(r, g, b) => (r >= 128, g >= 128, b >= 128),
    }
}

/// Danger is red, a warning is yellow and all that is well is green, in both palettes; but for what is
/// dimmed, the two palettes light the same channels.
pub proof fn lemma_palettes(paint: Paint)
    ensures
        lit(Paint::Danger.ansi()) == (true, false, false),
        lit(Paint::Warning.ansi()) == (true, true, false),
        lit(Paint::Green.ansi()) == (false, true, false),
        lit(Paint::Cyan.ansi()) == (false, true, true),
        lit(Paint::Text.ansi()) == (true, true, true),
        lit(Paint::SelectionBg.ansi()) == (false, false, true),
        lit(Paint::Muted.ansi()) == lit(Paint::Black.ansi()),
        paint != Paint::Muted && paint != Paint::SelectionBg ==> lit(paint.ansi()) == lit(
            paint.rgb(),
        ),
        Paint::Muted.ansi() != Paint::Black.ansi() && Paint::Muted.rgb() != Paint::Black.rgb(),
        match (Paint::SelectionBg.rgb(), Paint::Muted.rgb(), Paint::Text.rgb()) {
            (Color::Rgb(r, g, b), Color::Rgb(x, y, z), Color::Rgb(u, v, w)) => b > g > r && x < u
                && y < v && z < w,
            _ => false,
        },
{
}

} // verus!
