//! What an access token says of its account.
use vstd::prelude::*;
use vstd::string::*;

use crate::encoding::decode_base64;
use crate::identity::{canonical_account_id, first_non_empty};
use crate::json;
use crate::text::{chars_of, find_char, text_between, trim, trim_text};
use crate::timestamp::{timestamp_from_secs, Timestamp};

verus! {

/// The claims of an access token.
#[derive(Debug)]
pub struct AccessTokenClaims {
    pub client_id: String,
    pub account_id: String,
    pub email: String,
    pub expires_at: Option<Timestamp>,
}

#[verifier::ext_equal]
pub struct ClaimsView {
    pub client_id: Seq<char>,
    pub account_id: Seq<char>,
    pub email: Seq<char>,
    pub expires_at: Option<(int, int)>,
}

impl View for AccessTokenClaims {
    type V = ClaimsView;

    open spec fn view(&self) -> ClaimsView {
        ClaimsView {
            client_id: self.client_id@,
            account_id: self.account_id@,
            email: self.email@,
            expires_at: crate::timestamp::moment(self.expires_at),
        }
    }
}

/// The claims of a token that says nothing.
pub open spec fn no_claims() -> ClaimsView {
    ClaimsView {
        client_id: Seq::empty(),
        account_id: Seq::empty(),
        email: Seq::empty(),
        expires_at: None,
    }
}

impl Default for AccessTokenClaims {
    fn default() -> (r: Self)
        ensures
            r@ == no_claims(),
    {
        AccessTokenClaims {
            client_id: String::new(),
            account_id: String::new(),
            email: String::new(),
            expires_at: None,
        }
    }
}

impl Clone for AccessTokenClaims {
    fn clone(&self) -> (r: Self)
        ensures
            r@ == self@,
    {
        AccessTokenClaims {
            client_id: self.client_id.clone(),
            account_id: self.account_id.clone(),
            email: self.email.clone(),
            expires_at: self.expires_at,
        }
    }
}

/// The account id in the claim of the authentication service, which is a text or an object.
pub open spec fn auth_account_id(payload: json::JsonTree) -> Seq<char> {
    match payload.member("https://api.openai.com/auth"@) {
        Some(json::JsonTree::Text(raw)) => crate::text::trimmed(raw),
        Some(claim) => crate::text::trimmed(claim.member_text("chatgpt_account_id"@)),
        None => Seq::empty(),
    }
}

/// The time in the `exp` claim.
pub open spec fn payload_expiry(payload: json::JsonTree) -> Option<(int, int)> {
    match payload.member("exp"@) {
        Some(claim) => match claim.signed() {
            Some(secs) => crate::timestamp::at_secs(secs as int),
            None => None,
        },
        None => None,
    }
}

/// The claims in the payload of a token.
pub open spec fn payload_claims(payload: json::JsonTree) -> ClaimsView {
    ClaimsView {
        client_id: crate::identity::first_non_empty_of(
            seq![
                payload.member_text("client_id"@),
                payload.member_text("cid"@),
                payload.member_text("clientId"@),
            ],
        ),
        account_id: crate::identity::canonical(
            seq![
                auth_account_id(payload),
                payload.member_text("account_id"@),
                payload.member_text("sub"@),
            ],
        ),
        email: crate::text::trimmed(payload.member_text("email"@)),
        expires_at: payload_expiry(payload),
    }
}

/// The claims in the bytes of a payload; none where they are no JSON.
pub open spec fn bytes_claims(bytes: Seq<u8>) -> ClaimsView {
    match json::json_document(bytes) {
        Some(payload) => payload_claims(payload),
        None => no_claims(),
    }
}

/// The second of the parts between dots.
pub open spec fn payload_part(token: Seq<char>) -> Option<Seq<char>> {
    let t = crate::text::trimmed(token);
    let i = crate::text::first_index(t, '.');
    if i < t.len() {
        let rest = t.skip(i as int + 1);
        Some(rest.take(crate::text::first_index(rest, '.') as int))
    } else {
        None
    }
}

/// The claims of an access token; none where its payload cannot be read.
pub open spec fn claims_of(token: Seq<char>) -> ClaimsView {
    match payload_part(token) {
        Some(part) => match crate::encoding::base64_decoded(part) {
            Some(bytes) => bytes_claims(bytes),
            None => no_claims(),
        },
        None => no_claims(),
    }
}

fn auth_claim(payload: &serde_json::Value) -> (r: String)
    ensures
        r@ == auth_account_id(json::json_tree(*payload)),
{
    match json::member(payload, "https://api.openai.com/auth") {
        Some(claim) => match json::text(claim) {
            Some(raw) => trim_text(raw),
            None => trim_text(json::member_text(claim, "chatgpt_account_id")),
        },
        None => String::new(),
    }
}

/// The claims in the payload of a token.
pub fn claims_from_payload(payload: &serde_json::Value) -> (r: AccessTokenClaims)
    ensures
        r@ == payload_claims(json::json_tree(*payload)),
{
    let ghost tree = json::json_tree(*payload);
    let clients = [
        json::member_text(payload, "client_id"),
        json::member_text(payload, "cid"),
        json::member_text(payload, "clientId"),
    ];
    assert(crate::identity::texts(clients@) =~= seq![
        tree.member_text("client_id"@),
        tree.member_text("cid"@),
        tree.member_text("clientId"@),
    ]);
    let auth = auth_claim(payload);
    let ids = [
        auth.as_str(),
        json::member_text(payload, "account_id"),
        json::member_text(payload, "sub"),
    ];
    assert(crate::identity::texts(ids@) =~= seq![
        auth_account_id(tree),
        tree.member_text("account_id"@),
        tree.member_text("sub"@),
    ]);
    let expires_at = match json::member(payload, "exp") {
        Some(claim) => match json::signed(claim) {
            Some(secs) => timestamp_from_secs(secs),
            None => None,
        },
        None => None,
    };
    AccessTokenClaims {
        client_id: first_non_empty(&clients),
        account_id: canonical_account_id(&ids),
        email: trim_text(json::member_text(payload, "email")),
        expires_at,
    }
}

/// The claims in the bytes of a payload; none where they are no JSON.
pub fn claims_from_bytes(bytes: &[u8]) -> (r: AccessTokenClaims)
    ensures
        r@ == bytes_claims(bytes@),
{
    match json::parse(bytes) {
        Some(payload) => claims_from_payload(&payload),
        None => AccessTokenClaims::default(),
    }
}

/// The part of a token that holds its claims, if it has one.
pub fn token_payload(token: &str) -> (r: Option<String>)
    ensures
        match r {
            Some(part) => payload_part(token@) == Some(part@),
            None => payload_part(token@) is None,
        },
{
    let chars = chars_of(trim(token));
    let n: usize = chars.len();
    assert(chars@.skip(0) == chars@);
    let dot: usize = find_char(&chars, 0, '.');
    if dot >= n {
        return None;
    }
    let end: usize = find_char(&chars, dot + 1, '.');
    assert(chars@.subrange(dot + 1, end as int) =~= chars@.skip(dot + 1).take(end - dot - 1));
    Some(text_between(&chars, dot + 1, end))
}

/// The claims of an access token; none where its payload cannot be read.
pub fn parse_access_token(token: &str) -> (r: AccessTokenClaims)
    ensures
        r@ == claims_of(token@),
{
    match token_payload(token) {
        Some(part) => match decode_base64(part.as_str()) {
            Some(bytes) => claims_from_bytes(bytes.as_slice()),
            None => AccessTokenClaims::default(),
        },
        None => AccessTokenClaims::default(),
    }
}

/// The texts among the claims have no outer white space.
pub proof fn lemma_claims_trimmed(token: Seq<char>)
    ensures
        crate::text::is_trimmed(claims_of(token).client_id),
        crate::text::is_trimmed(claims_of(token).account_id),
        crate::text::is_trimmed(claims_of(token).email),
{
    match payload_part(token) {
        Some(part) => match crate::encoding::base64_decoded(part) {
            Some(bytes) => match json::json_document(bytes) {
                Some(payload) => {
                    crate::identity::lemma_first_non_empty(
                        seq![
                            payload.member_text("client_id"@),
                            payload.member_text("cid"@),
                            payload.member_text("clientId"@),
                        ],
                    );
                    crate::identity::lemma_canonical(
                        seq![
                            auth_account_id(payload),
                            payload.member_text("account_id"@),
                            payload.member_text("sub"@),
                        ],
                    );
                    crate::text::lemma_trimmed_has_no_outer_space(payload.member_text("email"@));
                },
                None => {},
            },
            None => {},
        },
        None => {},
    }
}

/// White space around a token does not change its claims.
pub proof fn lemma_claims_of_trimmed(token: Seq<char>)
    ensures
        claims_of(crate::text::trimmed(token)) == claims_of(token),
{
    crate::text::lemma_trimmed_idempotent(token);
}

} // verus!
