//! Bytes as text.
use vstd::prelude::*;

verus! {

/// The bytes of a vector that may be missing.
pub open spec fn bytes_of(v: Option<Vec<u8>>) -> Option<Seq<u8>> {
    match v {
        Some(v) => Some(v@),
        None => None,
    }
}

/// What the URL-safe base64 engine without padding decodes a text to.
pub uninterp spec fn base64_decoded(s: Seq<char>) -> Option<Seq<u8>>;

/// What the URL-safe base64 engine without padding encodes bytes as.
pub uninterp spec fn base64_encoded(bytes: Seq<u8>) -> Seq<char>;

/// The SHA-256 digest of bytes.
pub uninterp spec fn sha256_digest(bytes: Seq<u8>) -> Seq<u8>;

/// `base64::Engine::decode` of `URL_SAFE_NO_PAD`: what it decodes is a function of the text.
#[verifier::external_body]
pub(crate) fn decode_base64(s: &str) -> (r: Option<Vec<u8>>)
    ensures
        bytes_of(r) == base64_decoded(s@),
{
    base64::Engine::decode(&base64::engine::general_purpose::URL_SAFE_NO_PAD, s).ok()
}

/// `base64::Engine::encode` of `URL_SAFE_NO_PAD`: the text is a function of the bytes.
#[verifier::external_body]
pub(crate) fn encode_base64(bytes: &[u8]) -> (r: String)
    ensures
        r@ == base64_encoded(bytes@),
{
    base64::Engine::encode(&base64::engine::general_purpose::URL_SAFE_NO_PAD, bytes)
}

/// `sha2::Sha256::digest`: 32 bytes that are a function of the given ones.
#[verifier::external_body]
pub(crate) fn sha256(bytes: &[u8]) -> (r: Vec<u8>)
    ensures
        r@ == sha256_digest(bytes@),
        r@.len() == 32,
{
    <sha2::Sha256 as sha2::Digest>::digest(bytes).to_vec()
}

} // verus!
