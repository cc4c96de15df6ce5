//! Proof-Key-for-Code-Exchange, S256 only.
//!
//! A challenge is the URL-safe, unpadded base64 encoding of the SHA-256
//! digest of the verifier's bytes; verification recomputes it and compares.

use vstd::prelude::*;
use vstd::utf8::encode_utf8;
use base64::Engine;
use sha2::Digest;

verus! {

/// The SHA-256 digest of a byte sequence, as sha2 computes it.
pub uninterp spec fn sha256_of(bytes: Seq<u8>) -> Seq<u8>;

/// The URL-safe, unpadded base64 encoding of a byte sequence, as base64's
/// `URL_SAFE_NO_PAD` engine computes it.
pub uninterp spec fn b64url_nopad_of(bytes: Seq<u8>) -> Seq<char>;

/// Relies on sha2::Sha256::digest: the digest is 32 bytes and depends on the
/// input bytes alone.
#[verifier::external_body]
fn sha256(data: &[u8]) -> (r: Vec<u8>)
    ensures
        r@ == sha256_of(data@),
        r@.len() == 32,
{
    sha2::Sha256::digest(data).to_vec()
}

/// Relies on base64's `URL_SAFE_NO_PAD` engine: the encoding depends on the
/// input bytes alone, and an empty input encodes to an empty string.
#[verifier::external_body]
fn b64url_nopad_encode(data: &[u8]) -> (r: String)
    ensures
        r@ == b64url_nopad_of(data@),
        data@.len() == 0 ==> r@.len() == 0,
{
    base64::engine::general_purpose::URL_SAFE_NO_PAD.encode(data)
}

/// The challenge that belongs to a verifier.
pub open spec fn pkce_challenge_of(verifier: Seq<char>) -> Seq<char> {
    b64url_nopad_of(sha256_of(encode_utf8(verifier)))
}

/// A verifier matches a challenge exactly when the challenge is the one
/// computed from the verifier.
pub open spec fn pkce_matches(verifier: Seq<char>, challenge: Seq<char>) -> bool {
    pkce_challenge_of(verifier) == challenge
}

/// Compute the S256 challenge for a verifier.
pub fn make_pkce_challenge(verifier: &str) -> (r: String)
    ensures
        r@ == pkce_challenge_of(verifier@),
{
    let digest = sha256(verifier.as_bytes());
    b64url_nopad_encode(digest.as_slice())
}

/// Check a verifier against a stored challenge. S256 is the only method the
/// server accepts; `plain` is rejected at parse time.
pub fn verify_pkce(code_verifier: &str, code_challenge: &str) -> (r: bool)
    ensures
        r == pkce_matches(code_verifier@, code_challenge@),
{
    let computed = make_pkce_challenge(code_verifier);
    crate::strutil::str_eq(computed.as_str(), code_challenge)
}

/// Law: every verifier matches the challenge computed from itself.
pub proof fn lemma_pkce_round_trip(verifier: Seq<char>)
    ensures
        pkce_matches(verifier, pkce_challenge_of(verifier)),
{
}

} // verus!
