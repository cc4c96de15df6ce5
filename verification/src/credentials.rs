//! Credential validation for the client-credentials grant.
//!
//! The static validator compares the presented client id and secret against
//! the configured pair using constant-time byte comparison: it never branches
//! on which byte, or which of the two fields, mismatched, and always answers
//! with the same opaque error.

use vstd::prelude::*;
use vstd::utf8::encode_utf8_decode_utf8;

verus! {

/// The one error credential validation reports: deliberately opaque, so a
/// caller cannot tell an unknown client from a wrong secret.
#[derive(Debug, Clone, Copy, PartialEq, Eq, Structural)]
pub struct InvalidCredentials;

impl InvalidCredentials {
    /// Fixed description, the same for every failure.
    pub fn message(&self) -> (r: &'static str)
        ensures
            r@ == "Invalid client credentials"@,
    {
        "Invalid client credentials"
    }
}

/// The authenticated client a successful validation reports.
#[derive(Debug, Clone)]
pub struct ClientInfo {
    pub client_id: String,
    pub scopes: Vec<String>,
}

/// Anything that can decide whether a client id / secret pair is valid.
pub trait CredentialValidator {
    /// Which id / secret pairs this validator accepts.
    spec fn accepts(&self, client_id: Seq<char>, client_secret: Seq<char>) -> bool;

    /// Validate a presented pair, succeeding exactly on accepted pairs.
    fn validate(&self, client_id: &str, client_secret: &str) -> (r: Result<
        ClientInfo,
        InvalidCredentials,
    >)
        ensures
            r is Ok <==> self.accepts(client_id@, client_secret@),
            r matches Ok(info) ==> info.client_id@ == client_id@,
    ;
}

proof fn lemma_utf8_eq(a: Seq<char>, b: Seq<char>)
    ensures
        (encode_utf8(a) == encode_utf8(b)) == (a == b),
{
    broadcast use encode_utf8_decode_utf8;

    if encode_utf8(a) == encode_utf8(b) {
        assert(decode_utf8(encode_utf8(a)) == a);
        assert(decode_utf8(encode_utf8(b)) == b);
    }
}

use vstd::utf8::{decode_utf8, encode_utf8};

/// Compare two strings in time that depends only on their lengths: the
/// lengths are compared, then every byte is folded into an accumulator with
/// XOR and OR, with no data-dependent branch.
pub fn constant_time_compare(a: &str, b: &str) -> (r: bool)
    ensures
        r == (a@ == b@),
{
    let ab = a.as_bytes_vec();
    let bb = b.as_bytes_vec();
    proof {
        lemma_utf8_eq(a@, b@);
    }
    if ab.len() != bb.len() {
        return false;
    }
    let n = ab.len();
    let mut acc: u8 = 0;
    let mut i: usize = 0;
    while i < n
        invariant
            n == ab@.len(),
            n == bb@.len(),
            i <= n,
            (acc == 0) <==> (forall|j: int| 0 <= j < i ==> ab@[j] == bb@[j]),
        decreases n - i,
    {
        let x = ab[i];
        let y = bb[i];
        let ghost acc0 = acc;
        acc = acc | (x ^ y);
        proof {
            assert((acc0 | (x ^ y)) == 0 <==> acc0 == 0 && x == y) by (bit_vector);
        }
        i = i + 1;
    }
    let r = acc == 0;
    proof {
        if r {
            assert(ab@ =~= bb@);
        } else {
            if a@ == b@ {
                assert(ab@ =~= bb@);
            }
        }
    }
    r
}

/// Validator for the single statically configured client.
pub struct StaticClientValidator {
    expected_client_id: String,
    expected_client_secret: String,
}

impl StaticClientValidator {
    /// The configured client id.
    pub closed spec fn spec_client_id(&self) -> Seq<char> {
        self.expected_client_id@
    }

    /// The configured client secret.
    pub closed spec fn spec_client_secret(&self) -> Seq<char> {
        self.expected_client_secret@
    }

    /// A validator that accepts exactly the given pair.
    pub fn new(client_id: String, client_secret: String) -> (r: Self)
        ensures
            r.spec_client_id() == client_id@,
            r.spec_client_secret() == client_secret@,
    {
        StaticClientValidator { expected_client_id: client_id, expected_client_secret: client_secret }
    }
}

impl CredentialValidator for StaticClientValidator {
    open spec fn accepts(&self, client_id: Seq<char>, client_secret: Seq<char>) -> bool {
        client_id == self.spec_client_id() && client_secret == self.spec_client_secret()
    }

    fn validate(&self, client_id: &str, client_secret: &str) -> (r: Result<
        ClientInfo,
        InvalidCredentials,
    >) {
        let id_ok = constant_time_compare(client_id, self.expected_client_id.as_str());
        let secret_ok = constant_time_compare(client_secret, self.expected_client_secret.as_str());
        if id_ok && secret_ok {
            Ok(ClientInfo { client_id: client_id.to_owned(), scopes: Vec::new() })
        } else {
            Err(InvalidCredentials)
        }
    }
}

} // verus!
