//! JWT issuance and validation, HS256 over a shared secret.
//!
//! Issued claims carry the client id as subject, the issue time, an optional
//! expiry, a fresh identifier, and the fixed issuer. Validation requires the
//! signature, the `sub` and `iat` claims, the configured issuer, and honours
//! `exp` when present. Either failure is reported as one opaque error.

use vstd::prelude::*;
use jsonwebtoken::{decode, encode, Algorithm, DecodingKey, EncodingKey, Header, Validation};
use serde_json::Value;

verus! {

/// The fixed issuer this gateway writes into and demands of every token.
pub open spec fn spec_issuer() -> Seq<char> {
    "yamos"@
}

/// The claims carried by a gateway token.
#[derive(Debug, Clone)]
pub struct Claims {
    /// Subject: the client the token was issued to.
    pub sub: String,
    /// Seconds since the epoch at which the token was issued.
    pub iat: i64,
    /// Seconds since the epoch at which the token expires, if it does.
    pub exp: Option<i64>,
    /// Fresh identifier, unique per token.
    pub jti: String,
    /// Issuer.
    pub iss: String,
}

/// What a successful token grant hands to the client.
#[derive(Debug, Clone)]
pub struct TokenResponse {
    pub access_token: String,
    pub token_type: String,
    /// Lifetime of the token in seconds, when it expires at all.
    pub expires_in: Option<u64>,
}

/// The one error token work reports: deliberately opaque.
#[derive(Debug, Clone, Copy, PartialEq, Eq, Structural)]
pub struct TokenError;

impl TokenError {
    /// Fixed description, the same for every failure.
    pub fn message(&self) -> (r: &'static str)
        ensures
            r@ == "Invalid token"@,
    {
        "Invalid token"
    }
}

/// The HS256 JWT that jsonwebtoken encodes for the given key and claims: a
/// deterministic function of both.
pub uninterp spec fn hs256_token_of(
    secret: Seq<u8>,
    sub: Seq<char>,
    iat: int,
    exp: Option<int>,
    jti: Seq<char>,
    iss: Seq<char>,
) -> Seq<char>;

/// Relies on jsonwebtoken::encode with the default (HS256) header and a key
/// from these secret bytes: the token is a deterministic function of the key
/// and the claims, and encoding cannot fail here — HMAC accepts a key of any
/// length and serializing this map of strings and integers is total.
#[verifier::external_body]
fn jwt_encode_hs256(secret: &[u8], sub: &str, iat: i64, exp: Option<i64>, jti: &str) -> (r: Result<
    String,
    TokenError,
>)
    ensures
        r is Ok,
        r matches Ok(t) ==> t@ == hs256_token_of(
            secret@,
            sub@,
            iat as int,
            exp_as_int(exp),
            jti@,
            spec_issuer(),
        ),
{
    let mut claims = serde_json::Map::new();
    claims.insert("sub".to_string(), Value::from(sub));
    claims.insert("iat".to_string(), Value::from(iat));
    if let Some(e) = exp {
        claims.insert("exp".to_string(), Value::from(e));
    }
    claims.insert("jti".to_string(), Value::from(jti));
    claims.insert("iss".to_string(), Value::from("yamos"));
    let key = EncodingKey::from_secret(secret);
    encode(&Header::default(), &Value::Object(claims), &key).map_err(|_| TokenError)
}

/// The optional expiry as a mathematical integer.
pub open spec fn exp_as_int(exp: Option<i64>) -> Option<int> {
    match exp {
        Some(e) => Some(e as int),
        None => None,
    }
}

/// The claims a token decodes to, at the specification level.
pub struct DecodedClaims {
    pub sub: Seq<char>,
    pub iat: int,
    pub exp: Option<int>,
    pub jti: Seq<char>,
}

/// What jsonwebtoken's HS256 decode makes of a token under a secret, with
/// the issuer pinned to the fixed one and expiry left to the caller: a pure
/// function of the secret and the token.
pub uninterp spec fn hs256_decoded_of(secret: Seq<u8>, token: Seq<char>) -> Option<DecodedClaims>;

/// Relies on jsonwebtoken::decode with HS256, the issuer pinned to the fixed
/// one, `sub`, `iat` and `iss` required, and expiry checking turned off (the
/// library checks expiry itself, against a time it is given): decoding is
/// then a pure function of the secret and the token, and a token that is
/// exactly the HS256 encoding of some claims under the same secret decodes
/// to those claims.
#[verifier::external_body]
fn jwt_decode_hs256(secret: &[u8], token: &str) -> (r: Result<
    (String, i64, Option<i64>, String),
    TokenError,
>)
    ensures
        match r {
            Ok(c) => hs256_decoded_of(secret@, token@) == Some(
                DecodedClaims { sub: c.0@, iat: c.1 as int, exp: exp_as_int(c.2), jti: c.3@ },
            ),
            Err(_) => hs256_decoded_of(secret@, token@) is None,
        },
        r matches Ok(c) ==> (forall|sub: Seq<char>, iat: i64, exp: Option<i64>, jti: Seq<char>|
            token@ == hs256_token_of(secret@, sub, iat as int, exp_as_int(exp), jti, spec_issuer())
                ==> (c.0@ == sub && c.1 == iat && c.2 == exp && c.3@ == jti)),
        r is Err ==> (forall|sub: Seq<char>, iat: i64, exp: Option<i64>, jti: Seq<char>|
            token@ != hs256_token_of(
                secret@,
                sub,
                iat as int,
                exp_as_int(exp),
                jti,
                spec_issuer(),
            )),
{
    let mut v = Validation::new(Algorithm::HS256);
    v.set_issuer(&["yamos"]);
    v.set_required_spec_claims(&["sub", "iat", "iss"]);
    v.validate_exp = false;
    let key = DecodingKey::from_secret(secret);
    let c = decode::<Value>(token, &key, &v).map_err(|_| TokenError)?.claims;
    let sub = c.get("sub").and_then(Value::as_str).ok_or(TokenError)?.to_string();
    let iat = c.get("iat").and_then(Value::as_i64).ok_or(TokenError)?;
    let jti = c.get("jti").and_then(Value::as_str).unwrap_or("").to_string();
    Ok((sub, iat, c.get("exp").and_then(Value::as_i64), jti))
}

/// A token's expiry is acceptable at `now` when it has none, or when it has
/// not passed by more than the sixty seconds of leeway.
pub open spec fn spec_exp_ok(exp: Option<int>, now: int) -> bool {
    match exp {
        Some(e) => e >= now - 60,
        None => true,
    }
}

/// Anything that can issue access tokens.
pub trait TokenIssuer {
    /// The lifetime given to tokens when the caller asks for none.
    spec fn spec_default_expiration(&self) -> Option<u64>;

    /// Issue a token for `client_id`, living for `custom_duration_s` seconds
    /// when given, else for the issuer's default.
    fn issue_token(&self, client_id: &str, custom_duration_s: Option<u64>) -> (r: Result<
        TokenResponse,
        TokenError,
    >)
        ensures
            r matches Ok(t) ==> t.token_type@ == "Bearer"@,
            r matches Ok(t) ==> t.expires_in == (if custom_duration_s is Some {
                custom_duration_s
            } else {
                self.spec_default_expiration()
            }),
    ;
}

/// Anything that can check an access token and give back its claims.
pub trait TokenValidator {
    /// The issuer this validator demands.
    spec fn spec_required_issuer(&self) -> Seq<char>;

    /// Validate a token, giving its claims only when every check passes.
    fn validate_token(&self, token: &str) -> (r: Result<Claims, TokenError>)
        ensures
            r matches Ok(c) ==> c.iss@ == self.spec_required_issuer(),
    ;
}

/// Issues HS256 tokens over a configured secret.
pub struct JwtTokenIssuer {
    secret: Vec<u8>,
    default_expiration_s: Option<u64>,
}

/// The expiry instant: the issue time plus the lifetime, saturating at the
/// largest representable time.
pub open spec fn spec_expiry(now: i64, d: u64) -> i64 {
    let dd: int = if d > i64::MAX as u64 {
        i64::MAX as int
    } else {
        d as int
    };
    if now + dd <= i64::MAX {
        (now + dd) as i64
    } else {
        i64::MAX
    }
}

impl JwtTokenIssuer {
    /// The configured signing secret.
    pub closed spec fn spec_secret(&self) -> Seq<u8> {
        self.secret@
    }

    /// The configured default lifetime.
    pub fn default_expiration(&self) -> (r: Option<u64>)
        ensures
            r == self.spec_default_expiration(),
    {
        self.default_expiration_s
    }

    /// An issuer signing with `secret`, defaulting to `default_expiration_s`
    /// seconds of lifetime (none meaning tokens that never expire).
    pub fn new(secret: Vec<u8>, default_expiration_s: Option<u64>) -> (r: Self)
        ensures
            r.spec_secret() == secret@,
            r.spec_default_expiration() == default_expiration_s,
    {
        JwtTokenIssuer { secret, default_expiration_s }
    }

    /// Issue a token dated `now` with the given fresh identifier: the token
    /// is the HS256 encoding of exactly these claims under the secret.
    pub fn issue_token_at(
        &self,
        client_id: &str,
        duration_s: Option<u64>,
        now: i64,
        jti: &str,
    ) -> (r: Result<TokenResponse, TokenError>)
        ensures
            r is Ok,
            r matches Ok(t) ==> t.token_type@ == "Bearer"@,
            r matches Ok(t) ==> t.expires_in == duration_s,
            r matches Ok(t) ==> t.access_token@ == hs256_token_of(
                self.spec_secret(),
                client_id@,
                now as int,
                match duration_s {
                    Some(d) => Some(spec_expiry(now, d) as int),
                    None => None,
                },
                jti@,
                spec_issuer(),
            ),
    {
        let exp: Option<i64> = match duration_s {
            Some(d) => {
                let dd: i64 = if d > i64::MAX as u64 {
                    i64::MAX
                } else {
                    d as i64
                };
                if now <= i64::MAX - dd {
                    Some(now + dd)
                } else {
                    Some(i64::MAX)
                }
            },
            None => None,
        };
        let token = jwt_encode_hs256(self.secret.as_slice(), client_id, now, exp, jti)?;
        Ok(
            TokenResponse {
                access_token: token,
                token_type: "Bearer".to_owned(),
                expires_in: duration_s,
            },
        )
    }
}

impl TokenIssuer for JwtTokenIssuer {
    closed spec fn spec_default_expiration(&self) -> Option<u64> {
        self.default_expiration_s
    }

    fn issue_token(&self, client_id: &str, custom_duration_s: Option<u64>) -> (r: Result<
        TokenResponse,
        TokenError,
    >) {
        let duration = match custom_duration_s {
            Some(d) => Some(d),
            None => self.default_expiration_s,
        };
        let now = crate::ids::unix_time_seconds();
        let jti = crate::ids::new_uuid_string();
        self.issue_token_at(client_id, duration, now, jti.as_str())
    }
}

/// Validates HS256 tokens over a configured secret, demanding the fixed
/// issuer.
pub struct JwtTokenValidator {
    secret: Vec<u8>,
}

impl JwtTokenValidator {
    /// The configured secret.
    pub closed spec fn spec_secret(&self) -> Seq<u8> {
        self.secret@
    }

    /// A validator checking signatures against `secret`.
    pub fn new(secret: Vec<u8>) -> (r: Self)
        ensures
            r.spec_secret() == secret@,
    {
        JwtTokenValidator { secret }
    }

    /// Validate a token against the time `now`: the claims come back exactly
    /// when the token decodes under the secret and its expiry, if any, has
    /// not passed at `now` (sixty seconds of leeway); the claims are the
    /// decoded ones with the fixed issuer, and a token that is the encoding
    /// of some unexpired claims under this secret always validates to them.
    pub fn validate_token_at(&self, token: &str, now: i64) -> (r: Result<Claims, TokenError>)
        ensures
            r is Ok <==> (hs256_decoded_of(self.spec_secret(), token@) matches Some(d)
                && spec_exp_ok(d.exp, now as int)),
            r matches Ok(c) ==> (hs256_decoded_of(self.spec_secret(), token@) matches Some(d) && (
            c.sub@ == d.sub && c.iat as int == d.iat && exp_as_int(c.exp) == d.exp && c.jti@
                == d.jti && c.iss@ == spec_issuer())),
            forall|sub: Seq<char>, iat: i64, exp: Option<i64>, jti: Seq<char>|
                (token@ == hs256_token_of(
                    self.spec_secret(),
                    sub,
                    iat as int,
                    exp_as_int(exp),
                    jti,
                    spec_issuer(),
                ) && spec_exp_ok(exp_as_int(exp), now as int)) ==> (r matches Ok(c) && (c.sub@
                    == sub && c.iat == iat && c.exp == exp && c.jti@ == jti)),
    {
        let decoded = jwt_decode_hs256(self.secret.as_slice(), token);
        match decoded {
            Ok((sub, iat, exp, jti)) => {
                let live = match exp {
                    Some(e) => (e as i128) >= (now as i128) - 60,
                    None => true,
                };
                if live {
                    Ok(Claims { sub, iat, exp, jti, iss: String::from_str("yamos") })
                } else {
                    Err(TokenError)
                }
            },
            Err(e) => Err(e),
        }
    }
}

impl TokenValidator for JwtTokenValidator {
    open spec fn spec_required_issuer(&self) -> Seq<char> {
        spec_issuer()
    }

    fn validate_token(&self, token: &str) -> (r: Result<Claims, TokenError>) {
        let now = crate::ids::unix_time_seconds();
        self.validate_token_at(token, now)
    }
}

} // verus!
