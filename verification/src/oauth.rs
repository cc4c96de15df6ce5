//! The OAuth token endpoint's decisions: the authorization-code grant with
//! PKCE and the client-credentials grant.
//!
//! Expired pending authorizations are cleaned up first; an authorization
//! code is consumed whether or not the rest of the grant succeeds; the
//! redirect URI must equal the one the code was minted for; the verifier
//! must match the stored challenge. Credential and grant failures carry the
//! RFC error codes and never say which check failed beyond them.

use vstd::prelude::*;
use crate::credentials::{ClientInfo, CredentialValidator, InvalidCredentials, StaticClientValidator};
use crate::pending::{
    entry_live, has_code, kept_entries, spec_lookup, without_code, AuthorizationStore,
    PendingAuthorization,
};
use crate::pkce::{pkce_matches, verify_pkce};
use crate::token::{
    exp_as_int, hs256_token_of, spec_exp_ok, spec_expiry, spec_issuer, Claims, JwtTokenIssuer,
    JwtTokenValidator, TokenError, TokenIssuer, TokenResponse, TokenValidator,
};
use vstd::utf8::encode_utf8;

verus! {

/// Configuration of the authentication system.
#[derive(Debug)]
pub struct AuthConfig {
    pub jwt_secret: String,
    pub client_id: String,
    pub client_secret: String,
    /// Token lifetime in seconds; none means tokens never expire.
    pub token_expiration_s: Option<u64>,
}

/// The grant types the token endpoint accepts.
#[derive(Debug, Clone, Copy, PartialEq, Eq, Structural)]
pub enum GrantType {
    AuthorizationCode,
    ClientCredentials,
}

/// A form-posted token request, either grant type.
#[derive(Debug)]
pub struct TokenRequest {
    pub grant_type: GrantType,
    pub client_id: Option<String>,
    pub client_secret: Option<String>,
    pub code: Option<String>,
    pub code_verifier: Option<String>,
    pub redirect_uri: Option<String>,
}

/// An RFC-shaped OAuth error body.
#[derive(Debug)]
pub struct ErrorResponse {
    pub error: String,
    pub error_description: Option<String>,
}

/// What the token endpoint answers: a token, or a status and error body.
#[derive(Debug)]
pub enum TokenOutcome {
    Granted(TokenResponse),
    Denied { status: u16, body: ErrorResponse },
}

/// The complete OAuth service: credential validation, token issuance and
/// token verification over one configuration.
pub struct OAuthService {
    credential_validator: StaticClientValidator,
    token_issuer: JwtTokenIssuer,
    token_validator: JwtTokenValidator,
}

impl OAuthService {
    /// Which client id / secret pairs the service accepts.
    pub closed spec fn spec_accepts(&self, id: Seq<char>, secret: Seq<char>) -> bool {
        self.credential_validator.accepts(id, secret)
    }

    /// The default token lifetime.
    pub closed spec fn spec_default_expiration(&self) -> Option<u64> {
        self.token_issuer.spec_default_expiration()
    }

    /// The bytes tokens are signed with.
    pub closed spec fn spec_signing_secret(&self) -> Seq<u8> {
        self.token_issuer.spec_secret()
    }

    /// The bytes tokens are verified against.
    pub closed spec fn spec_validation_secret(&self) -> Seq<u8> {
        self.token_validator.spec_secret()
    }

    /// A service that accepts exactly the configured static client, signs
    /// with the configured secret, and gives tokens the configured
    /// lifetime.
    pub fn new(config: AuthConfig) -> (r: Self)
        ensures
            forall|id: Seq<char>, secret: Seq<char>|
                #[trigger] r.spec_accepts(id, secret) <==> (id == config.client_id@ && secret
                    == config.client_secret@),
            r.spec_default_expiration() == config.token_expiration_s,
            r.spec_signing_secret() == encode_utf8(config.jwt_secret@),
            r.spec_validation_secret() == encode_utf8(config.jwt_secret@),
    {
        let secret_bytes = config.jwt_secret.as_str().as_bytes_vec();
        let secret_bytes2 = crate::strutil::clone_string(&config.jwt_secret).as_str().as_bytes_vec();
        OAuthService {
            credential_validator: StaticClientValidator::new(config.client_id, config.client_secret),
            token_issuer: JwtTokenIssuer::new(secret_bytes, config.token_expiration_s),
            token_validator: JwtTokenValidator::new(secret_bytes2),
        }
    }

    /// Validate presented client credentials, succeeding exactly on the
    /// accepted pair.
    pub fn validate_credentials(&self, client_id: &str, client_secret: &str) -> (r: Result<
        ClientInfo,
        InvalidCredentials,
    >)
        ensures
            r is Ok <==> self.spec_accepts(client_id@, client_secret@),
            r matches Ok(info) ==> info.client_id@ == client_id@,
    {
        self.credential_validator.validate(client_id, client_secret)
    }

    /// Issue a token for a client with the default lifetime: issuance
    /// always succeeds, and the token is the HS256 encoding, under the
    /// signing secret, of claims whose subject is the client, with the
    /// fixed issuer and the configured expiry from the drawn issue time.
    pub fn issue_token(&self, client_id: &str) -> (r: Result<TokenResponse, TokenError>)
        ensures
            r is Ok,
            r matches Ok(t) ==> t.token_type@ == "Bearer"@,
            r matches Ok(t) ==> t.expires_in == self.spec_default_expiration(),
            r matches Ok(t) ==> spec_issued_for(*self, client_id@, t),
    {
        let duration = self.token_issuer.default_expiration();
        let now = crate::ids::unix_time_seconds();
        let jti = crate::ids::new_uuid_string();
        let r = self.token_issuer.issue_token_at(client_id, duration, now, jti.as_str());
        proof {
            if r is Ok {
                let t = r->Ok_0;
                assert(t.access_token@ == hs256_token_of(
                    self.spec_signing_secret(),
                    client_id@,
                    now as int,
                    spec_exp_of(now, self.spec_default_expiration()),
                    jti@,
                    spec_issuer(),
                ));
            }
        }
        r
    }

    /// Validate a bearer token, giving its claims only when every check
    /// passes; the issuer is always the fixed one. The clock is drawn here;
    /// `validate_token_at` carries the exact contract for a given time.
    pub fn validate_token(&self, token: &str) -> (r: Result<Claims, TokenError>)
        ensures
            r matches Ok(c) ==> c.iss@ == crate::token::spec_issuer(),
            r matches Ok(c) ==> crate::token::hs256_decoded_of(
                self.spec_validation_secret(),
                token@,
            ) is Some,
    {
        let now = crate::ids::unix_time_seconds();
        self.validate_token_at(token, now)
    }

    /// Validate a bearer token against the time `now`: the claims come back
    /// exactly when the token decodes under the secret and is not expired at
    /// `now`, and a token that is the encoding of unexpired claims with the
    /// fixed issuer always validates to exactly those claims.
    pub fn validate_token_at(&self, token: &str, now: i64) -> (r: Result<Claims, TokenError>)
        ensures
            r is Ok <==> (crate::token::hs256_decoded_of(self.spec_validation_secret(), token@)
                matches Some(d) && spec_exp_ok(d.exp, now as int)),
            r matches Ok(c) ==> (crate::token::hs256_decoded_of(
                self.spec_validation_secret(),
                token@,
            ) matches Some(d) && (c.sub@ == d.sub && c.iat as int == d.iat && exp_as_int(c.exp)
                == d.exp && c.jti@ == d.jti && c.iss@ == spec_issuer())),
            forall|sub: Seq<char>, iat: i64, exp: Option<i64>, jti: Seq<char>|
                (token@ == hs256_token_of(
                    self.spec_validation_secret(),
                    sub,
                    iat as int,
                    exp_as_int(exp),
                    jti,
                    spec_issuer(),
                ) && spec_exp_ok(exp_as_int(exp), now as int)) ==> (r matches Ok(c) && (c.sub@
                    == sub && c.iat == iat && c.exp == exp && c.jti@ == jti)),
    {
        self.token_validator.validate_token_at(token, now)
    }
}

/// The expiry written into a token issued at `now` with lifetime `d`.
pub open spec fn spec_exp_of(now: i64, d: Option<u64>) -> Option<int> {
    match d {
        Some(dd) => Some(spec_expiry(now, dd) as int),
        None => None,
    }
}

/// A granted token response for `sub`: a Bearer token with the service's
/// default lifetime whose access token is the HS256 encoding, under the
/// service's signing secret, of claims with subject `sub`, the fixed issuer,
/// and the configured expiry from some issue time and fresh identifier.
pub open spec fn spec_issued_for(service: OAuthService, sub: Seq<char>, t: TokenResponse) -> bool {
    &&& t.token_type@ == "Bearer"@
    &&& t.expires_in == service.spec_default_expiration()
    &&& exists|iat: i64, jti: Seq<char>|
        t.access_token@ == hs256_token_of(
            service.spec_signing_secret(),
            sub,
            iat as int,
            spec_exp_of(iat, service.spec_default_expiration()),
            jti,
            spec_issuer(),
        )
}

/// The store's entries after the cleanup and any code consumption a token
/// request performs: expired entries go first; when both `code` and
/// `code_verifier` were presented, the entry under that code is consumed.
pub open spec fn spec_store_after_auth_code(
    s: Seq<crate::pending::PendingEntry>,
    req: TokenRequest,
    now: u64,
) -> Seq<crate::pending::PendingEntry> {
    let live = kept_entries(s, entry_live(now));
    if req.code is Some && req.code_verifier is Some {
        without_code(live, req.code->0@)
    } else {
        live
    }
}

/// Why an authorization-code grant fails, given the record the presented
/// code resolved to among the live entries: a missing parameter is an
/// `invalid_request`; an unknown or expired code, a redirect mismatch or a
/// failed PKCE check is an `invalid_grant`. No failure says more.
pub open spec fn spec_auth_code_failure(
    req: TokenRequest,
    looked: Option<PendingAuthorization>,
) -> Option<(u16, Seq<char>)> {
    if req.code is None {
        Some((400u16, "invalid_request"@))
    } else if req.code_verifier is None {
        Some((400u16, "invalid_request"@))
    } else {
        match looked {
            None => Some((400u16, "invalid_grant"@)),
            Some(p) => {
                if req.redirect_uri is None {
                    Some((400u16, "invalid_request"@))
                } else if req.redirect_uri->0@ != p.redirect_uri@ {
                    Some((400u16, "invalid_grant"@))
                } else if !pkce_matches(req.code_verifier->0@, p.code_challenge@) {
                    Some((400u16, "invalid_grant"@))
                } else {
                    None
                }
            },
        }
    }
}

fn denied(status: u16, error: &str, description: &str) -> (r: TokenOutcome)
    ensures
        r matches TokenOutcome::Denied { status: s, body } && (s == status && body.error@ == error@
            && (body.error_description matches Some(d) && d@ == description@)),
{
    TokenOutcome::Denied {
        status,
        body: ErrorResponse {
            error: String::from_str(error),
            error_description: Some(String::from_str(description)),
        },
    }
}

/// Decide an authorization-code token request: clean up expired entries,
/// demand `code` and `code_verifier`, consume the code, demand the stored
/// redirect URI and a matching PKCE verifier, and issue a token for the
/// stored client. The outcome is exactly what the failure rules say; a
/// token is granted only when no rule fails and encoding succeeds, and a
/// grant carries a Bearer token with the service's default lifetime.
pub fn token_authorization_code(
    service: &OAuthService,
    store: &mut AuthorizationStore,
    req: &TokenRequest,
    now: u64,
) -> (r: TokenOutcome)
    requires
        old(store).wf(),
    ensures
        final (store).wf(),
        final (store).entries_view() == spec_store_after_auth_code(
            old(store).entries_view(),
            *req,
            now,
        ),
        ({
            let looked = spec_lookup(
                kept_entries(old(store).entries_view(), entry_live(now)),
                if req.code is Some {
                    req.code->0@
                } else {
                    Seq::empty()
                },
            );
            &&& (spec_auth_code_failure(*req, looked) matches Some(f) ==> r matches
                TokenOutcome::Denied { status, body } && status == f.0 && body.error@ == f.1)
            &&& (spec_auth_code_failure(*req, looked) is None ==> (r matches TokenOutcome::Granted(
                t,
            ) && spec_issued_for(*service, looked->0.client_id@, t)))
            &&& (r is Granted ==> spec_auth_code_failure(*req, looked) is None)
        }),
{
    store.cleanup_expired(now);
    let ghost live = store.entries_view();
    let code = match &req.code {
        Some(c) => c,
        None => {
            return denied(400, "invalid_request", "Missing required parameter: code");
        },
    };
    let code_verifier = match &req.code_verifier {
        Some(v) => v,
        None => {
            return denied(400, "invalid_request", "Missing required parameter: code_verifier");
        },
    };
    let taken = store.take_pending(code.as_str());
    proof {
        crate::pending::lemma_lookup_props(live, code@);
        if taken is Some {
            assert(has_code(live, code@));
            let j = choose|j: int| 0 <= j < live.len() && (#[trigger] live[j].0)@ == code@;
            assert(taken == Some(live[j].1));
            assert(spec_lookup(live, code@) == Some(live[j].1));
        }
    }
    let pending = match taken {
        Some(p) => p,
        None => {
            return denied(400, "invalid_grant", "Invalid or expired authorization code");
        },
    };
    let redirect_uri = match &req.redirect_uri {
        Some(u) => u,
        None => {
            return denied(400, "invalid_request", "Missing required parameter: redirect_uri");
        },
    };
    if !crate::strutil::str_eq(redirect_uri.as_str(), pending.redirect_uri.as_str()) {
        return denied(400, "invalid_grant", "redirect_uri mismatch");
    }
    if !verify_pkce(code_verifier.as_str(), pending.code_challenge.as_str()) {
        return denied(400, "invalid_grant", "PKCE verification failed");
    }
    match service.issue_token(pending.client_id.as_str()) {
        Ok(t) => TokenOutcome::Granted(t),
        Err(_) => denied(500, "server_error", "Failed to issue token"),
    }
}

/// Why a client-credentials grant fails: a missing parameter is an
/// `invalid_request`; a rejected pair is one opaque `invalid_client`.
pub open spec fn spec_client_credentials_failure(service: OAuthService, req: TokenRequest) -> Option<
    (u16, Seq<char>),
> {
    if req.client_id is None {
        Some((400u16, "invalid_request"@))
    } else if req.client_secret is None {
        Some((400u16, "invalid_request"@))
    } else if !service.spec_accepts(req.client_id->0@, req.client_secret->0@) {
        Some((401u16, "invalid_client"@))
    } else {
        None
    }
}

/// Decide a client-credentials token request: demand `client_id` and
/// `client_secret`, validate them in constant time, and issue a token for
/// the client. The outcome is exactly what the failure rules say; a grant
/// carries a Bearer token with the service's default lifetime.
pub fn token_client_credentials(service: &OAuthService, req: &TokenRequest) -> (r: TokenOutcome)
    ensures
        spec_client_credentials_failure(*service, *req) matches Some(f) ==> r matches
            TokenOutcome::Denied { status, body } && status == f.0 && body.error@ == f.1,
        spec_client_credentials_failure(*service, *req) is None ==> (r matches
            TokenOutcome::Granted(t) && spec_issued_for(*service, req.client_id->0@, t)),
        r is Granted ==> spec_client_credentials_failure(*service, *req) is None,
{
    let client_id = match &req.client_id {
        Some(c) => c,
        None => {
            return denied(400, "invalid_request", "Missing required parameter: client_id");
        },
    };
    let client_secret = match &req.client_secret {
        Some(s) => s,
        None => {
            return denied(400, "invalid_request", "Missing required parameter: client_secret");
        },
    };
    match service.validate_credentials(client_id.as_str(), client_secret.as_str()) {
        Ok(info) => match service.issue_token(info.client_id.as_str()) {
            Ok(t) => TokenOutcome::Granted(t),
            Err(_) => denied(500, "server_error", "Failed to issue token"),
        },
        Err(_) => denied(401, "invalid_client", "Client authentication failed"),
    }
}

/// Decide a token request by its grant type: each grant's whole contract is
/// carried through.
pub fn handle_token_request(
    service: &OAuthService,
    store: &mut AuthorizationStore,
    req: &TokenRequest,
    now: u64,
) -> (r: TokenOutcome)
    requires
        old(store).wf(),
    ensures
        final (store).wf(),
        req.grant_type == GrantType::ClientCredentials ==> *final (store) == *old(store),
        req.grant_type == GrantType::AuthorizationCode ==> final (store).entries_view()
            == spec_store_after_auth_code(old(store).entries_view(), *req, now),
        req.grant_type == GrantType::AuthorizationCode ==> ({
            let looked = spec_lookup(
                kept_entries(old(store).entries_view(), entry_live(now)),
                if req.code is Some {
                    req.code->0@
                } else {
                    Seq::empty()
                },
            );
            &&& (spec_auth_code_failure(*req, looked) matches Some(f) ==> r matches
                TokenOutcome::Denied { status, body } && status == f.0 && body.error@ == f.1)
            &&& (spec_auth_code_failure(*req, looked) is None ==> (r matches TokenOutcome::Granted(
                t,
            ) && spec_issued_for(*service, looked->0.client_id@, t)))
            &&& (r is Granted ==> spec_auth_code_failure(*req, looked) is None)
        }),
        req.grant_type == GrantType::ClientCredentials ==> ({
            &&& (spec_client_credentials_failure(*service, *req) matches Some(f) ==> r matches
                TokenOutcome::Denied { status, body } && status == f.0 && body.error@ == f.1)
            &&& (spec_client_credentials_failure(*service, *req) is None ==> (r matches
                TokenOutcome::Granted(t) && spec_issued_for(*service, req.client_id->0@, t)))
            &&& (r is Granted ==> spec_client_credentials_failure(*service, *req) is None)
        }),
{
    match req.grant_type {
        GrantType::AuthorizationCode => token_authorization_code(service, store, req, now),
        GrantType::ClientCredentials => token_client_credentials(service, req),
    }
}

} // verus!
