//! Bearer-token extraction and the authentication decisions of the HTTP
//! middleware, plus the choice of authentication mode at startup.
//!
//! A missing or malformed Authorization header, like an invalid token, is
//! answered 401 with a `WWW-Authenticate` header pointing at the
//! protected-resource metadata. The legacy variant compares a static token
//! in constant time.

use vstd::prelude::*;
use crate::oauth::{AuthConfig, OAuthService};
use crate::token::{Claims, TokenError};
use crate::strutil::starts_with;

verus! {

/// What the JWT middleware needs: the service that verifies tokens and the
/// public base URL named in challenges.
pub struct AuthMiddlewareConfig {
    pub oauth_service: OAuthService,
    pub base_url: String,
}

/// The token of a well-formed `Bearer` Authorization header.
pub open spec fn spec_bearer_token(header: Option<String>) -> Option<Seq<char>> {
    match header {
        Some(h) => if starts_with(h@, "Bearer "@) {
            Some(h@.skip(7))
        } else {
            None
        },
        None => None,
    }
}

/// Extract the token from an Authorization header, if it carries one.
pub fn bearer_token_of(header: &Option<String>) -> (r: Option<String>)
    ensures
        (match (r, spec_bearer_token(*header)) {
            (Some(t), Some(s)) => t@ == s,
            (None, None) => true,
            _ => false,
        }),
{
    match header {
        Some(h) => {
            if crate::strutil::str_starts_with(h.as_str(), "Bearer ") {
                let n = h.as_str().unicode_len();
                proof {
                    reveal_strlit("Bearer ");
                }
                let t = String::from_str(h.as_str().substring_char(7, n));
                proof {
                    assert(h@.subrange(7, n as int) =~= h@.skip(7));
                }
                Some(t)
            } else {
                None
            }
        },
        None => None,
    }
}

/// The `WWW-Authenticate` value for a challenge: realm and
/// resource-metadata location, and the error code when one is named.
pub open spec fn spec_www_authenticate(base_url: Seq<char>, error: Option<Seq<char>>) -> Seq<
    char,
> {
    "Bearer realm=\""@ + base_url + "\", resource_metadata=\""@ + base_url
        + "/.well-known/oauth-protected-resource\""@ + (match error {
        Some(e) => ", error=\""@ + e + "\""@,
        None => Seq::<char>::empty(),
    })
}

/// Build the `WWW-Authenticate` header value for a 401 answer.
pub fn www_authenticate_value(base_url: &str, error: Option<&str>) -> (r: String)
    ensures
        (match error {
            Some(e) => r@ == spec_www_authenticate(base_url@, Some(e@)),
            None => r@ == spec_www_authenticate(base_url@, None),
        }),
{
    let head = String::from_str("Bearer realm=\"").concat(base_url).concat(
        "\", resource_metadata=\"",
    ).concat(base_url).concat("/.well-known/oauth-protected-resource\"");
    match error {
        Some(e) => {
            let r = head.concat(", error=\"").concat(e).concat("\"");
            proof {
                assert(r@ =~= spec_www_authenticate(base_url@, Some(e@)));
            }
            r
        },
        None => {
            proof {
                assert(head@ =~= spec_www_authenticate(base_url@, None));
            }
            head
        },
    }
}

/// Check the Authorization header of a request: a missing or malformed
/// header fails without naming an error; a present bearer token that the
/// service rejects fails as `invalid_token`; a valid token yields its
/// claims, whose issuer is the fixed one.
pub fn check_bearer(config: &AuthMiddlewareConfig, header: &Option<String>) -> (r: Result<
    Claims,
    Option<TokenError>,
>)
    ensures
        spec_bearer_token(*header) is None ==> r == Err::<Claims, Option<TokenError>>(None),
        r matches Ok(c) ==> spec_bearer_token(*header) is Some && c.iss@
            == crate::token::spec_issuer(),
        r matches Err(e) && e is Some ==> spec_bearer_token(*header) is Some,
{
    match bearer_token_of(header) {
        None => Err(None),
        Some(token) => match config.oauth_service.validate_token(token.as_str()) {
            Ok(c) => Ok(c),
            Err(e) => Err(Some(e)),
        },
    }
}

/// Whether a request carries exactly the expected legacy bearer token; the
/// comparison is constant-time in the token bytes.
pub fn legacy_token_ok(expected: &str, header: &Option<String>) -> (r: bool)
    ensures
        r == (spec_bearer_token(*header) matches Some(t) && t == expected@),
{
    match bearer_token_of(header) {
        None => false,
        Some(token) => crate::credentials::constant_time_compare(token.as_str(), expected),
    }
}

/// The authentication mode the server runs with.
#[derive(Debug)]
pub enum AuthMode {
    /// Full OAuth: the flows of the authorization server protect the
    /// tools.
    OAuth(AuthConfig),
    /// A single static bearer token.
    Legacy(String),
    /// No authentication: the server is open.
    Disabled,
}

/// What stops OAuth from being configured.
#[derive(Debug, Clone, Copy, PartialEq, Eq, Structural)]
pub enum AuthModeError {
    MissingJwtSecret,
    MissingClientId,
    MissingClientSecret,
}

impl AuthModeError {
    /// A fixed description of the missing option.
    pub fn message(&self) -> (r: &'static str) {
        match self {
            AuthModeError::MissingJwtSecret => "OAUTH_JWT_SECRET required when OAuth is enabled",
            AuthModeError::MissingClientId => "OAUTH_CLIENT_ID required when OAuth is enabled",
            AuthModeError::MissingClientSecret => "OAUTH_CLIENT_SECRET required when OAuth is enabled",
        }
    }
}

/// Choose the authentication mode from the configuration: OAuth when
/// enabled and fully configured (a zero expiration meaning tokens that
/// never expire), the legacy token when one is set, else no
/// authentication.
pub fn determine_auth_mode(
    oauth_enabled: bool,
    jwt_secret: Option<String>,
    client_id: Option<String>,
    client_secret: Option<String>,
    auth_token: Option<String>,
    token_expiration_s: u64,
) -> (r: Result<AuthMode, AuthModeError>)
    ensures
        oauth_enabled && jwt_secret is None ==> r == Err::<AuthMode, AuthModeError>(
            AuthModeError::MissingJwtSecret,
        ),
        oauth_enabled && jwt_secret is Some && client_id is None ==> r == Err::<
            AuthMode,
            AuthModeError,
        >(AuthModeError::MissingClientId),
        oauth_enabled && jwt_secret is Some && client_id is Some && client_secret is None ==> r
            == Err::<AuthMode, AuthModeError>(AuthModeError::MissingClientSecret),
        (oauth_enabled && jwt_secret is Some && client_id is Some && client_secret is Some) ==> (r
            matches Ok(m) && m matches AuthMode::OAuth(cfg) && (cfg.jwt_secret == jwt_secret->0
            && cfg.client_id == client_id->0 && cfg.client_secret == client_secret->0
            && cfg.token_expiration_s == (if token_expiration_s == 0 {
            None::<u64>
        } else {
            Some(token_expiration_s)
        }))),
        !oauth_enabled && auth_token is Some ==> r == Ok::<AuthMode, AuthModeError>(
            AuthMode::Legacy(auth_token->0),
        ),
        !oauth_enabled && auth_token is None ==> r == Ok::<AuthMode, AuthModeError>(
            AuthMode::Disabled,
        ),
{
    if oauth_enabled {
        let jwt = match jwt_secret {
            Some(s) => s,
            None => {
                return Err(AuthModeError::MissingJwtSecret);
            },
        };
        let id = match client_id {
            Some(s) => s,
            None => {
                return Err(AuthModeError::MissingClientId);
            },
        };
        let secret = match client_secret {
            Some(s) => s,
            None => {
                return Err(AuthModeError::MissingClientSecret);
            },
        };
        Ok(
            AuthMode::OAuth(
                AuthConfig {
                    jwt_secret: jwt,
                    client_id: id,
                    client_secret: secret,
                    token_expiration_s: if token_expiration_s == 0 {
                        None
                    } else {
                        Some(token_expiration_s)
                    },
                },
            ),
        )
    } else {
        match auth_token {
            Some(t) => Ok(AuthMode::Legacy(t)),
            None => Ok(AuthMode::Disabled),
        }
    }
}

} // verus!
