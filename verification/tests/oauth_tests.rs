use yamos::authorize::{
    approve_authorization, begin_authorization, consent_page, html_escape, ApprovalOutcome,
    AuthorizationApproval, AuthorizationRequest, AuthorizeOutcome, ResponseType,
};
use yamos::httpauth::{
    bearer_token_of, determine_auth_mode, legacy_token_ok, www_authenticate_value, AuthMode,
    AuthModeError,
};
use yamos::oauth::{
    handle_token_request, token_authorization_code, token_client_credentials, AuthConfig,
    GrantType, OAuthService, TokenOutcome, TokenRequest,
};
use yamos::pending::{AuthorizationStore, CodeChallengeMethod, PendingAuthorization};
use yamos::pkce::{make_pkce_challenge, verify_pkce};
use yamos::register::{
    authorization_server_metadata, protected_resource_metadata, register_client,
    ClientRegistrationRequest,
};
use yamos::registry::{ClientRegistry, RedirectUriError};

fn service() -> OAuthService {
    OAuthService::new(AuthConfig {
        jwt_secret: "test-signing-key".to_string(),
        client_id: "client-1".to_string(),
        client_secret: "s3cret".to_string(),
        token_expiration_s: Some(3600),
    })
}

fn pending(challenge: &str) -> PendingAuthorization {
    PendingAuthorization {
        client_id: "client-1".to_string(),
        redirect_uri: "https://app.example/cb".to_string(),
        code_challenge: challenge.to_string(),
        code_challenge_method: CodeChallengeMethod::S256,
        state: Some("xyz".to_string()),
        created_at: 100,
    }
}

fn token_request(code: Option<&str>, verifier: Option<&str>, redirect: Option<&str>) -> TokenRequest {
    TokenRequest {
        grant_type: GrantType::AuthorizationCode,
        client_id: None,
        client_secret: None,
        code: code.map(|s| s.to_string()),
        code_verifier: verifier.map(|s| s.to_string()),
        redirect_uri: redirect.map(|s| s.to_string()),
    }
}

#[test]
fn pkce_happy_path() {
    let verifier = "dBjftJeZ4CVP-mB92K27uhbUJU1p1r_wW1gFWFOEjXk";
    let challenge = make_pkce_challenge(verifier);
    assert_eq!(challenge, "E9Melhoa2OwvFrEMTJguCHaoeK1t8URWbuGJSstw-cM");
    assert!(verify_pkce(verifier, &challenge));
    assert!(!verify_pkce("some-other-verifier", &challenge));

    // the full grant: an authorization code minted for that challenge is
    // exchanged for a token whose subject is the requesting client
    let svc = service();
    let mut store = AuthorizationStore::new();
    store.store_pending("authcode-1".to_string(), pending(&challenge));
    let req = token_request(Some("authcode-1"), Some(verifier), Some("https://app.example/cb"));
    match token_authorization_code(&svc, &mut store, &req, 100) {
        TokenOutcome::Granted(t) => {
            assert_eq!(t.token_type, "Bearer");
            assert_eq!(t.expires_in, Some(3600));
            let claims = svc.validate_token(&t.access_token).unwrap();
            assert_eq!(claims.sub, "client-1");
            assert_eq!(claims.iss, "yamos");
            assert!(claims.exp.is_some());
        }
        TokenOutcome::Denied { status, body } => {
            panic!("expected a grant, got {} {}", status, body.error)
        }
    }
    // the code was consumed
    assert_eq!(store.len(), 0);
}

#[test]
fn token_grant_failures() {
    let svc = service();
    let mut store = AuthorizationStore::new();
    let challenge = make_pkce_challenge("ver-ver-ver-ver-ver-ver-ver-ver-ver-ver-ver");

    // missing code
    match token_authorization_code(&svc, &mut store, &token_request(None, Some("v"), None), 0) {
        TokenOutcome::Denied { status, body } => {
            assert_eq!(status, 400);
            assert_eq!(body.error, "invalid_request");
        }
        _ => panic!("expected a denial"),
    }
    // unknown code
    match token_authorization_code(
        &svc,
        &mut store,
        &token_request(Some("nope"), Some("v"), Some("https://app.example/cb")),
        0,
    ) {
        TokenOutcome::Denied { status, body } => {
            assert_eq!(status, 400);
            assert_eq!(body.error, "invalid_grant");
        }
        _ => panic!("expected a denial"),
    }
    // redirect mismatch
    store.store_pending("c1".to_string(), pending(&challenge));
    match token_authorization_code(
        &svc,
        &mut store,
        &token_request(
            Some("c1"),
            Some("ver-ver-ver-ver-ver-ver-ver-ver-ver-ver-ver"),
            Some("https://elsewhere.example/cb"),
        ),
        100,
    ) {
        TokenOutcome::Denied { status, body } => {
            assert_eq!(status, 400);
            assert_eq!(body.error, "invalid_grant");
        }
        _ => panic!("expected a denial"),
    }
    // wrong verifier
    store.store_pending("c2".to_string(), pending(&challenge));
    match token_authorization_code(
        &svc,
        &mut store,
        &token_request(Some("c2"), Some("wrong-verifier"), Some("https://app.example/cb")),
        100,
    ) {
        TokenOutcome::Denied { status, body } => {
            assert_eq!(status, 400);
            assert_eq!(body.error, "invalid_grant");
        }
        _ => panic!("expected a denial"),
    }
    // an expired code is cleaned up before the lookup
    store.store_pending("c3".to_string(), pending(&challenge));
    match token_authorization_code(
        &svc,
        &mut store,
        &token_request(
            Some("c3"),
            Some("ver-ver-ver-ver-ver-ver-ver-ver-ver-ver-ver"),
            Some("https://app.example/cb"),
        ),
        100 + 600,
    ) {
        TokenOutcome::Denied { status, body } => {
            assert_eq!(status, 400);
            assert_eq!(body.error, "invalid_grant");
        }
        _ => panic!("expected a denial"),
    }
}

#[test]
fn client_credentials_grant() {
    let svc = service();
    let mut store = AuthorizationStore::new();
    let ok = TokenRequest {
        grant_type: GrantType::ClientCredentials,
        client_id: Some("client-1".to_string()),
        client_secret: Some("s3cret".to_string()),
        code: None,
        code_verifier: None,
        redirect_uri: None,
    };
    match handle_token_request(&svc, &mut store, &ok, 0) {
        TokenOutcome::Granted(t) => assert_eq!(t.token_type, "Bearer"),
        _ => panic!("expected a grant"),
    }
    let bad = TokenRequest { client_secret: Some("wrong".to_string()), ..ok };
    match token_client_credentials(&svc, &bad) {
        TokenOutcome::Denied { status, body } => {
            assert_eq!(status, 401);
            assert_eq!(body.error, "invalid_client");
        }
        _ => panic!("expected a denial"),
    }
}

#[test]
fn redirect_uri_policy() {
    let mut registry = ClientRegistry::new();
    registry.register(
        "app".to_string(),
        vec![
            "https://app.example/cb".to_string(),
            "http://localhost/cb".to_string(),
        ],
        0,
    );
    assert!(registry.validate_redirect_uri("app", "https://app.example/cb").is_ok());
    assert!(registry.validate_redirect_uri("app", "http://evil.example/cb").is_err());
    // localhost port flexibility
    assert!(registry.validate_redirect_uri("app", "http://localhost:5173/cb").is_ok());
    assert_eq!(
        registry.validate_redirect_uri("app", "javascript:alert(1)"),
        Err(RedirectUriError::ForbiddenScheme)
    );
    assert_eq!(
        registry.validate_redirect_uri("app", "https://other.example/cb"),
        Err(RedirectUriError::NotRegistered)
    );
    assert_eq!(
        registry.validate_redirect_uri("app", "no spaces allowed"),
        Err(RedirectUriError::NotAUrl)
    );
    // unknown clients pass, for statically configured ones
    assert!(registry.validate_redirect_uri("ghost", "https://anything.example/cb").is_ok());
}

#[test]
fn lru_eviction_keeps_most_recent_thousand() {
    let mut store = AuthorizationStore::new();
    for i in 0..=1001u32 {
        store.store_pending(format!("c{}", i), pending("ch"));
    }
    assert_eq!(store.len(), 1000);
    assert!(store.take_pending("c0").is_none());
    let last = store.take_pending("c1001");
    assert!(last.is_some());
    assert_eq!(last.unwrap().client_id, "client-1");
}

#[test]
fn cleanup_drops_only_expired() {
    let mut store = AuthorizationStore::new();
    let mut early = pending("ch");
    early.created_at = 0;
    let mut late = pending("ch");
    late.created_at = 500;
    store.store_pending("old".to_string(), early);
    store.store_pending("new".to_string(), late);
    store.cleanup_expired(600);
    assert_eq!(store.len(), 1);
    assert!(store.take_pending("old").is_none());
    assert!(store.take_pending("new").is_some());
}

#[test]
fn authorization_flow_consent_and_approval() {
    let registry = ClientRegistry::new();
    let mut store = AuthorizationStore::new();
    let req = AuthorizationRequest {
        client_id: "client <1>".to_string(),
        redirect_uri: "https://app.example/cb?keep=1".to_string(),
        response_type: ResponseType::Code,
        code_challenge: "ch".to_string(),
        code_challenge_method: Some(CodeChallengeMethod::S256),
        state: Some("st".to_string()),
        scope: None,
        resource: None,
    };
    let outcome = begin_authorization(&registry, &mut store, &req, "session-1".to_string(), 10);
    match outcome {
        AuthorizeOutcome::Consent { html } => {
            assert!(html.contains("session-1"));
            assert!(html.contains("client &lt;1&gt;"));
        }
        AuthorizeOutcome::Rejected(e) => panic!("unexpected rejection: {}", e.message()),
    }
    assert_eq!(store.len(), 1);

    // denial redirects with access_denied and the state, without consuming a new code
    let denied = approve_authorization(
        &mut store,
        &AuthorizationApproval { code: "session-1".to_string(), approve: Some("false".to_string()) },
        "auth-1".to_string(),
        10,
    );
    match denied {
        ApprovalOutcome::DeniedRedirect { url } => {
            assert!(url.starts_with("https://app.example/cb?keep=1&error=access_denied"));
            assert!(url.ends_with("&state=st"));
        }
        _ => panic!("expected a denial redirect"),
    }
    assert_eq!(store.len(), 0);

    // a second take of the same session is expired
    let expired = approve_authorization(
        &mut store,
        &AuthorizationApproval { code: "session-1".to_string(), approve: Some("true".to_string()) },
        "auth-2".to_string(),
        10,
    );
    assert!(matches!(expired, ApprovalOutcome::SessionExpired));

    // approval stores the record under the authorization code and redirects with it
    let outcome = begin_authorization(&registry, &mut store, &req, "session-2".to_string(), 10);
    assert!(matches!(outcome, AuthorizeOutcome::Consent { .. }));
    let granted = approve_authorization(
        &mut store,
        &AuthorizationApproval { code: "session-2".to_string(), approve: Some("true".to_string()) },
        "auth-3".to_string(),
        10,
    );
    match granted {
        ApprovalOutcome::GrantedRedirect { url } => {
            assert!(url.starts_with("https://app.example/cb?keep=1&code=auth-3"));
            assert!(url.contains("&state=st"));
        }
        _ => panic!("expected a granted redirect"),
    }
    assert!(store.take_pending("auth-3").is_some());

    // an invalid redirect URI is rejected with an error page, never a redirect
    let bad = AuthorizationRequest {
        redirect_uri: "javascript:alert(1)".to_string(),
        client_id: "client <1>".to_string(),
        response_type: ResponseType::Code,
        code_challenge: "ch".to_string(),
        code_challenge_method: Some(CodeChallengeMethod::S256),
        state: None,
        scope: None,
        resource: None,
    };
    let mut registry2 = ClientRegistry::new();
    registry2.register("client <1>".to_string(), vec!["https://a.example/cb".to_string()], 0);
    let rejected = begin_authorization(&registry2, &mut store, &bad, "session-3".to_string(), 10);
    assert!(matches!(rejected, AuthorizeOutcome::Rejected(RedirectUriError::ForbiddenScheme)));
}

#[test]
fn registration_and_metadata() {
    let mut registry = ClientRegistry::new();
    let req = ClientRegistrationRequest {
        client_name: Some("demo".to_string()),
        grant_types: None,
        redirect_uris: Some(vec!["https://app.example/cb".to_string()]),
    };
    let resp = register_client(&mut registry, req, 1111, 1111);
    assert!(resp.client_id.starts_with("mcp-client-"));
    assert_eq!(resp.client_id.len(), "mcp-client-".len() + 36);
    assert_eq!(resp.client_secret.len(), 36);
    assert_eq!(resp.client_id_issued_at, 1111);
    assert_eq!(resp.client_secret_expires_at, 0);
    assert_eq!(resp.grant_types, vec![GrantType::AuthorizationCode]);
    // the registered redirect URI is now enforced
    assert!(registry.validate_redirect_uri(&resp.client_id, "https://app.example/cb").is_ok());
    assert!(registry
        .validate_redirect_uri(&resp.client_id, "https://evil.example/cb")
        .is_err());

    let prm = protected_resource_metadata("https://base.example");
    assert_eq!(prm.resource, "https://base.example");
    assert_eq!(prm.authorization_servers, vec!["https://base.example".to_string()]);

    let srv_meta = authorization_server_metadata("https://base.example");
    assert_eq!(srv_meta.issuer, "https://base.example");
    assert_eq!(srv_meta.authorization_endpoint.as_deref(), Some("https://base.example/authorize"));
    assert_eq!(srv_meta.token_endpoint, "https://base.example/token");
    assert_eq!(srv_meta.registration_endpoint.as_deref(), Some("https://base.example/register"));
    assert_eq!(srv_meta.grant_types_supported, vec!["authorization_code".to_string()]);
    assert_eq!(srv_meta.token_endpoint_auth_methods_supported, vec!["none".to_string()]);
    assert_eq!(srv_meta.response_types_supported, vec!["code".to_string()]);
    assert_eq!(srv_meta.code_challenge_methods_supported, Some(vec!["S256".to_string()]));
}

#[test]
fn middleware_helpers() {
    assert_eq!(
        bearer_token_of(&Some("Bearer abc.def".to_string())).as_deref(),
        Some("abc.def")
    );
    assert!(bearer_token_of(&Some("Basic abc".to_string())).is_none());
    assert!(bearer_token_of(&None).is_none());

    let v = www_authenticate_value("https://b.example", None);
    assert_eq!(
        v,
        "Bearer realm=\"https://b.example\", resource_metadata=\"https://b.example/.well-known/oauth-protected-resource\""
    );
    let v = www_authenticate_value("https://b.example", Some("invalid_token"));
    assert!(v.ends_with(", error=\"invalid_token\""));

    assert!(legacy_token_ok("tok-1", &Some("Bearer tok-1".to_string())));
    assert!(!legacy_token_ok("tok-1", &Some("Bearer tok-2".to_string())));
    assert!(!legacy_token_ok("tok-1", &None));
}

#[test]
fn auth_mode_selection() {
    match determine_auth_mode(
        true,
        Some("sec".to_string()),
        Some("id".to_string()),
        Some("cs".to_string()),
        None,
        0,
    ) {
        Ok(AuthMode::OAuth(cfg)) => {
            assert_eq!(cfg.jwt_secret, "sec");
            assert_eq!(cfg.client_id, "id");
            assert_eq!(cfg.client_secret, "cs");
            assert_eq!(cfg.token_expiration_s, None);
        }
        _ => panic!("expected the OAuth mode"),
    }
    assert!(matches!(
        determine_auth_mode(true, None, None, None, None, 10),
        Err(AuthModeError::MissingJwtSecret)
    ));
    assert!(matches!(
        determine_auth_mode(true, Some("s".to_string()), None, None, None, 10),
        Err(AuthModeError::MissingClientId)
    ));
    assert!(matches!(
        determine_auth_mode(true, Some("s".to_string()), Some("i".to_string()), None, None, 10),
        Err(AuthModeError::MissingClientSecret)
    ));
    assert!(matches!(
        determine_auth_mode(false, None, None, None, Some("tok".to_string()), 10),
        Ok(AuthMode::Legacy(t)) if t == "tok"
    ));
    assert!(matches!(
        determine_auth_mode(false, None, None, None, None, 10),
        Ok(AuthMode::Disabled)
    ));
}

#[test]
fn html_escaping_and_consent_page() {
    assert_eq!(html_escape("a&b<c>\"d\""), "a&amp;b&lt;c&gt;&quot;d&quot;");
    let page = consent_page("<script>", "code-9");
    assert!(page.contains("&lt;script&gt;"));
    assert!(!page.contains("<script>"));
    assert!(page.contains("code=code-9&approve=true"));
    assert!(page.contains("code=code-9&approve=false"));
}

#[test]
fn expired_tokens_are_rejected() {
    // a token that expired long ago fails validation
    let svc = OAuthService::new(AuthConfig {
        jwt_secret: "k".to_string(),
        client_id: "c".to_string(),
        client_secret: "s".to_string(),
        token_expiration_s: None,
    });
    let issuer = yamos::token::JwtTokenIssuer::new("k".as_bytes().to_vec(), None);
    let old = issuer
        .issue_token_at("c", Some(10), 1_000_000, "jti-1")
        .unwrap();
    assert!(svc.validate_token(&old.access_token).is_err());
    // garbage is rejected too
    assert!(svc.validate_token("not.a.jwt").is_err());
}

#[test]
fn issue_then_validate_at_fixed_times() {
    let issuer = yamos::token::JwtTokenIssuer::new(b"key-2".to_vec(), Some(100));
    let t = issuer.issue_token_at("cid", Some(100), 1000, "jti-9").unwrap();
    let validator = yamos::token::JwtTokenValidator::new(b"key-2".to_vec());
    let c = validator.validate_token_at(&t.access_token, 1050).unwrap();
    assert_eq!(c.sub, "cid");
    assert_eq!(c.iat, 1000);
    assert_eq!(c.exp, Some(1100));
    assert_eq!(c.jti, "jti-9");
    assert_eq!(c.iss, "yamos");
    // just within the sixty seconds of leeway
    assert!(validator.validate_token_at(&t.access_token, 1100 + 60).is_ok());
    // beyond it
    assert!(validator.validate_token_at(&t.access_token, 1100 + 61).is_err());
    // a different secret rejects the same token
    let other = yamos::token::JwtTokenValidator::new(b"another".to_vec());
    assert!(other.validate_token_at(&t.access_token, 1050).is_err());
}
