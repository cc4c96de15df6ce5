//! Dynamic client registration and the discovery metadata.
//!
//! Registration mints a fresh client id and secret, echoes the requested
//! grant types (defaulting to the authorization-code grant), and records
//! any supplied redirect URIs so later authorization requests can be
//! checked against them. Credentials are not persisted: they do not survive
//! a restart. The metadata advertises the authorization-code grant with
//! S256 as the only challenge method.

use vstd::prelude::*;
use crate::oauth::GrantType;
use crate::registry::{ClientRegistry, RegisteredClient};
use crate::strutil::starts_with;

verus! {

/// A dynamic client registration request.
#[derive(Debug)]
pub struct ClientRegistrationRequest {
    pub client_name: Option<String>,
    pub grant_types: Option<Vec<GrantType>>,
    pub redirect_uris: Option<Vec<String>>,
}

/// What registration answers: the minted credentials, when they were
/// issued, that the secret never expires, and the grant types granted.
#[derive(Debug)]
pub struct ClientRegistrationResponse {
    pub client_id: String,
    pub client_secret: String,
    pub client_id_issued_at: i64,
    pub client_secret_expires_at: i64,
    pub grant_types: Vec<GrantType>,
}

/// Register a client given the two freshly minted identifiers: the client
/// id is `mcp-client-` and the first, the secret is the second; supplied
/// redirect URIs are recorded under the new id, and without any the
/// registry is untouched.
pub fn register_client_with_ids(
    registry: &mut ClientRegistry,
    req: ClientRegistrationRequest,
    id_suffix: String,
    secret: String,
    now_s: i64,
    now: u64,
) -> (r: ClientRegistrationResponse)
    ensures
        r.client_id@ == "mcp-client-"@ + id_suffix@,
        r.client_secret == secret,
        r.client_id_issued_at == now_s,
        r.client_secret_expires_at == 0,
        req.grant_types matches Some(g) ==> r.grant_types == g,
        req.grant_types is None ==> r.grant_types@ == seq![GrantType::AuthorizationCode],
        (match req.redirect_uris {
            Some(uris) => uris@.len() > 0,
            None => false,
        }) ==> exists|rc: RegisteredClient|
            rc.client_id@ == "mcp-client-"@ + id_suffix@ && rc.redirect_uris
                == req.redirect_uris->0 && rc.created_at == now && final (registry).clients_view()
                == old(registry).clients_view().insert("mcp-client-"@ + id_suffix@, rc),
        (match req.redirect_uris {
            Some(uris) => uris@.len() == 0,
            None => true,
        }) ==> *final (registry) == *old(registry),
{
    let client_id = String::from_str("mcp-client-").concat(id_suffix.as_str());
    let grant_types = match req.grant_types {
        Some(g) => g,
        None => {
            let mut g: Vec<GrantType> = Vec::new();
            g.push(GrantType::AuthorizationCode);
            proof {
                assert(g@ =~= seq![GrantType::AuthorizationCode]);
            }
            g
        },
    };
    match req.redirect_uris {
        Some(uris) => {
            if uris.len() > 0 {
                let key = crate::strutil::clone_string(&client_id);
                let ghost uris_g = uris;
                registry.register(key, uris, now);
                proof {
                    let rc = RegisteredClient {
                        client_id: key,
                        redirect_uris: uris_g,
                        created_at: now,
                    };
                    assert(rc.client_id@ == "mcp-client-"@ + id_suffix@);
                }
            }
        },
        None => {},
    }
    ClientRegistrationResponse {
        client_id,
        client_secret: secret,
        client_id_issued_at: now_s,
        client_secret_expires_at: 0,
        grant_types,
    }
}

/// Register a client with freshly minted random identifiers. The id starts
/// with `mcp-client-`; everything else is as the inner registration says,
/// for the identifiers that were drawn.
pub fn register_client(
    registry: &mut ClientRegistry,
    req: ClientRegistrationRequest,
    now_s: i64,
    now: u64,
) -> (r: ClientRegistrationResponse)
    ensures
        starts_with(r.client_id@, "mcp-client-"@),
        r.client_id_issued_at == now_s,
        r.client_secret_expires_at == 0,
        req.grant_types matches Some(g) ==> r.grant_types == g,
        req.grant_types is None ==> r.grant_types@ == seq![GrantType::AuthorizationCode],
        (match req.redirect_uris {
            Some(uris) => uris@.len() > 0,
            None => false,
        }) ==> exists|rc: RegisteredClient|
            rc.client_id@ == r.client_id@ && rc.redirect_uris == req.redirect_uris->0
                && rc.created_at == now && final (registry).clients_view() == old(
                registry,
            ).clients_view().insert(r.client_id@, rc),
        (match req.redirect_uris {
            Some(uris) => uris@.len() == 0,
            None => true,
        }) ==> *final (registry) == *old(registry),
{
    let ghost uris = req.redirect_uris;
    let id_suffix = crate::ids::new_uuid_string();
    let secret = crate::ids::new_uuid_string();
    let r = register_client_with_ids(registry, req, id_suffix, secret, now_s, now);
    proof {
        assert(r.client_id@.subrange(0, "mcp-client-"@.len() as int) =~= "mcp-client-"@);
    }
    r
}

/// Protected-resource metadata: where clients find the authorization
/// server.
#[derive(Debug)]
pub struct ProtectedResourceMetadata {
    pub resource: String,
    pub authorization_servers: Vec<String>,
}

/// The protected-resource metadata for a base URL: this server is its own
/// authorization server.
pub fn protected_resource_metadata(base_url: &str) -> (r: ProtectedResourceMetadata)
    ensures
        r.resource@ == base_url@,
        r.authorization_servers.deep_view() == seq![base_url@],
{
    let mut servers: Vec<String> = Vec::new();
    servers.push(String::from_str(base_url));
    proof {
        assert(servers.deep_view() =~= seq![base_url@]);
    }
    ProtectedResourceMetadata { resource: String::from_str(base_url), authorization_servers: servers }
}

/// Authorization-server metadata: the endpoints and the supported grant,
/// auth method, response type and challenge method.
#[derive(Debug)]
pub struct AuthorizationServerMetadata {
    pub issuer: String,
    pub authorization_endpoint: Option<String>,
    pub token_endpoint: String,
    pub registration_endpoint: Option<String>,
    pub grant_types_supported: Vec<String>,
    pub token_endpoint_auth_methods_supported: Vec<String>,
    pub response_types_supported: Vec<String>,
    pub code_challenge_methods_supported: Option<Vec<String>>,
}

/// The authorization-server metadata for a base URL: the endpoints under
/// it, and only the authorization-code grant, the `none` auth method, the
/// `code` response type and the `S256` challenge method.
pub fn authorization_server_metadata(base_url: &str) -> (r: AuthorizationServerMetadata)
    ensures
        r.issuer@ == base_url@,
        r.authorization_endpoint matches Some(e) && e@ == base_url@ + "/authorize"@,
        r.token_endpoint@ == base_url@ + "/token"@,
        r.registration_endpoint matches Some(e) && e@ == base_url@ + "/register"@,
        r.grant_types_supported.deep_view() == seq!["authorization_code"@],
        r.token_endpoint_auth_methods_supported.deep_view() == seq!["none"@],
        r.response_types_supported.deep_view() == seq!["code"@],
        r.code_challenge_methods_supported matches Some(v) && v.deep_view() == seq!["S256"@],
{
    let mut grants: Vec<String> = Vec::new();
    grants.push(String::from_str("authorization_code"));
    let mut methods: Vec<String> = Vec::new();
    methods.push(String::from_str("none"));
    let mut responses: Vec<String> = Vec::new();
    responses.push(String::from_str("code"));
    let mut challenges: Vec<String> = Vec::new();
    challenges.push(String::from_str("S256"));
    proof {
        assert(grants.deep_view() =~= seq!["authorization_code"@]);
        assert(methods.deep_view() =~= seq!["none"@]);
        assert(responses.deep_view() =~= seq!["code"@]);
        assert(challenges.deep_view() =~= seq!["S256"@]);
    }
    AuthorizationServerMetadata {
        issuer: String::from_str(base_url),
        authorization_endpoint: Some(String::from_str(base_url).concat("/authorize")),
        token_endpoint: String::from_str(base_url).concat("/token"),
        registration_endpoint: Some(String::from_str(base_url).concat("/register")),
        grant_types_supported: grants,
        token_endpoint_auth_methods_supported: methods,
        response_types_supported: responses,
        code_challenge_methods_supported: Some(challenges),
    }
}

} // verus!
