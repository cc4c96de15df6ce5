//! Dynamic client registry and redirect-URI policy.
//!
//! Registration stores a client's allowed redirect URIs in process memory.
//! Validation accepts a redirect URI when it parses as a URL, its scheme is
//! allowed (`https` always; `http` only on localhost; `javascript`, `data`
//! and `vbscript` never; other custom schemes always), and it matches one of
//! the client's registered URIs exactly — or matches up to the port on
//! localhost. An unregistered client passes the check, for compatibility
//! with statically configured clients.

use vstd::prelude::*;
use vstd::hash_map::StringHashMap;

verus! {

/// The components of a parsed URL that the policy reads.
#[derive(Debug, Clone)]
pub struct UrlParts {
    pub scheme: String,
    pub host: Option<String>,
    pub port: Option<u16>,
    pub path: String,
}

/// The same components at the specification level.
pub struct UrlModel {
    pub scheme: Seq<char>,
    pub host: Option<Seq<char>>,
    pub port: Option<u16>,
    pub path: Seq<char>,
}

/// The view of an optional host.
pub open spec fn spec_host_view(h: Option<String>) -> Option<Seq<char>> {
    match h {
        Some(s) => Some(s@),
        None => None,
    }
}

impl UrlParts {
    /// The parts at the specification level.
    pub open spec fn model(&self) -> UrlModel {
        UrlModel {
            scheme: self.scheme@,
            host: spec_host_view(self.host),
            port: self.port,
            path: self.path@,
        }
    }
}

/// What url::Url::parse makes of a string — a pure function of its
/// characters: nothing, or the scheme, host, port and path.
pub uninterp spec fn url_parse_of(s: Seq<char>) -> Option<UrlModel>;

/// Relies on url::Url::parse: parsing is a function of the string alone; on
/// success the URL's scheme, host, port and path are copied out as plain
/// strings, on failure there is no value.
#[verifier::external_body]
pub fn parse_url_parts(s: &str) -> (r: Option<UrlParts>)
    ensures
        match r {
            Some(p) => url_parse_of(s@) == Some(p.model()),
            None => url_parse_of(s@) is None,
        },
{
    match url::Url::parse(s) {
        Ok(u) => Some(
            UrlParts {
                scheme: u.scheme().to_string(),
                host: u.host_str().map(|h| h.to_string()),
                port: u.port(),
                path: u.path().to_string(),
            },
        ),
        Err(_) => None,
    }
}

/// Why a redirect URI was rejected.
#[derive(Debug, Clone, Copy, PartialEq, Eq, Structural)]
pub enum RedirectUriError {
    /// The URI does not parse as a URL.
    NotAUrl,
    /// `http` is allowed only for localhost hosts.
    HttpNotLocalhost,
    /// The scheme can carry script and is never allowed.
    ForbiddenScheme,
    /// The client is registered and none of its URIs matches.
    NotRegistered,
}

impl RedirectUriError {
    /// A fixed description of the rejection.
    pub fn message(&self) -> (r: &'static str) {
        match self {
            RedirectUriError::NotAUrl => "invalid redirect_uri: not a valid URL",
            RedirectUriError::HttpNotLocalhost => "invalid redirect_uri: http only allowed for localhost",
            RedirectUriError::ForbiddenScheme => "invalid redirect_uri: scheme not allowed",
            RedirectUriError::NotRegistered => "invalid redirect_uri: not registered for this client",
        }
    }
}

/// A host on which plain `http` redirect URIs are tolerated.
pub open spec fn spec_localhost_host(h: Seq<char>) -> bool {
    h == "localhost"@ || h == "127.0.0.1"@ || h == "[::1]"@
}

/// The scheme policy: `https` always; `http` only on localhost (or with no
/// host at all); script-carrying schemes never; anything else (custom app
/// schemes) allowed.
pub open spec fn spec_scheme_allowed(scheme: Seq<char>, host: Option<Seq<char>>) -> bool {
    if scheme == "https"@ {
        true
    } else if scheme == "http"@ {
        match host {
            Some(h) => spec_localhost_host(h),
            None => true,
        }
    } else {
        !(scheme == "javascript"@ || scheme == "data"@ || scheme == "vbscript"@)
    }
}

fn is_localhost_host(h: &str) -> (r: bool)
    ensures
        r == spec_localhost_host(h@),
{
    crate::strutil::str_eq(h, "localhost") || crate::strutil::str_eq(h, "127.0.0.1")
        || crate::strutil::str_eq(h, "[::1]")
}

/// Decide the scheme policy for one parsed URL.
pub fn scheme_allowed(parts: &UrlParts) -> (r: bool)
    ensures
        r == spec_scheme_allowed(parts.model().scheme, parts.model().host),
{
    if crate::strutil::str_eq(parts.scheme.as_str(), "https") {
        true
    } else if crate::strutil::str_eq(parts.scheme.as_str(), "http") {
        match &parts.host {
            Some(h) => is_localhost_host(h.as_str()),
            None => true,
        }
    } else {
        !(crate::strutil::str_eq(parts.scheme.as_str(), "javascript") || crate::strutil::str_eq(
            parts.scheme.as_str(),
            "data",
        ) || crate::strutil::str_eq(parts.scheme.as_str(), "vbscript"))
    }
}

/// A requested URI matches a registered one up to the port, on localhost:
/// same scheme, same localhost host, same path.
pub open spec fn spec_localhost_flex(reg: UrlModel, req: UrlModel) -> bool {
    &&& reg.scheme == req.scheme
    &&& match (reg.host, req.host) {
        (Some(rh), Some(qh)) => (rh == "localhost"@ || rh == "127.0.0.1"@) && rh == qh && reg.path
            == req.path,
        _ => false,
    }
}

/// A requested URI matches a registered URI exactly, or up to the port on
/// localhost when both parse.
pub open spec fn spec_uri_matches(
    registered: Seq<char>,
    requested: Seq<char>,
    reg_parts: Option<UrlModel>,
    req_parts: Option<UrlModel>,
) -> bool {
    ||| registered == requested
    ||| match (reg_parts, req_parts) {
        (Some(a), Some(b)) => spec_localhost_flex(a, b),
        _ => false,
    }
}

/// Check one registered URI against the requested one.
pub fn uri_matches(
    registered: &str,
    requested: &str,
    reg_parts: Option<&UrlParts>,
    req_parts: Option<&UrlParts>,
) -> (r: bool)
    ensures
        r == spec_uri_matches(
            registered@,
            requested@,
            match reg_parts {
                Some(p) => Some(p.model()),
                None => None,
            },
            match req_parts {
                Some(p) => Some(p.model()),
                None => None,
            },
        ),
{
    if crate::strutil::str_eq(registered, requested) {
        return true;
    }
    match (reg_parts, req_parts) {
        (Some(a), Some(b)) => {
            if !crate::strutil::str_eq(a.scheme.as_str(), b.scheme.as_str()) {
                return false;
            }
            match (&a.host, &b.host) {
                (Some(rh), Some(qh)) => {
                    (crate::strutil::str_eq(rh.as_str(), "localhost") || crate::strutil::str_eq(
                        rh.as_str(),
                        "127.0.0.1",
                    )) && crate::strutil::str_eq(rh.as_str(), qh.as_str())
                        && crate::strutil::str_eq(a.path.as_str(), b.path.as_str())
                },
                _ => false,
            }
        },
        _ => false,
    }
}

/// One dynamically registered client.
#[derive(Debug, Clone)]
pub struct RegisteredClient {
    pub client_id: String,
    pub redirect_uris: Vec<String>,
    /// Seconds since the epoch at registration.
    pub created_at: u64,
}

/// Each registered URI of a client, parsed.
pub open spec fn spec_parsed_uris(uris: Seq<String>) -> Seq<Option<UrlModel>> {
    uris.map_values(|u: String| url_parse_of(u@))
}

/// What the whole validation decides, given how the URIs parse: reject a
/// URI that does not parse or whose scheme the policy refuses; accept any
/// URI of an unregistered client; else accept exactly when some registered
/// URI matches.
pub open spec fn spec_redirect_decision(
    requested: Seq<char>,
    req_parts: Option<UrlModel>,
    client: Option<RegisteredClient>,
) -> Result<(), RedirectUriError> {
    match req_parts {
        None => Err(RedirectUriError::NotAUrl),
        Some(p) => {
            if !spec_scheme_allowed(p.scheme, p.host) {
                if p.scheme == "http"@ {
                    Err(RedirectUriError::HttpNotLocalhost)
                } else {
                    Err(RedirectUriError::ForbiddenScheme)
                }
            } else {
                match client {
                    None => Ok(()),
                    Some(c) => {
                        if exists|i: int|
                            0 <= i < c.redirect_uris.len() && spec_uri_matches(
                                (#[trigger] c.redirect_uris@[i])@,
                                requested,
                                spec_parsed_uris(c.redirect_uris@)[i],
                                Some(p),
                            ) {
                            Ok(())
                        } else {
                            Err(RedirectUriError::NotRegistered)
                        }
                    },
                }
            }
        },
    }
}

/// Registry of dynamically registered clients and their redirect URIs.
pub struct ClientRegistry {
    clients: StringHashMap<RegisteredClient>,
}

impl ClientRegistry {
    /// The registered clients by id.
    pub closed spec fn clients_view(&self) -> Map<Seq<char>, RegisteredClient> {
        self.clients@
    }

    /// The client registered under an id, if any.
    pub open spec fn spec_client(&self, id: Seq<char>) -> Option<RegisteredClient> {
        if self.clients_view().contains_key(id) {
            Some(self.clients_view()[id])
        } else {
            None
        }
    }

    /// The policy's verdict on a redirect URI for a client: decided by how
    /// the URIs parse and what the client registered.
    pub open spec fn spec_validate(&self, client_id: Seq<char>, uri: Seq<char>) -> Result<
        (),
        RedirectUriError,
    > {
        spec_redirect_decision(uri, url_parse_of(uri), self.spec_client(client_id))
    }

    /// An empty registry.
    pub fn new() -> (r: Self)
        ensures
            r.clients_view() == Map::<Seq<char>, RegisteredClient>::empty(),
    {
        ClientRegistry { clients: StringHashMap::new() }
    }

    /// Register (or re-register) a client with its allowed redirect URIs.
    pub fn register(&mut self, client_id: String, redirect_uris: Vec<String>, now: u64)
        ensures
            final (self).clients_view() == old(self).clients_view().insert(
                client_id@,
                (RegisteredClient { client_id, redirect_uris, created_at: now }),
            ),
    {
        let key = client_id.clone();
        self.clients.insert(key, RegisteredClient { client_id, redirect_uris, created_at: now });
    }

    /// Check a redirect URI for a client: the result is exactly the
    /// policy's verdict on how the requested and registered URIs parse.
    pub fn validate_redirect_uri(&self, client_id: &str, redirect_uri: &str) -> (r: Result<
        (),
        RedirectUriError,
    >)
        ensures
            r == self.spec_validate(client_id@, redirect_uri@),
    {
        let req_parts = parse_url_parts(redirect_uri);
        match &req_parts {
            None => Err(RedirectUriError::NotAUrl),
            Some(p) => {
                if !scheme_allowed(p) {
                    let e = if crate::strutil::str_eq(p.scheme.as_str(), "http") {
                        RedirectUriError::HttpNotLocalhost
                    } else {
                        RedirectUriError::ForbiddenScheme
                    };
                    return Err(e);
                }
                match self.clients.get(client_id) {
                    None => Ok(()),
                    Some(client) => {
                        let mut matched = false;
                        let mut i: usize = 0;
                        let n = client.redirect_uris.len();
                        while i < n
                            invariant
                                n == client.redirect_uris.len(),
                                i <= n,
                                req_parts matches Some(pp) && pp == *p,
                                url_parse_of(redirect_uri@) == Some(p.model()),
                                matched <==> exists|j: int|
                                    0 <= j < i && spec_uri_matches(
                                        (#[trigger] client.redirect_uris@[j])@,
                                        redirect_uri@,
                                        spec_parsed_uris(client.redirect_uris@)[j],
                                        Some(p.model()),
                                    ),
                            decreases n - i,
                        {
                            let rp = parse_url_parts(client.redirect_uris[i].as_str());
                            let m = uri_matches(
                                client.redirect_uris[i].as_str(),
                                redirect_uri,
                                rp.as_ref(),
                                Some(p),
                            );
                            proof {
                                assert(spec_parsed_uris(client.redirect_uris@)[i as int]
                                    == url_parse_of((client.redirect_uris@[i as int])@));
                                if m {
                                    assert(spec_uri_matches(
                                        (client.redirect_uris@[i as int])@,
                                        redirect_uri@,
                                        spec_parsed_uris(client.redirect_uris@)[i as int],
                                        Some(p.model()),
                                    ));
                                }
                            }
                            matched = matched || m;
                            i = i + 1;
                        }
                        let r: Result<(), RedirectUriError> = if matched {
                            Ok(())
                        } else {
                            Err(RedirectUriError::NotRegistered)
                        };
                        proof {
                            let c = self.spec_client(client_id@)->0;
                            assert(c == *client);
                        }
                        r
                    },
                }
            },
        }
    }
}

} // verus!
