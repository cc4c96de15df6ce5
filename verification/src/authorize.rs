//! The authorization endpoint's decisions: redirect-URI checking before any
//! redirect, the consent page, the approval callback, dynamic client
//! registration, and the discovery metadata.
//!
//! A request with an invalid redirect URI is answered with an error page and
//! never redirected. The consent page shows the client id, HTML-escaped,
//! and carries the consent-session code; approval replaces the session
//! entry with one under a fresh authorization code and redirects with it.

use vstd::prelude::*;
use crate::pending::{AuthorizationStore, CodeChallengeMethod, PendingAuthorization};
use crate::registry::{ClientRegistry, RedirectUriError};
use crate::strutil::{clone_opt_string, clone_string, urlenc_of};

verus! {

/// The response types the authorization endpoint accepts.
#[derive(Debug, Clone, Copy, PartialEq, Eq, Structural)]
pub enum ResponseType {
    Code,
}

/// A parsed authorization request.
#[derive(Debug)]
pub struct AuthorizationRequest {
    pub client_id: String,
    pub redirect_uri: String,
    pub response_type: ResponseType,
    pub code_challenge: String,
    pub code_challenge_method: Option<CodeChallengeMethod>,
    pub state: Option<String>,
    pub scope: Option<String>,
    pub resource: Option<String>,
}

/// The approval callback's parameters: the consent-session code and the
/// user's answer.
#[derive(Debug)]
pub struct AuthorizationApproval {
    pub code: String,
    pub approve: Option<String>,
}

/// What one character becomes under HTML escaping.
pub open spec fn spec_escape_char(c: char) -> Seq<char> {
    if c == '&' {
        seq!['&', 'a', 'm', 'p', ';']
    } else if c == '<' {
        seq!['&', 'l', 't', ';']
    } else if c == '>' {
        seq!['&', 'g', 't', ';']
    } else if c == '"' {
        seq!['&', 'q', 'u', 'o', 't', ';']
    } else {
        seq![c]
    }
}

/// A string with `&`, `<`, `>` and `"` HTML-escaped, character by
/// character.
pub open spec fn spec_html_escape(s: Seq<char>) -> Seq<char>
    decreases s.len(),
{
    if s.len() == 0 {
        Seq::empty()
    } else {
        spec_escape_char(s[0]) + spec_html_escape(s.drop_first())
    }
}

/// Escape text for embedding in HTML.
pub fn html_escape(s: &str) -> (r: String)
    ensures
        r@ == spec_html_escape(s@),
{
    let n = s.unicode_len();
    let mut out = String::new();
    proof {
        assert(s@.subrange(0, n as int) =~= s@);
    }
    let mut i: usize = 0;
    while i < n
        invariant
            n == s@.len(),
            i <= n,
            out@ + spec_html_escape(s@.subrange(i as int, n as int)) =~= spec_html_escape(s@),
        decreases n - i,
    {
        let ghost rest = s@.subrange(i as int, n as int);
        let c = s.get_char(i);
        proof {
            assert(rest[0] == s@[i as int]);
            assert(rest.drop_first() =~= s@.subrange(i + 1, n as int));
        }
        let ghost out0 = out@;
        if c == '&' {
            out.append("&amp;");
            proof {
                reveal_strlit("&amp;");
                assert(out@ =~= out0 + spec_escape_char(c));
            }
        } else if c == '<' {
            out.append("&lt;");
            proof {
                reveal_strlit("&lt;");
                assert(out@ =~= out0 + spec_escape_char(c));
            }
        } else if c == '>' {
            out.append("&gt;");
            proof {
                reveal_strlit("&gt;");
                assert(out@ =~= out0 + spec_escape_char(c));
            }
        } else if c == '"' {
            out.append("&quot;");
            proof {
                reveal_strlit("&quot;");
                assert(out@ =~= out0 + spec_escape_char(c));
            }
        } else {
            out.push(c);
            proof {
                assert(out@ =~= out0 + spec_escape_char(c));
            }
        }
        proof {
            assert(out0 + (spec_escape_char(c) + spec_html_escape(rest.drop_first())) =~= (out0
                + spec_escape_char(c)) + spec_html_escape(rest.drop_first()));
        }
        i = i + 1;
    }
    proof {
        assert(s@.subrange(n as int, n as int) =~= Seq::<char>::empty());
        assert(out@ + Seq::<char>::empty() =~= out@);
    }
    out
}

/// Opening of the consent page, up to the displayed client id.
pub const CONSENT_HEAD: &'static str = "<!DOCTYPE html>\n<html>\n<head>\n<title>Authorize Client</title>\n<meta name=\"viewport\" content=\"width=device-width, initial-scale=1\">\n</head>\n<body>\n<h1>Authorize Application</h1>\n<p>The following application is requesting access to this server:</p>\n<div class=\"client-id\">";

/// Between the client id and the approve link's code.
pub const CONSENT_MID: &'static str = "</div>\n<p>Do you want to allow this application to access your notes?</p>\n<div class=\"buttons\">\n<a href=\"/authorize/callback?code=";

/// Between the approve link and the deny link's code.
pub const CONSENT_BETWEEN: &'static str = "&approve=true\"><button>Approve</button></a>\n<a href=\"/authorize/callback?code=";

/// Closing of the consent page, after the deny link's code.
pub const CONSENT_TAIL: &'static str = "&approve=false\"><button>Deny</button></a>\n</div>\n</body>\n</html>";

/// The consent page shown for a client and a consent-session code: fixed
/// HTML around the escaped client id and the code, in the approve and deny
/// links.
pub open spec fn spec_consent_page(client_id: Seq<char>, code: Seq<char>) -> Seq<char> {
    CONSENT_HEAD@ + spec_html_escape(client_id) + CONSENT_MID@ + code + CONSENT_BETWEEN@ + code
        + CONSENT_TAIL@
}

/// Render the consent page for a client and a consent-session code; the
/// client id is HTML-escaped.
pub fn consent_page(client_id: &str, code: &str) -> (r: String)
    ensures
        r@ == spec_consent_page(client_id@, code@),
{
    let escaped = html_escape(client_id);
    String::from_str(CONSENT_HEAD).concat(escaped.as_str()).concat(CONSENT_MID).concat(code).concat(
        CONSENT_BETWEEN,
    ).concat(code).concat(CONSENT_TAIL)
}

/// Some character of `s` is a question mark.
pub open spec fn spec_has_query(s: Seq<char>) -> bool {
    exists|i: int| 0 <= i < s.len() && #[trigger] s[i] == '?'
}

/// The separator for appending one more query parameter.
pub open spec fn spec_query_sep(url: Seq<char>) -> Seq<char> {
    if spec_has_query(url) {
        seq!['&']
    } else {
        seq!['?']
    }
}

fn query_sep(url: &str) -> (r: char)
    ensures
        seq![r] == spec_query_sep(url@),
{
    let n = url.unicode_len();
    let mut i: usize = 0;
    while i < n
        invariant
            n == url@.len(),
            i <= n,
            forall|j: int| 0 <= j < i ==> url@[j] != '?',
        decreases n - i,
    {
        if url.get_char(i) == '?' {
            return '&';
        }
        i = i + 1;
    }
    proof {
        assert(!spec_has_query(url@));
    }
    '?'
}

/// The URL a denied authorization redirects to: the redirect URI with
/// `error=access_denied`, the percent-encoded description, and the request
/// state verbatim when there was one.
pub open spec fn spec_denied_redirect(
    redirect_uri: Seq<char>,
    description: Seq<char>,
    state: Option<String>,
) -> Seq<char> {
    redirect_uri + spec_query_sep(redirect_uri) + "error=access_denied&error_description="@
        + urlenc_of(description) + (match state {
        Some(s) => "&state="@ + s@,
        None => Seq::<char>::empty(),
    })
}

/// The URL an approved authorization redirects to: the redirect URI with
/// the percent-encoded authorization code and, when there was one, the
/// percent-encoded request state.
pub open spec fn spec_granted_redirect(
    redirect_uri: Seq<char>,
    auth_code: Seq<char>,
    state: Option<String>,
) -> Seq<char> {
    redirect_uri + spec_query_sep(redirect_uri) + "code="@ + urlenc_of(auth_code) + (match state {
        Some(s) => "&state="@ + urlenc_of(s@),
        None => Seq::<char>::empty(),
    })
}

fn denied_redirect_url(redirect_uri: &str, description: &str, state: &Option<String>) -> (r:
    String)
    ensures
        r@ == spec_denied_redirect(redirect_uri@, description@, *state),
{
    let sep = query_sep(redirect_uri);
    let enc = crate::strutil::urlencode(description);
    let mut url = String::from_str(redirect_uri);
    url.push(sep);
    let mut url = url.concat("error=access_denied&error_description=").concat(enc.as_str());
    match state {
        Some(s) => {
            let r = url.concat("&state=").concat(s.as_str());
            proof {
                assert(r@ =~= spec_denied_redirect(redirect_uri@, description@, *state));
            }
            r
        },
        None => {
            proof {
                assert(url@ =~= spec_denied_redirect(redirect_uri@, description@, *state));
            }
            url
        },
    }
}

fn granted_redirect_url(redirect_uri: &str, auth_code: &str, state: &Option<String>) -> (r: String)
    ensures
        r@ == spec_granted_redirect(redirect_uri@, auth_code@, *state),
{
    let sep = query_sep(redirect_uri);
    let enc = crate::strutil::urlencode(auth_code);
    let mut url = String::from_str(redirect_uri);
    url.push(sep);
    let url = url.concat("code=").concat(enc.as_str());
    match state {
        Some(s) => {
            let enc_state = crate::strutil::urlencode(s.as_str());
            let r = url.concat("&state=").concat(enc_state.as_str());
            proof {
                assert(r@ =~= spec_granted_redirect(redirect_uri@, auth_code@, *state));
            }
            r
        },
        None => {
            proof {
                assert(url@ =~= spec_granted_redirect(redirect_uri@, auth_code@, *state));
            }
            url
        },
    }
}

/// Two optional strings holding the same characters.
pub open spec fn spec_opt_str_eq(a: Option<String>, b: Option<String>) -> bool {
    match (a, b) {
        (Some(x), Some(y)) => x@ == y@,
        (None, None) => true,
        _ => false,
    }
}

/// The pending record minted for an authorization request at `now`: its
/// fields copy the request's, the method is S256, and the creation time is
/// `now`.
pub open spec fn spec_pending_of_request(
    p: PendingAuthorization,
    req: AuthorizationRequest,
    now: u64,
) -> bool {
    &&& p.client_id@ == req.client_id@
    &&& p.redirect_uri@ == req.redirect_uri@
    &&& p.code_challenge@ == req.code_challenge@
    &&& p.code_challenge_method == CodeChallengeMethod::S256
    &&& spec_opt_str_eq(p.state, req.state)
    &&& p.created_at == now
}

/// What the authorization endpoint answers.
#[derive(Debug)]
pub enum AuthorizeOutcome {
    /// The redirect URI failed the policy: a 400 error page, no redirect.
    Rejected(RedirectUriError),
    /// The consent page, to be served with the strict security headers.
    Consent { html: String },
}

/// Decide an authorization request: check the redirect URI against the
/// registry before anything else and answer an error page on failure;
/// otherwise store the pending authorization under the consent-session
/// code, drop expired entries, and render the consent page.
pub fn begin_authorization(
    registry: &ClientRegistry,
    store: &mut AuthorizationStore,
    req: &AuthorizationRequest,
    session_code: String,
    now: u64,
) -> (r: AuthorizeOutcome)
    requires
        old(store).wf(),
    ensures
        final (store).wf(),
        r matches AuthorizeOutcome::Rejected(e) ==> *final (store) == *old(store)
            && registry.spec_validate(req.client_id@, req.redirect_uri@) == Err::<
            (),
            RedirectUriError,
        >(e),
        r is Consent ==> registry.spec_validate(req.client_id@, req.redirect_uri@) == Ok::<
            (),
            RedirectUriError,
        >(()),
        r matches AuthorizeOutcome::Consent { html } ==> (html@ == spec_consent_page(
            req.client_id@,
            session_code@,
        ) && exists|p: PendingAuthorization|
            spec_pending_of_request(p, *req, now) && final (store).entries_view()
                == crate::pending::kept_entries(
                crate::pending::stored(old(store).entries_view(), session_code, p),
                crate::pending::entry_live(now),
            )),
{
    match registry.validate_redirect_uri(req.client_id.as_str(), req.redirect_uri.as_str()) {
        Err(e) => AuthorizeOutcome::Rejected(e),
        Ok(()) => {
            let pending = PendingAuthorization {
                client_id: clone_string(&req.client_id),
                redirect_uri: clone_string(&req.redirect_uri),
                code_challenge: clone_string(&req.code_challenge),
                code_challenge_method: CodeChallengeMethod::S256,
                state: clone_opt_string(&req.state),
                created_at: now,
            };
            let html = consent_page(req.client_id.as_str(), session_code.as_str());
            let ghost gp = pending;
            let ghost gcode = session_code;
            let ghost orig_entries = store.entries_view();
            store.store_pending(session_code, pending);
            store.cleanup_expired(now);
            proof {
                assert(spec_pending_of_request(gp, *req, now));
                assert(store.entries_view() == crate::pending::kept_entries(
                    crate::pending::stored(orig_entries, gcode, gp),
                    crate::pending::entry_live(now),
                ));
            }
            AuthorizeOutcome::Consent { html }
        },
    }
}

/// What the approval callback answers.
#[derive(Debug)]
pub enum ApprovalOutcome {
    /// The consent session is unknown or expired: a 400 error page.
    SessionExpired,
    /// The user denied: redirect with `error=access_denied`.
    DeniedRedirect { url: String },
    /// The user approved: redirect with the fresh authorization code.
    GrantedRedirect { url: String },
}

/// Decide an approval callback given the fresh authorization code to mint:
/// consume the consent session; without one the session is expired; denial
/// redirects with `access_denied`; approval stores the pending record again
/// under the authorization code and redirects with that code and the
/// original state.
pub fn approve_authorization(
    store: &mut AuthorizationStore,
    approval: &AuthorizationApproval,
    auth_code: String,
    now: u64,
) -> (r: ApprovalOutcome)
    requires
        old(store).wf(),
    ensures
        final (store).wf(),
        ({
            let live = crate::pending::without_code(old(store).entries_view(), approval.code@);
            let looked = spec_lookup_of(old(store).entries_view(), approval.code@);
            &&& (looked is None ==> r == ApprovalOutcome::SessionExpired && final (store).entries_view()
                == live)
            &&& ((looked is Some && !spec_approved(approval.approve)) ==> (r matches
                ApprovalOutcome::DeniedRedirect { url } && (url@ == spec_denied_redirect(
                looked->0.redirect_uri@,
                "User denied the authorization request"@,
                looked->0.state,
            ) && final (store).entries_view() == live)))
            &&& ((looked is Some && spec_approved(approval.approve)) ==> (r matches
                ApprovalOutcome::GrantedRedirect { url } && (url@ == spec_granted_redirect(
                looked->0.redirect_uri@,
                auth_code@,
                looked->0.state,
            ) && final (store).entries_view() == crate::pending::stored(
                live,
                auth_code,
                looked->0,
            ))))
        }),
{
    let ghost orig = store.entries_view();
    let taken = store.take_pending(approval.code.as_str());
    proof {
        crate::pending::lemma_lookup_props(orig, approval.code@);
        if taken is Some {
            let j = choose|j: int| 0 <= j < orig.len() && (#[trigger] orig[j].0)@ == approval.code@;
            assert(taken == Some(orig[j].1));
        }
    }
    let pending = match taken {
        Some(p) => p,
        None => {
            return ApprovalOutcome::SessionExpired;
        },
    };
    let approved = match &approval.approve {
        Some(a) => crate::strutil::str_eq(a.as_str(), "true"),
        None => false,
    };
    if !approved {
        let url = denied_redirect_url(
            pending.redirect_uri.as_str(),
            "User denied the authorization request",
            &pending.state,
        );
        return ApprovalOutcome::DeniedRedirect { url };
    }
    let url = granted_redirect_url(pending.redirect_uri.as_str(), auth_code.as_str(), &pending.state);
    store.store_pending(auth_code, pending);
    ApprovalOutcome::GrantedRedirect { url }
}

/// The record stored under a code, if any.
pub open spec fn spec_lookup_of(s: Seq<crate::pending::PendingEntry>, c: Seq<char>) -> Option<
    PendingAuthorization,
> {
    crate::pending::spec_lookup(s, c)
}

/// The user approved exactly when the answer is the string `true`.
pub open spec fn spec_approved(approve: Option<String>) -> bool {
    match approve {
        Some(a) => a@ == "true"@,
        None => false,
    }
}

} // verus!
