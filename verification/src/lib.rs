//! Verified core of a note-vault gateway: an OAuth 2.1 authorization server
//! (authorization-code grant with PKCE, dynamic client registration,
//! redirect-URI policy, JWT issuance and validation), a chunked-document
//! codec for the replicated note store, an in-memory fuzzy search index fed
//! by a change feed, and the tool-level input validation and edit rules.
//!
//! All I/O (HTTP serving, the document-store client, the change-feed stream)
//! lives outside this crate; the functions here compute decisions, plans and
//! values from plain inputs, and their contracts state exactly what they do.

pub mod authorize;
pub mod codec;
pub mod credentials;
pub mod httpauth;
pub mod ids;
pub mod oauth;
pub mod paths;
pub mod pending;
pub mod pkce;
pub mod register;
pub mod registry;
pub mod search;
pub mod store;
pub mod strutil;
pub mod token;
pub mod tools;
pub mod watcher;

use vstd::prelude::*;

verus! {

} // verus!
