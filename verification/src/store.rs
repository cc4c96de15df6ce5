//! Typed model of the document store and the plans the gateway computes for
//! it.
//!
//! A note document references its content chunks in order through
//! `children`; a leaf document carries one chunk of raw content. Saving is
//! planned so that a crash never leaves a parent referencing a missing
//! chunk: the plan lists the new leaves to write first, then the parent
//! document, and only then the old chunks to delete, best-effort. Deletion
//! is soft: the parent is rewritten with `deleted: true` and a bumped
//! `mtime`, keeping chunks and the revision chain.

use vstd::prelude::*;
use vstd::utf8::{decode_utf8, encode_utf8, valid_utf8};
use crate::codec::{byte_len, generate_chunk_id, spec_is_chunk_id, split_content, split_plain};
use crate::strutil::{clone_opt_string, clone_string, clone_strings, starts_with, str_eq, utf8_to_string};
use base64::Engine;

verus! {

/// Main document for a note, referencing its chunks in order.
#[derive(Debug)]
pub struct NoteDoc {
    pub id: String,
    pub rev: Option<String>,
    pub path: String,
    /// Only the legacy `notes` type carries content here, base64-encoded.
    pub data: String,
    pub ctime: u64,
    pub mtime: u64,
    /// Bytes of logical content.
    pub size: u64,
    /// `plain` for chunked text, `newnote` for chunked binary, `notes`
    /// legacy.
    pub doc_type: String,
    pub children: Vec<String>,
    pub deleted: Option<bool>,
    /// Opaque field preserved round-trip, as JSON text.
    pub eden: String,
}

/// Chunk document: raw string data, not base64.
#[derive(Debug)]
pub struct LeafDoc {
    pub id: String,
    pub rev: Option<String>,
    pub data: String,
    pub doc_type: String,
}

/// What the store answers to a successful write.
#[derive(Debug, Clone)]
pub struct SaveResponse {
    pub ok: bool,
    pub id: String,
    pub rev: String,
}

/// The per-row metadata a listing returns.
#[derive(Debug, Clone)]
pub struct AllDocsValue {
    pub rev: String,
    pub deleted: bool,
}

/// One listed document, reduced to what the filter reads.
#[derive(Debug)]
pub struct DocSummary {
    pub id: String,
    /// The row's tombstone flag.
    pub deleted: bool,
    /// The included document's soft-delete flag.
    pub doc_deleted: bool,
}

/// Why decoding a note's content failed.
#[derive(Debug, Clone, Copy, PartialEq, Eq, Structural)]
pub enum FormatError {
    NotBase64,
    NotUtf8,
    UnknownDocType,
}

impl FormatError {
    /// A fixed description of the failure.
    pub fn message(&self) -> (r: &'static str) {
        match self {
            FormatError::NotBase64 => "legacy note data is not valid base64",
            FormatError::NotUtf8 => "decoded note data is not valid UTF-8",
            FormatError::UnknownDocType => "unknown note document type",
        }
    }
}

/// The standard base64 encoding of a byte sequence, as base64's `STANDARD`
/// engine computes it.
pub uninterp spec fn b64_std_of(bytes: Seq<u8>) -> Seq<char>;

/// What base64's `STANDARD` engine decodes a string to, when it decodes.
pub uninterp spec fn b64_std_decoded(s: Seq<char>) -> Option<Seq<u8>>;

/// Relies on base64's `STANDARD` engine for encoding: the result depends on
/// the input bytes alone.
#[verifier::external_body]
fn b64_std_encode(data: &[u8]) -> (r: String)
    ensures
        r@ == b64_std_of(data@),
{
    base64::engine::general_purpose::STANDARD.encode(data)
}

/// Relies on base64's `STANDARD` engine for decoding: whether and to what a
/// string decodes depends on its characters alone.
#[verifier::external_body]
fn b64_std_decode(s: &str) -> (r: Option<Vec<u8>>)
    ensures
        match r {
            Some(v) => b64_std_decoded(s@) == Some(v@),
            None => b64_std_decoded(s@) is None,
        },
{
    base64::engine::general_purpose::STANDARD.decode(s).ok()
}

/// The HTTP Basic authorization header for a user and password.
pub fn basic_auth_header(username: &str, password: &str) -> (r: String)
    ensures
        r@ == "Basic "@ + b64_std_of(encode_utf8(username@ + ":"@ + password@)),
{
    let joined = String::from_str(username).concat(":").concat(password);
    let encoded = b64_std_encode(joined.as_str().as_bytes());
    String::from_str("Basic ").concat(encoded.as_str())
}

/// The URL of one document: base, database and percent-encoded id.
pub fn doc_url(base_url: &str, database: &str, doc_id: &str) -> (r: String)
    ensures
        r@ == base_url@ + "/"@ + database@ + "/"@ + crate::strutil::urlenc_of(doc_id@),
{
    let encoded = crate::strutil::urlencode(doc_id);
    String::from_str(base_url).concat("/").concat(database).concat("/").concat(encoded.as_str())
}

/// A listed document that is a note: not a chunk (`h:`), not a system
/// document (`_`), not a tombstone, not soft-deleted.
pub open spec fn spec_listed_note(d: DocSummary) -> bool {
    &&& !starts_with(d.id@, "h:"@)
    &&& !starts_with(d.id@, "_"@)
    &&& !d.deleted
    &&& !d.doc_deleted
}

/// The ids of the listed documents that are notes, in listing order.
pub open spec fn spec_note_listing(rows: Seq<DocSummary>) -> Seq<Seq<char>>
    decreases rows.len(),
{
    if rows.len() == 0 {
        Seq::empty()
    } else if spec_listed_note(rows[0]) {
        seq![rows[0].id@] + spec_note_listing(rows.drop_first())
    } else {
        spec_note_listing(rows.drop_first())
    }
}

/// Filter a listing down to note ids: chunk documents, system documents,
/// tombstones and soft-deleted notes are dropped.
pub fn filter_note_ids(rows: Vec<DocSummary>) -> (r: Vec<String>)
    ensures
        r.deep_view() == spec_note_listing(rows@),
{
    let ghost orig = rows@;
    let mut rows = rows;
    let mut out: Vec<String> = Vec::new();
    while rows.len() > 0
        invariant
            out.deep_view() + spec_note_listing(rows@) =~= spec_note_listing(orig),
        decreases rows@.len(),
    {
        let ghost before = rows@;
        let d = rows.remove(0);
        proof {
            assert(before[0] == d);
            assert(before.drop_first() =~= rows@);
        }
        let keep = !crate::strutil::str_starts_with(d.id.as_str(), "h:")
            && !crate::strutil::str_starts_with(d.id.as_str(), "_") && !d.deleted && !d.doc_deleted;
        if keep {
            proof {
                assert(spec_listed_note(before[0]));
                assert(out.deep_view().push(d.id@) + spec_note_listing(before.drop_first()) =~= out.deep_view()
                    + (seq![d.id@] + spec_note_listing(before.drop_first())));
            }
            out.push(d.id);
        } else {
            proof {
                assert(!spec_listed_note(before[0]));
            }
        }
    }
    proof {
        assert(spec_note_listing(rows@) =~= Seq::<Seq<char>>::empty());
        assert(out.deep_view() + Seq::<Seq<char>>::empty() =~= out.deep_view());
    }
    out
}

/// Keep the ids that start with the given prefix, in order.
pub open spec fn spec_with_prefix(ids: Seq<Seq<char>>, prefix: Seq<char>) -> Seq<Seq<char>>
    decreases ids.len(),
{
    if ids.len() == 0 {
        Seq::empty()
    } else if starts_with(ids[0], prefix) {
        seq![ids[0]] + spec_with_prefix(ids.drop_first(), prefix)
    } else {
        spec_with_prefix(ids.drop_first(), prefix)
    }
}

/// Filter note ids by a path prefix.
pub fn filter_by_prefix(ids: Vec<String>, prefix: &str) -> (r: Vec<String>)
    ensures
        r.deep_view() == spec_with_prefix(ids.deep_view(), prefix@),
{
    let ghost orig = ids.deep_view();
    let mut ids = ids;
    let mut out: Vec<String> = Vec::new();
    while ids.len() > 0
        invariant
            out.deep_view() + spec_with_prefix(ids.deep_view(), prefix@) =~= spec_with_prefix(
                orig,
                prefix@,
            ),
        decreases ids@.len(),
    {
        let ghost before = ids.deep_view();
        let id = ids.remove(0);
        proof {
            assert(before[0] == id@);
            assert(before.drop_first() =~= ids.deep_view());
        }
        if crate::strutil::str_starts_with(id.as_str(), prefix) {
            proof {
                assert(out.deep_view().push(id@) + spec_with_prefix(before.drop_first(), prefix@)
                    =~= out.deep_view() + (seq![id@] + spec_with_prefix(
                    before.drop_first(),
                    prefix@,
                )));
            }
            out.push(id);
        }
    }
    proof {
        assert(spec_with_prefix(ids.deep_view(), prefix@) =~= Seq::<Seq<char>>::empty());
        assert(out.deep_view() + Seq::<Seq<char>>::empty() =~= out.deep_view());
    }
    out
}

/// Everything one save touches, in the order it must be performed: write the
/// new leaves first, then the parent document, and only after that succeeds
/// delete the old chunks, best-effort. Orphaned chunks are garbage; a parent
/// referencing a missing chunk corrupts the note.
pub struct SavePlan {
    pub new_leaves: Vec<LeafDoc>,
    pub doc: NoteDoc,
    pub old_chunk_ids: Vec<String>,
}

/// Plan a save of `content` under `path`: the content is split into chunks,
/// each chunk becomes a fresh leaf, and the parent references exactly those
/// leaves in order, so that the planned leaves reassemble to the content.
pub fn plan_save_note(path: &str, content: &str, existing: Option<&NoteDoc>, now_ms: u64) -> (r:
    SavePlan)
    ensures
        r.doc.id@ == path@,
        r.doc.path@ == path@,
        r.doc.doc_type@ == "plain"@,
        r.doc.data@.len() == 0,
        r.doc.mtime == now_ms,
        byte_len(content@) <= usize::MAX ==> r.doc.size == byte_len(content@),
        r.doc.deleted is None,
        r.doc.eden@ == "{}"@,
        r.doc.rev == (match existing {
            Some(d) => d.rev,
            None => None::<String>,
        }),
        r.doc.ctime == (match existing {
            Some(d) => d.ctime,
            None => now_ms,
        }),
        r.old_chunk_ids@ == (match existing {
            Some(d) => d.children@,
            None => Seq::<String>::empty(),
        }),
        r.new_leaves@.len() == split_plain(content@).len(),
        r.doc.children@.len() == r.new_leaves@.len(),
        forall|i: int|
            0 <= i < r.new_leaves@.len() ==> (#[trigger] r.new_leaves@[i]).data@ == split_plain(
                content@,
            )[i],
        forall|i: int|
            0 <= i < r.new_leaves@.len() ==> (#[trigger] r.new_leaves@[i]).doc_type@ == "leaf"@,
        forall|i: int| 0 <= i < r.new_leaves@.len() ==> (#[trigger] r.new_leaves@[i]).rev is None,
        forall|i: int|
            0 <= i < r.new_leaves@.len() ==> (#[trigger] r.new_leaves@[i]).id@
                == r.doc.children@[i]@,
        forall|i: int|
            0 <= i < r.doc.children@.len() ==> spec_is_chunk_id((#[trigger] r.doc.children@[i])@),
{
    let chunks = split_content(content);
    let ghost chunk_views = chunks.deep_view();
    let mut chunks = chunks;
    let mut new_leaves: Vec<LeafDoc> = Vec::new();
    let mut children: Vec<String> = Vec::new();
    while chunks.len() > 0
        invariant
            new_leaves@.len() + chunks@.len() == chunk_views.len(),
            children@.len() == new_leaves@.len(),
            chunks.deep_view() =~= chunk_views.skip(new_leaves@.len() as int),
            forall|i: int|
                0 <= i < new_leaves@.len() ==> (#[trigger] new_leaves@[i]).data@ == chunk_views[i],
            forall|i: int|
                0 <= i < new_leaves@.len() ==> (#[trigger] new_leaves@[i]).doc_type@ == "leaf"@,
            forall|i: int| 0 <= i < new_leaves@.len() ==> (#[trigger] new_leaves@[i]).rev is None,
            forall|i: int|
                0 <= i < new_leaves@.len() ==> (#[trigger] new_leaves@[i]).id@ == children@[i]@,
            forall|i: int|
                0 <= i < children@.len() ==> spec_is_chunk_id((#[trigger] children@[i])@),
        decreases chunks@.len(),
    {
        let ghost before = chunks.deep_view();
        let data = chunks.remove(0);
        proof {
            assert(before[0] == data@);
            assert(before.drop_first() =~= chunks.deep_view());
        }
        let id = generate_chunk_id();
        children.push(clone_string(&id));
        new_leaves.push(LeafDoc { id, rev: None, data, doc_type: String::from_str("leaf") });
    }
    let doc = NoteDoc {
        id: String::from_str(path),
        rev: match existing {
            Some(d) => clone_opt_string(&d.rev),
            None => None,
        },
        path: String::from_str(path),
        data: String::new(),
        ctime: match existing {
            Some(d) => d.ctime,
            None => now_ms,
        },
        mtime: now_ms,
        size: content.len() as u64,
        doc_type: String::from_str("plain"),
        children,
        deleted: None,
        eden: String::from_str("{}"),
    };
    let old_chunk_ids = match existing {
        Some(d) => clone_strings(&d.children),
        None => Vec::new(),
    };
    proof {
        assert((match existing {
            Some(d) => d.children@,
            None => Seq::<String>::empty(),
        }) =~= old_chunk_ids@);
    }
    SavePlan { new_leaves, doc, old_chunk_ids }
}

/// Law: re-saving decoded content round-trips. A plan for `content` carries
/// leaves holding exactly `split_plain(content)`, and decoding a `plain`
/// note from those chunks gives back exactly `content`.
pub proof fn lemma_resave_round_trip(content: Seq<char>, data: Seq<char>)
    ensures
        spec_decoded_content("plain"@, data, split_plain(content)) == Ok::<Seq<char>, FormatError>(
            content,
        ),
{
    crate::codec::lemma_split_assemble_round_trip(content);
}

/// Plan a soft delete: the same document rewritten with `deleted: true` and
/// a bumped `mtime`, chunks and revision kept.
pub fn plan_soft_delete(existing: NoteDoc, now_ms: u64) -> (r: NoteDoc)
    ensures
        r.id@ == existing.id@,
        r.rev == existing.rev,
        r.path@ == existing.path@,
        r.data@ == existing.data@,
        r.ctime == existing.ctime,
        r.mtime == now_ms,
        r.size == existing.size,
        r.doc_type@ == existing.doc_type@,
        r.children@ == existing.children@,
        r.deleted == Some(true),
        r.eden@ == existing.eden@,
{
    let NoteDoc { id, rev, path, data, ctime, mtime: _, size, doc_type, children, deleted: _, eden } =
        existing;
    NoteDoc {
        id,
        rev,
        path,
        data,
        ctime,
        mtime: now_ms,
        size,
        doc_type,
        children,
        deleted: Some(true),
        eden,
    }
}

/// The content appended to a note: the old content, a newline, the addition.
pub fn append_content(current: &str, addition: &str) -> (r: String)
    ensures
        r@ == current@ + "\n"@ + addition@,
{
    String::from_str(current).concat("\n").concat(addition)
}

/// What decoding a note document yields, given the data of its chunks in
/// `children` order: chunked types concatenate the chunks; the legacy
/// `notes` type base64-decodes the document's own data; anything else is a
/// format error.
pub open spec fn spec_decoded_content(
    doc_type: Seq<char>,
    data: Seq<char>,
    chunk_datas: Seq<Seq<char>>,
) -> Result<Seq<char>, FormatError> {
    if doc_type == "plain"@ || doc_type == "newnote"@ {
        Ok(chunk_datas.flatten())
    } else if doc_type == "notes"@ {
        match b64_std_decoded(data) {
            Some(bytes) => if valid_utf8(bytes) {
                Ok(decode_utf8(bytes))
            } else {
                Err(FormatError::NotUtf8)
            },
            None => Err(FormatError::NotBase64),
        }
    } else {
        Err(FormatError::UnknownDocType)
    }
}

/// Decode a note's logical content from its document and the data of its
/// chunks, fetched in `children` order.
pub fn decode_content_from_parts(doc: &NoteDoc, chunk_datas: &Vec<String>) -> (r: Result<
    String,
    FormatError,
>)
    ensures
        (match r {
            Ok(s) => Ok(s@),
            Err(e) => Err::<Seq<char>, FormatError>(e),
        }) == spec_decoded_content(doc.doc_type@, doc.data@, chunk_datas.deep_view()),
{
    if str_eq(doc.doc_type.as_str(), "plain") || str_eq(doc.doc_type.as_str(), "newnote") {
        Ok(crate::codec::assemble_content(chunk_datas))
    } else if str_eq(doc.doc_type.as_str(), "notes") {
        match b64_std_decode(doc.data.as_str()) {
            Some(bytes) => match utf8_to_string(bytes) {
                Some(s) => Ok(s),
                None => Err(FormatError::NotUtf8),
            },
            None => Err(FormatError::NotBase64),
        }
    } else {
        Err(FormatError::UnknownDocType)
    }
}

} // verus!
