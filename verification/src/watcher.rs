//! Change-feed consumption: the decisions that keep the search index
//! coherent with the document store.
//!
//! The feed arrives as newline-delimited JSON; the surrounding task splits
//! the byte stream into lines, parses each into a [`ChangeEvent`], fetches
//! and decodes note content where an upsert needs it, and applies the event
//! here. Whatever the event's kind, applying it advances the index's
//! watermark to the event's sequence. A failed feed request with status 400
//! or a body mentioning `since` means the sequence was compacted: the index
//! is then rebuilt from a full listing.

use vstd::prelude::*;
use crate::search::{spec_extract_title, NoteEntry, SearchIndex};
use crate::store::NoteDoc;
use crate::strutil::{spec_lines, starts_with, str_contains};

verus! {

/// One event of the continuous change feed, parsed.
#[derive(Debug)]
pub struct ChangeEvent {
    /// Opaque position of this event in the feed.
    pub seq: String,
    /// Document id the event concerns.
    pub id: String,
    /// The document was hard-deleted at the database layer.
    pub deleted: bool,
    /// The included document, when the feed carried one.
    pub doc: Option<NoteDoc>,
}

/// What an event asks of the index.
#[derive(Debug, Clone, Copy, PartialEq, Eq, Structural)]
pub enum ChangeAction {
    /// Chunk or system document, or no document included: only the
    /// watermark advances.
    Skip,
    /// Hard- or soft-deleted note: drop it from the index.
    Remove,
    /// Live note: its decoded content replaces the indexed entry.
    Upsert,
}

/// How an event classifies: chunk (`h:`) and system (`_`) ids are skipped,
/// hard and soft deletions remove, a live included document upserts, and an
/// event without a document only advances the watermark.
pub open spec fn spec_classify(e: ChangeEvent) -> ChangeAction {
    if starts_with(e.id@, "h:"@) || starts_with(e.id@, "_"@) {
        ChangeAction::Skip
    } else if e.deleted {
        ChangeAction::Remove
    } else {
        match e.doc {
            Some(d) => if d.deleted == Some(true) {
                ChangeAction::Remove
            } else {
                ChangeAction::Upsert
            },
            None => ChangeAction::Skip,
        }
    }
}

/// Classify one change event.
pub fn classify_change(e: &ChangeEvent) -> (r: ChangeAction)
    ensures
        r == spec_classify(*e),
{
    if crate::strutil::str_starts_with(e.id.as_str(), "h:") || crate::strutil::str_starts_with(
        e.id.as_str(),
        "_",
    ) {
        ChangeAction::Skip
    } else if e.deleted {
        ChangeAction::Remove
    } else {
        match &e.doc {
            Some(d) => match d.deleted {
                Some(true) => ChangeAction::Remove,
                _ => ChangeAction::Upsert,
            },
            None => ChangeAction::Skip,
        }
    }
}

/// The entry an upsert writes for an event: the event's id as path, the
/// decoded content, the title derived from both, and the included document's
/// modification time (zero when the feed carried no document).
pub open spec fn spec_upserted_entry(entry: NoteEntry, event: ChangeEvent, content: String) -> bool {
    &&& entry.path@ == event.id@
    &&& entry.content@ == content@
    &&& entry.title@ == spec_extract_title(event.id@, content@)
    &&& entry.mtime == (match event.doc {
        Some(d) => d.mtime,
        None => 0,
    })
}

/// Why an event could not be applied.
#[derive(Debug, Clone, Copy, PartialEq, Eq, Structural)]
pub struct MissingContent;

/// Apply one change event to the index, given the note's decoded content
/// where the event upserts one. Whatever the event's kind, a successful
/// application moves the watermark to the event's sequence; an upsert whose
/// content could not be decoded changes nothing.
pub fn process_change_event(index: &mut SearchIndex, event: ChangeEvent, content: Option<String>)
    -> (r: Result<(), MissingContent>)
    requires
        old(index).wf(),
    ensures
        final (index).wf(),
        r is Ok ==> final (index).watermark() == Some(event.seq),
        spec_classify(event) == ChangeAction::Skip ==> r is Ok && final (index).entries() == old(
            index,
        ).entries(),
        spec_classify(event) == ChangeAction::Remove ==> r is Ok && (!crate::search::has_path(
            old(index).entries(),
            event.id@,
        ) ==> final (index).entries() == old(index).entries()) && (crate::search::has_path(
            old(index).entries(),
            event.id@,
        ) ==> exists|i: int|
            0 <= i < old(index).entries().len() && (#[trigger] old(index).entries()[i].path)@
                == event.id@ && final (index).entries() == old(index).entries().remove(i)),
        spec_classify(event) == ChangeAction::Upsert && content is None ==> r
            == Err::<(), MissingContent>(MissingContent) && *final (index) == *old(index),
        (spec_classify(event) == ChangeAction::Upsert && content is Some) ==> (r is Ok && (
        !crate::search::has_path(old(index).entries(), event.id@) ==> exists|entry: NoteEntry|
            final (index).entries() == old(index).entries().push(entry) && spec_upserted_entry(
                entry,
                event,
                content->0,
            )) && (crate::search::has_path(old(index).entries(), event.id@) ==> exists|
            i: int,
            entry: NoteEntry,
        |
            #![trigger old(index).entries().update(i, entry)]
            0 <= i < old(index).entries().len() && (old(index).entries()[i].path)@ == event.id@
                && final (index).entries() == old(index).entries().update(i, entry)
                && spec_upserted_entry(entry, event, content->0))),
{
    let action = classify_change(&event);
    match action {
        ChangeAction::Skip => {
            index.set_last_seq(Some(event.seq));
            Ok(())
        },
        ChangeAction::Remove => {
            index.remove(event.id.as_str());
            index.set_last_seq(Some(event.seq));
            Ok(())
        },
        ChangeAction::Upsert => {
            match content {
                None => Err(MissingContent),
                Some(c) => {
                    let title = crate::search::extract_title(event.id.as_str(), c.as_str());
                    let mtime = match &event.doc {
                        Some(d) => d.mtime,
                        None => 0,
                    };
                    let path = crate::strutil::clone_string(&event.id);
                    let entry = NoteEntry { path, title, content: c, mtime };
                    index.upsert(event.id, entry);
                    index.set_last_seq(Some(event.seq));
                    Ok(())
                },
            }
        },
    }
}

/// The rebuilt entries mirror the listing one to one: same length, and at
/// each position the listed path and content, the title derived from them,
/// and the listed modification time.
pub open spec fn rebuilt_entries_match(
    entries: Seq<NoteEntry>,
    notes: Seq<(String, String, u64)>,
) -> bool {
    &&& entries.len() == notes.len()
    &&& forall|i: int|
        0 <= i < notes.len() ==> (#[trigger] entries[i]).path@ == notes[i].0@
            && entries[i].content@ == notes[i].1@ && entries[i].title@ == spec_extract_title(
            notes[i].0@,
            notes[i].1@,
        ) && entries[i].mtime == notes[i].2
}

/// Rebuild the index from a full listing of `(path, content, mtime)` and
/// the listing's sequence: the index then holds exactly those notes (paths
/// being distinct) and the watermark stands at that sequence.
pub fn rebuild_index(
    index: &mut SearchIndex,
    notes: Vec<(String, String, u64)>,
    last_seq: Option<String>,
)
    ensures
        final (index).wf(),
        final (index).watermark() == last_seq,
        (forall|i: int, j: int|
            0 <= i < j < notes@.len() ==> (#[trigger] notes@[i].0)@ != (#[trigger] notes@[j].0)@)
            ==> rebuilt_entries_match(final (index).entries(), notes@),
{
    index.clear();
    let ghost all = notes@;
    let ghost distinct = forall|i: int, j: int|
        0 <= i < j < all.len() ==> (#[trigger] all[i].0)@ != (#[trigger] all[j].0)@;
    let mut notes = notes;
    let total = notes.len();
    let mut done: usize = 0;
    while notes.len() > 0
        invariant
            index.wf(),
            total == all.len(),
            done <= total,
            done + notes@.len() == all.len(),
            notes@ =~= all.skip(done as int),
            index.entries().len() <= done,
            distinct == (forall|i: int, j: int|
                0 <= i < j < all.len() ==> (#[trigger] all[i].0)@ != (#[trigger] all[j].0)@),
            distinct ==> rebuilt_entries_match(index.entries(), all.take(done as int)),
        decreases notes@.len(),
    {
        let ghost before = notes@;
        let ghost entries_before = index.entries();
        let (path, content, mtime) = notes.remove(0);
        proof {
            assert(before[0] == (path, content, mtime));
            assert(before.drop_first() =~= notes@);
            assert(all[done as int].0 == path);
        }
        let title = crate::search::extract_title(path.as_str(), content.as_str());
        let key = crate::strutil::clone_string(&path);
        let entry = NoteEntry { path, title, content, mtime };
        proof {
            if distinct {
                assert(!crate::search::has_path(index.entries(), key@)) by {
                    if crate::search::has_path(index.entries(), key@) {
                        let j = choose|j: int|
                            0 <= j < index.entries().len() && (#[trigger] index.entries()[j].path)@
                                == key@;
                        assert(all[j].0@ == all[done as int].0@);
                    }
                }
            }
        }
        index.upsert(key, entry);
        proof {
            if distinct {
                assert(index.entries() =~= entries_before.push(entry));
            }
            if !distinct {
                assert(index.entries().len() <= done + 1);
            }
        }
        done = done + 1;
    }
    index.set_last_seq(last_seq);
    proof {
        assert(done == all.len());
    }
}

/// The lines of the buffer that are complete, and the remainder after the
/// last newline, still accumulating.
pub fn drain_complete_lines(buffer: &str) -> (r: (Vec<String>, String))
    ensures
        r.0.deep_view() == spec_lines(buffer@).drop_last(),
        r.1@ == spec_lines(buffer@).last(),
{
    let mut lines = crate::strutil::split_lines(buffer);
    let ghost all = lines.deep_view();
    let rest = match lines.pop() {
        Some(s) => s,
        None => String::new(),
    };
    proof {
        assert(lines.deep_view() =~= all.drop_last());
    }
    (lines, rest)
}

/// The `since` parameter to resume from: the watermark, or `now` before any
/// is known.
pub fn since_param(last_seq: &Option<String>) -> (r: String)
    ensures
        match last_seq {
            Some(s) => r@ == s@,
            None => r@ == "now"@,
        },
{
    match last_seq {
        Some(s) => crate::strutil::clone_string(s),
        None => String::from_str("now"),
    }
}

/// The URL of the continuous change feed, resuming from `since`.
pub fn changes_feed_url(db_url: &str, since: &str) -> (r: String)
    ensures
        r@ == db_url@ + "/_changes?feed=continuous&include_docs=true&since="@
            + crate::strutil::urlenc_of(since@) + "&heartbeat=30000"@,
{
    let enc = crate::strutil::urlencode(since);
    String::from_str(db_url).concat("/_changes?feed=continuous&include_docs=true&since=").concat(
        enc.as_str(),
    ).concat("&heartbeat=30000")
}

/// A failed feed request calls for a full resync when the server answered
/// 400 or the body mentions `since`: the resume sequence was compacted.
pub fn should_full_resync(status: u16, body: &str) -> (r: bool)
    ensures
        r == (status == 400 || crate::strutil::spec_contains(body@, "since"@)),
{
    status == 400 || str_contains(body, "since")
}

} // verus!
