use yamos::search::SearchIndex;
use yamos::store::NoteDoc;
use yamos::watcher::{
    changes_feed_url, classify_change, drain_complete_lines, process_change_event, rebuild_index,
    should_full_resync, since_param, ChangeAction, ChangeEvent,
};

fn doc(deleted: Option<bool>) -> NoteDoc {
    NoteDoc {
        id: "n.md".to_string(),
        rev: Some("1-a".to_string()),
        path: "n.md".to_string(),
        data: String::new(),
        ctime: 0,
        mtime: 7,
        size: 0,
        doc_type: "plain".to_string(),
        children: Vec::new(),
        deleted,
        eden: "{}".to_string(),
    }
}

fn event(seq: &str, id: &str, deleted: bool, d: Option<NoteDoc>) -> ChangeEvent {
    ChangeEvent { seq: seq.to_string(), id: id.to_string(), deleted, doc: d }
}

#[test]
fn classification() {
    assert_eq!(classify_change(&event("1", "h:0123456789abc", false, None)), ChangeAction::Skip);
    assert_eq!(classify_change(&event("1", "_design/x", false, None)), ChangeAction::Skip);
    assert_eq!(classify_change(&event("1", "n.md", true, None)), ChangeAction::Remove);
    assert_eq!(
        classify_change(&event("1", "n.md", false, Some(doc(Some(true))))),
        ChangeAction::Remove
    );
    assert_eq!(
        classify_change(&event("1", "n.md", false, Some(doc(None)))),
        ChangeAction::Upsert
    );
    assert_eq!(classify_change(&event("1", "n.md", false, None)), ChangeAction::Skip);
}

#[test]
fn seq_advances_whatever_the_event() {
    let mut index = SearchIndex::new();

    // skip: chunk document
    process_change_event(&mut index, event("s1", "h:0123456789abc", false, None), None).unwrap();
    assert_eq!(index.get_last_seq().as_deref(), Some("s1"));
    assert_eq!(index.len(), 0);

    // upsert with decoded content
    process_change_event(
        &mut index,
        event("s2", "n.md", false, Some(doc(None))),
        Some("# Title\nbody".to_string()),
    )
    .unwrap();
    assert_eq!(index.get_last_seq().as_deref(), Some("s2"));
    assert_eq!(index.len(), 1);

    // soft delete removes
    process_change_event(&mut index, event("s3", "n.md", false, Some(doc(Some(true)))), None)
        .unwrap();
    assert_eq!(index.get_last_seq().as_deref(), Some("s3"));
    assert_eq!(index.len(), 0);

    // hard delete of something unknown still advances
    process_change_event(&mut index, event("s4", "other.md", true, None), None).unwrap();
    assert_eq!(index.get_last_seq().as_deref(), Some("s4"));

    // an upsert without content fails and does not advance
    let r = process_change_event(&mut index, event("s5", "n.md", false, Some(doc(None))), None);
    assert!(r.is_err());
    assert_eq!(index.get_last_seq().as_deref(), Some("s4"));
}

#[test]
fn resync_on_compacted_sequence() {
    // a stale `since` is answered 400 or with a body naming it
    assert!(should_full_resync(400, ""));
    assert!(should_full_resync(200, "the since parameter is too old"));
    assert!(!should_full_resync(500, "boom"));

    // the resync rebuilds the index from the full listing
    let mut index = SearchIndex::new();
    index.upsert(
        "stale.md".to_string(),
        yamos::search::NoteEntry {
            path: "stale.md".to_string(),
            title: "Stale".to_string(),
            content: "old".to_string(),
            mtime: 0,
        },
    );
    let listing = vec![
        ("a.md".to_string(), "# A\nalpha".to_string(), 1u64),
        ("b.md".to_string(), "beta".to_string(), 2u64),
        ("c.md".to_string(), "gamma".to_string(), 3u64),
    ];
    let n = listing.len();
    rebuild_index(&mut index, listing, Some("77".to_string()));
    assert_eq!(index.len(), n);
    assert_eq!(index.get_last_seq().as_deref(), Some("77"));
    let hits = index.search("alpha", yamos::search::SearchOptions::default());
    assert_eq!(hits.len(), 1);
    assert_eq!(hits[0].title, "A");
}

#[test]
fn line_draining_and_feed_url() {
    let (lines, rest) = drain_complete_lines("{\"seq\":1}\n{\"seq\":2}\npartial");
    assert_eq!(lines, vec!["{\"seq\":1}".to_string(), "{\"seq\":2}".to_string()]);
    assert_eq!(rest, "partial");
    let (lines, rest) = drain_complete_lines("no newline yet");
    assert!(lines.is_empty());
    assert_eq!(rest, "no newline yet");

    assert_eq!(
        changes_feed_url("http://db:5984/obsidian", "1-g1AA"),
        "http://db:5984/obsidian/_changes?feed=continuous&include_docs=true&since=1-g1AA&heartbeat=30000"
    );
    assert_eq!(since_param(&None), "now");
    assert_eq!(since_param(&Some("9".to_string())), "9");
}

#[test]
fn append_content_adds_newline() {
    assert_eq!(yamos::store::append_content("line one", "line two"), "line one\nline two");
}
