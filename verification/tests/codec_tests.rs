use yamos::codec::{assemble_content, generate_chunk_id, split_content};
use yamos::paths::{validate_note_path, PathError};
use yamos::store::{
    basic_auth_header, decode_content_from_parts, doc_url, filter_by_prefix, filter_note_ids,
    plan_save_note, plan_soft_delete, DocSummary, FormatError, NoteDoc,
};
use yamos::tools::{edit_note_content, u64_to_string, EditError};

fn note_doc(doc_type: &str, data: &str) -> NoteDoc {
    NoteDoc {
        id: "n.md".to_string(),
        rev: None,
        path: "n.md".to_string(),
        data: data.to_string(),
        ctime: 0,
        mtime: 0,
        size: 0,
        doc_type: doc_type.to_string(),
        children: Vec::new(),
        deleted: None,
        eden: "{}".to_string(),
    }
}

#[test]
fn split_assemble_round_trip_ascii() {
    let content = "The quick brown fox jumps over the lazy dog, twice over.";
    let chunks = split_content(content);
    assert!(chunks.len() > 1);
    for c in &chunks {
        assert!(c.len() <= 32);
        assert!(!c.is_empty());
    }
    assert_eq!(assemble_content(&chunks), content);
}

#[test]
fn split_short_and_empty_content() {
    let chunks = split_content("hi");
    assert_eq!(chunks, vec!["hi".to_string()]);
    let chunks = split_content("");
    assert_eq!(chunks, vec![String::new()]);
    assert_eq!(assemble_content(&chunks), "");
}

#[test]
fn split_never_cuts_a_code_point() {
    let content = format!("{}🌍{}", "a".repeat(30), "b".repeat(30));
    let chunks = split_content(&content);
    for c in &chunks {
        assert!(c.len() <= 32);
        assert!(c.is_char_boundary(c.len()));
    }
    let holding: Vec<&String> = chunks.iter().filter(|c| c.contains('🌍')).collect();
    assert_eq!(holding.len(), 1);
    assert_eq!(assemble_content(&chunks), content);
}

#[test]
fn chunk_ids_have_the_required_shape() {
    for _ in 0..8 {
        let id = generate_chunk_id();
        assert_eq!(id.len(), 15);
        assert!(id.starts_with("h:"));
        assert!(id[2..].chars().all(|c| c.is_ascii_lowercase() || c.is_ascii_digit()));
    }
}

#[test]
fn decimal_rendering() {
    assert_eq!(u64_to_string(0), "0");
    assert_eq!(u64_to_string(7), "7");
    assert_eq!(u64_to_string(1002), "1002");
    assert_eq!(u64_to_string(987654321), "987654321");
}

#[test]
fn edit_unique_context() {
    // two occurrences: rejected, naming the count
    assert_eq!(
        edit_note_content("foo\nfoo\n", "foo", "bar"),
        Err(EditError::MultipleMatches(2))
    );
    // a unique occurrence: replaced
    assert_eq!(edit_note_content("foo\nfoo\n", "foo\nfoo", "bar").unwrap(), "bar\n");
}

#[test]
fn edit_rejections() {
    assert_eq!(edit_note_content("abc", "", "x"), Err(EditError::EmptyOldString));
    assert_eq!(edit_note_content("abc", "b", "b"), Err(EditError::UnchangedOldString));
    assert_eq!(edit_note_content("abc", "zzz", "x"), Err(EditError::NotFound));
    assert!(EditError::MultipleMatches(2).message().contains("2"));
}

#[test]
fn path_validation_rules() {
    assert_eq!(validate_note_path("Projects/foo bar.md"), Ok(()));
    assert_eq!(validate_note_path("it's (v2).md"), Ok(()));
    assert_eq!(validate_note_path(""), Err(PathError::Empty));
    assert_eq!(validate_note_path("notes.txt"), Err(PathError::NoMdExtension));
    assert_eq!(validate_note_path("../up.md"), Err(PathError::ParentTraversal));
    assert_eq!(validate_note_path("/abs.md"), Err(PathError::LeadingSlash));
    assert_eq!(validate_note_path("a\u{0}b.md"), Err(PathError::NulByte));
    assert_eq!(validate_note_path("bad|pipe.md"), Err(PathError::InvalidChar('|')));
    assert_eq!(validate_note_path("héllo.md"), Err(PathError::InvalidChar('é')));
}

#[test]
fn save_plan_is_crash_safe_and_round_trips() {
    let content = "some note content that spans more than one chunk easily";
    let plan = plan_save_note("n.md", content, None, 42);
    assert_eq!(plan.doc.id, "n.md");
    assert_eq!(plan.doc.doc_type, "plain");
    assert_eq!(plan.doc.mtime, 42);
    assert_eq!(plan.doc.ctime, 42);
    assert_eq!(plan.doc.size, content.len() as u64);
    assert!(plan.doc.rev.is_none());
    assert!(plan.old_chunk_ids.is_empty());
    assert_eq!(plan.doc.children.len(), plan.new_leaves.len());
    for (leaf, child) in plan.new_leaves.iter().zip(plan.doc.children.iter()) {
        assert_eq!(&leaf.id, child);
        assert_eq!(leaf.doc_type, "leaf");
    }
    let datas: Vec<String> = plan.new_leaves.iter().map(|l| l.data.clone()).collect();
    assert_eq!(assemble_content(&datas), content);

    // updating keeps rev and ctime and schedules the old chunks for deletion
    let mut existing = note_doc("plain", "");
    existing.rev = Some("3-abc".to_string());
    existing.ctime = 7;
    existing.children = vec!["h:0123456789abc".to_string()];
    let plan2 = plan_save_note("n.md", "new", Some(&existing), 99);
    assert_eq!(plan2.doc.rev.as_deref(), Some("3-abc"));
    assert_eq!(plan2.doc.ctime, 7);
    assert_eq!(plan2.doc.mtime, 99);
    assert_eq!(plan2.old_chunk_ids, vec!["h:0123456789abc".to_string()]);
}

#[test]
fn soft_delete_marks_and_bumps() {
    let mut doc = note_doc("plain", "");
    doc.rev = Some("5-x".to_string());
    doc.children = vec!["h:aaaaaaaaaaaaa".to_string()];
    let deleted = plan_soft_delete(doc, 1234);
    assert_eq!(deleted.deleted, Some(true));
    assert_eq!(deleted.mtime, 1234);
    assert_eq!(deleted.rev.as_deref(), Some("5-x"));
    assert_eq!(deleted.children, vec!["h:aaaaaaaaaaaaa".to_string()]);
}

#[test]
fn decode_content_by_doc_type() {
    let chunks = vec!["hel".to_string(), "lo".to_string()];
    assert_eq!(
        decode_content_from_parts(&note_doc("plain", ""), &chunks).unwrap(),
        "hello"
    );
    assert_eq!(
        decode_content_from_parts(&note_doc("notes", "aGVsbG8="), &Vec::new()).unwrap(),
        "hello"
    );
    assert_eq!(
        decode_content_from_parts(&note_doc("notes", "!!!"), &Vec::new()),
        Err(FormatError::NotBase64)
    );
    assert_eq!(
        decode_content_from_parts(&note_doc("notes", "/w=="), &Vec::new()),
        Err(FormatError::NotUtf8)
    );
    assert_eq!(
        decode_content_from_parts(&note_doc("mystery", ""), &Vec::new()),
        Err(FormatError::UnknownDocType)
    );
}

#[test]
fn listing_filters_and_prefixes() {
    let rows = vec![
        DocSummary { id: "h:0123456789abc".to_string(), deleted: false, doc_deleted: false },
        DocSummary { id: "_design/x".to_string(), deleted: false, doc_deleted: false },
        DocSummary { id: "gone.md".to_string(), deleted: true, doc_deleted: false },
        DocSummary { id: "soft.md".to_string(), deleted: false, doc_deleted: true },
        DocSummary { id: "Projects/a.md".to_string(), deleted: false, doc_deleted: false },
        DocSummary { id: "b.md".to_string(), deleted: false, doc_deleted: false },
    ];
    let ids = filter_note_ids(rows);
    assert_eq!(ids, vec!["Projects/a.md".to_string(), "b.md".to_string()]);
    let filtered = filter_by_prefix(ids, "Projects/");
    assert_eq!(filtered, vec!["Projects/a.md".to_string()]);
}

#[test]
fn auth_header_and_doc_url() {
    assert_eq!(basic_auth_header("user", "pass"), "Basic dXNlcjpwYXNz");
    assert_eq!(
        doc_url("http://db:5984", "obsidian", "a b.md"),
        "http://db:5984/obsidian/a%20b.md"
    );
}

#[test]
fn batch_records_report_per_element() {
    let outcomes = yamos::tools::validate_paths(&vec![
        "good.md".to_string(),
        "../bad.md".to_string(),
    ]);
    assert_eq!(outcomes.len(), 2);
    assert!(outcomes[0].is_none());
    assert_eq!(outcomes[1], Some(PathError::ParentTraversal));

    let ok = yamos::tools::batch_read_record("a.md".to_string(), Ok("text".to_string()));
    assert!(ok.success);
    assert_eq!(ok.content.as_deref(), Some("text"));
    assert!(ok.error.is_none());

    let bad = yamos::tools::batch_write_record("b.md".to_string(), Err("boom".to_string()));
    assert!(!bad.success);
    assert_eq!(bad.error.as_deref(), Some("boom"));

    let del = yamos::tools::batch_delete_record("c.md".to_string(), Ok(()));
    assert!(del.success);
    let app = yamos::tools::batch_append_record("d.md".to_string(), Err("nope".to_string()));
    assert!(!app.success);
}
