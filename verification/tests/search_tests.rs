use yamos::search::{extract_snippet, extract_title, NoteEntry, SearchIndex, SearchOptions};

#[test]
fn test_extract_title_from_heading() {
    let content = "# My Great Note\n\nSome content here";
    assert_eq!(extract_title("notes/test.md", content), "My Great Note");
}

#[test]
fn test_extract_title_from_path() {
    let content = "No heading here, just content";
    assert_eq!(extract_title("Projects/my-project.md", content), "my-project");
}

#[test]
fn test_extract_title_with_frontmatter() {
    let content = "---\ntags: [test]\n---\n\n# Actual Title\n\nContent";
    assert_eq!(extract_title("test.md", content), "Actual Title");
}

#[test]
fn test_search_empty_query() {
    let index = SearchIndex::new();
    let results = index.search("", SearchOptions::default());
    assert!(results.is_empty());
}

#[test]
fn test_search_basic() {
    let mut index = SearchIndex::new();
    index.upsert(
        "test.md".to_string(),
        NoteEntry {
            path: "test.md".to_string(),
            title: "Meeting Notes".to_string(),
            content: "Discussed the project roadmap".to_string(),
            mtime: 0,
        },
    );

    let results = index.search("meeting", SearchOptions::default());
    assert_eq!(results.len(), 1);
    assert_eq!(results[0].path, "test.md");
}

#[test]
fn test_extract_snippet() {
    let content = "This is some really long content that contains many words. The word meeting appears somewhere in the middle of this very long text. And then there is much more content after that which goes on and on for quite a while to make sure we have enough text to actually truncate.";
    let snippet = extract_snippet(content, "meeting").unwrap();
    assert!(snippet.contains("meeting"));
    // Snippet should be truncated (shorter than original)
    assert!(
        snippet.len() < content.len(),
        "snippet should be shorter than content. snippet: {}, content len: {}",
        snippet.len(),
        content.len()
    );
}

#[test]
fn test_snippet_absent_when_no_token_matches() {
    assert!(extract_snippet("plain text about nothing", "zebra").is_none());
    assert!(extract_snippet("whatever", "").is_none());
}

#[test]
fn test_snippet_case_insensitive() {
    let snippet = extract_snippet("We scheduled the MEETING for Friday", "meeting").unwrap();
    assert!(snippet.contains("MEETING"));
}

#[test]
fn test_index_len_upsert_remove_clear() {
    let mut index = SearchIndex::new();
    assert!(index.is_empty());
    index.upsert(
        "a.md".to_string(),
        NoteEntry {
            path: "a.md".to_string(),
            title: "A".to_string(),
            content: "alpha".to_string(),
            mtime: 1,
        },
    );
    index.upsert(
        "a.md".to_string(),
        NoteEntry {
            path: "a.md".to_string(),
            title: "A2".to_string(),
            content: "alpha two".to_string(),
            mtime: 2,
        },
    );
    assert_eq!(index.len(), 1);
    index.remove("a.md");
    assert_eq!(index.len(), 0);
    index.upsert(
        "b.md".to_string(),
        NoteEntry {
            path: "b.md".to_string(),
            title: "B".to_string(),
            content: "beta".to_string(),
            mtime: 3,
        },
    );
    index.clear();
    assert!(index.is_empty());
    assert!(index.get_last_seq().is_none());
}

#[test]
fn test_search_title_weighted_and_limited() {
    let mut index = SearchIndex::new();
    for i in 0..5 {
        let path = format!("note{}.md", i);
        index.upsert(
            path.clone(),
            NoteEntry {
                path: path.clone(),
                title: "roadmap".to_string(),
                content: "roadmap planning notes".to_string(),
                mtime: i,
            },
        );
    }
    let results = index.search(
        "roadmap",
        SearchOptions { limit: 3, search_content: true },
    );
    assert_eq!(results.len(), 3);
    for w in results.windows(2) {
        assert!(w[0].score >= w[1].score);
    }
}

#[test]
fn test_title_fallback_strips_md_and_path() {
    assert_eq!(extract_title("deep/nested/some-note.md", ""), "some-note");
    assert_eq!(extract_title("plain.md", "   \n\n"), "plain");
}
