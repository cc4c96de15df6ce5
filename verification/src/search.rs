//! In-memory fuzzy search index over the vault's notes.
//!
//! The index maps each note path to its entry and carries the change feed's
//! `last_seq` watermark. Searching scores the title and optionally the
//! content of every note with a fuzzy matcher — a title match counts double,
//! saturating — sorts descending by score, and truncates to the limit. An
//! empty query returns nothing.

use vstd::prelude::*;
use vstd::pervasive::VecAdditionalExecFns;
use crate::strutil::{spec_join_spaces, spec_tokens, tokens};
use vstd::multiset::Multiset;
use nucleo_matcher::pattern::{CaseMatching, Normalization, Pattern};
use nucleo_matcher::{Config, Matcher, Utf32Str};

verus! {

/// A single note's indexed content.
#[derive(Debug)]
pub struct NoteEntry {
    pub path: String,
    pub title: String,
    pub content: String,
    pub mtime: u64,
}

/// One search hit.
#[derive(Debug)]
pub struct SearchResult {
    pub path: String,
    pub title: String,
    pub score: u32,
    pub snippet: Option<String>,
}

/// Options for one search query.
pub struct SearchOptions {
    pub limit: usize,
    pub search_content: bool,
}

impl Default for SearchOptions {
    /// Twenty results, content searched.
    fn default() -> (r: Self)
        ensures
            r.limit == 20,
            r.search_content == true,
    {
        SearchOptions { limit: 20, search_content: true }
    }
}

/// The score nucleo's fuzzy matcher gives `text` for `query` under smart
/// case and smart normalization: a function of the two strings alone, absent
/// when the text does not match.
pub uninterp spec fn fuzzy_score_of(query: Seq<char>, text: Seq<char>) -> Option<u32>;

/// Relies on nucleo_matcher's Pattern::parse and Pattern::score with the
/// default matcher configuration, smart case and smart normalization: the
/// score depends on the query and the text alone.
#[verifier::external_body]
fn fuzzy_score(query: &str, text: &str) -> (r: Option<u32>)
    ensures
        r == fuzzy_score_of(query@, text@),
{
    let mut matcher = Matcher::new(Config::DEFAULT);
    let pattern = Pattern::parse(query, CaseMatching::Smart, Normalization::Smart);
    let mut buf = Vec::new();
    let text32 = Utf32Str::new(text, &mut buf);
    pattern.score(text32, &mut matcher)
}

/// Title and content scores combined: a title match counts double,
/// saturating; a note scores at all only if title or content matched.
pub open spec fn spec_combined_score(t: Option<u32>, c: Option<u32>) -> Option<u32> {
    match (t, c) {
        (Some(ts), Some(cs)) => Some(ts.saturating_add(ts).saturating_add(cs)),
        (Some(ts), None) => Some(ts.saturating_add(ts)),
        (None, Some(cs)) => Some(cs),
        (None, None) => None,
    }
}

/// The score an entry earns for a query, content counted only when asked.
pub open spec fn spec_entry_score(q: Seq<char>, e: NoteEntry, search_content: bool) -> Option<u32> {
    spec_combined_score(
        fuzzy_score_of(q, e.title@),
        if search_content {
            fuzzy_score_of(q, e.content@)
        } else {
            None
        },
    )
}

/// The entries that score at all, in index order.
pub open spec fn spec_matching_notes(s: Seq<NoteEntry>, q: Seq<char>, search_content: bool) -> Seq<
    NoteEntry,
>
    decreases s.len(),
{
    if s.len() == 0 {
        Seq::empty()
    } else if spec_entry_score(q, s[0], search_content) is Some {
        seq![s[0]] + spec_matching_notes(s.drop_first(), q, search_content)
    } else {
        spec_matching_notes(s.drop_first(), q, search_content)
    }
}

/// Some whitespace-token of the query occurs in the text, ignoring ASCII
/// case.
pub open spec fn spec_has_token_match(text: Seq<char>, q: Seq<char>) -> bool {
    exists|w: int|
        0 <= w < spec_tokens(q).len() && spec_contains_ci(text, #[trigger] spec_tokens(q)[w])
}

/// A hit reports an entry faithfully: its path, its title, its exact score,
/// no snippet when content was not searched, and — when it was — a snippet
/// exactly when the content matched the fuzzy query and holds a token of it.
pub open spec fn spec_hit_of(r: SearchResult, e: NoteEntry, q: Seq<char>, search_content: bool) -> bool {
    &&& r.path@ == e.path@
    &&& r.title@ == e.title@
    &&& Some(r.score) == spec_entry_score(q, e, search_content)
    &&& !search_content ==> r.snippet is None
    &&& search_content ==> (r.snippet is Some <==> (fuzzy_score_of(q, e.content@) is Some
        && spec_has_token_match(e.content@, q)))
}

/// The scores of a sequence of hits, in order.
pub open spec fn spec_hit_scores(s: Seq<SearchResult>) -> Seq<u32> {
    s.map_values(|h: SearchResult| h.score)
}

/// The scores the matching entries earn, in index order.
pub open spec fn spec_match_scores(s: Seq<NoteEntry>, q: Seq<char>, sc: bool) -> Seq<u32> {
    spec_matching_notes(s, q, sc).map_values(|e: NoteEntry| spec_entry_score(q, e, sc)->0)
}

/// The results report exactly the top scores: some descending reordering of
/// all the matching entries' scores begins with the results' scores, and
/// the results are as many as fit the limit.
pub open spec fn spec_top_scores(
    entries: Seq<NoteEntry>,
    q: Seq<char>,
    sc: bool,
    limit: int,
    rs: Seq<SearchResult>,
) -> bool {
    exists|ss: Seq<u32>|
        {
            &&& (#[trigger] ss.to_multiset()) == spec_match_scores(entries, q, sc).to_multiset()
            &&& (forall|x: int, y: int| 0 <= x < y < ss.len() ==> ss[x] >= ss[y])
            &&& rs.len() == spec_min(limit, ss.len() as int)
            &&& (forall|k: int| 0 <= k < rs.len() ==> (#[trigger] rs[k]).score == ss[k])
        }
}

/// No two hits name the same path.
pub open spec fn spec_hit_paths_distinct(s: Seq<SearchResult>) -> bool {
    forall|a: int, b: int|
        0 <= a < b < s.len() ==> (#[trigger] s[a].path)@ != (#[trigger] s[b].path)@
}

/// A path occurs among the entries.
pub open spec fn has_path(s: Seq<NoteEntry>, p: Seq<char>) -> bool {
    exists|j: int| 0 <= j < s.len() && (#[trigger] s[j].path)@ == p
}

/// No two entries share a path.
pub open spec fn paths_unique(s: Seq<NoteEntry>) -> bool {
    forall|i: int, j: int|
        0 <= i < j < s.len() ==> (#[trigger] s[i].path)@ != (#[trigger] s[j].path)@
}

/// In-memory search index for all notes.
pub struct SearchIndex {
    notes: Vec<NoteEntry>,
    /// Watermark of the change feed position the index reflects.
    pub last_seq: Option<String>,
}

impl SearchIndex {
    /// The indexed entries.
    pub closed spec fn entries(&self) -> Seq<NoteEntry> {
        self.notes@
    }

    /// The watermark the index carries.
    pub closed spec fn watermark(&self) -> Option<String> {
        self.last_seq
    }

    /// Read the watermark.
    pub fn get_last_seq(&self) -> (r: &Option<String>)
        ensures
            *r == self.watermark(),
    {
        &self.last_seq
    }

    /// Move the watermark.
    pub fn set_last_seq(&mut self, seq: Option<String>)
        ensures
            final (self).watermark() == seq,
            final (self).entries() == old(self).entries(),
            old(self).wf() ==> final (self).wf(),
    {
        self.last_seq = seq;
    }

    /// Each path is indexed at most once.
    pub open spec fn wf(&self) -> bool {
        paths_unique(self.entries())
    }

    /// An empty index with no watermark.
    pub fn new() -> (r: Self)
        ensures
            r.wf(),
            r.entries() == Seq::<NoteEntry>::empty(),
            r.watermark() is None,
    {
        let r = SearchIndex { notes: Vec::new(), last_seq: None };
        proof {
            assert(r.entries() =~= Seq::<NoteEntry>::empty());
        }
        r
    }

    /// Number of notes indexed.
    pub fn len(&self) -> (r: usize)
        ensures
            r == self.entries().len(),
    {
        self.notes.len()
    }

    /// Whether the index holds no notes.
    pub fn is_empty(&self) -> (r: bool)
        ensures
            r == (self.entries().len() == 0),
    {
        self.notes.is_empty()
    }

    /// Insert or update the entry for a path: an indexed path is updated in
    /// place, a new one is appended.
    pub fn upsert(&mut self, path: String, entry: NoteEntry)
        requires
            old(self).wf(),
            entry.path@ == path@,
        ensures
            final (self).wf(),
            final (self).watermark() == old(self).watermark(),
            !has_path(old(self).entries(), path@) ==> final (self).entries() == old(
                self,
            ).entries().push(entry),
            has_path(old(self).entries(), path@) ==> exists|i: int|
                0 <= i < old(self).entries().len() && (#[trigger] old(self).entries()[i].path)@
                    == path@ && final (self).entries() == old(self).entries().update(i, entry),
    {
        let n = self.notes.len();
        let mut i: usize = 0;
        while i < n
            invariant
                old(self).wf(),
                entry.path@ == path@,
                n == self.notes@.len(),
                i <= n,
                *self == *old(self),
                forall|j: int| 0 <= j < i ==> (#[trigger] self.notes@[j].path)@ != path@,
            decreases n - i,
        {
            if crate::strutil::str_eq(self.notes[i].path.as_str(), path.as_str()) {
                self.notes.set(i, entry);
                proof {
                    assert forall|a: int, b: int|
                        0 <= a < b < self.notes@.len() implies (#[trigger] self.notes@[a].path)@
                        != (#[trigger] self.notes@[b].path)@ by {
                        assert(old(self).notes@[a].path@ != old(self).notes@[b].path@);
                    }
                }
                return ;
            }
            i = i + 1;
        }
        proof {
            assert(!has_path(self.notes@, path@));
        }
        self.notes.push(entry);
        proof {
            assert forall|a: int, b: int|
                0 <= a < b < self.notes@.len() implies (#[trigger] self.notes@[a].path)@
                != (#[trigger] self.notes@[b].path)@ by {
                if b < self.notes@.len() - 1 {
                    assert(old(self).notes@[a].path@ != old(self).notes@[b].path@);
                } else {
                    assert(self.notes@[a] == old(self).notes@[a]);
                }
            }
        }
    }

    /// Remove the entry for a path, if it is indexed.
    pub fn remove(&mut self, path: &str)
        requires
            old(self).wf(),
        ensures
            final (self).wf(),
            final (self).watermark() == old(self).watermark(),
            !has_path(old(self).entries(), path@) ==> final (self).entries() == old(
                self,
            ).entries(),
            has_path(old(self).entries(), path@) ==> exists|i: int|
                0 <= i < old(self).entries().len() && (#[trigger] old(self).entries()[i].path)@
                    == path@ && final (self).entries() == old(self).entries().remove(i),
    {
        let n = self.notes.len();
        let mut i: usize = 0;
        while i < n
            invariant
                old(self).wf(),
                n == self.notes@.len(),
                i <= n,
                *self == *old(self),
                forall|j: int| 0 <= j < i ==> (#[trigger] self.notes@[j].path)@ != path@,
            decreases n - i,
        {
            if crate::strutil::str_eq(self.notes[i].path.as_str(), path) {
                self.notes.remove(i);
                proof {
                    assert forall|a: int, b: int|
                        0 <= a < b < self.notes@.len() implies (#[trigger] self.notes@[a].path)@
                        != (#[trigger] self.notes@[b].path)@ by {
                        let oa: int = if a < i { a } else { a + 1 };
                        let ob: int = if b < i { b } else { b + 1 };
                        assert(self.notes@[a] == old(self).notes@[oa]);
                        assert(self.notes@[b] == old(self).notes@[ob]);
                    }
                }
                return ;
            }
            i = i + 1;
        }
        proof {
            assert(!has_path(self.notes@, path@));
        }
    }

    /// Clear the index and forget the watermark, for a full resync.
    pub fn clear(&mut self)
        ensures
            final (self).wf(),
            final (self).entries() == Seq::<NoteEntry>::empty(),
            final (self).watermark() is None,
    {
        self.notes.clear();
        self.last_seq = None;
        proof {
            assert(self.entries() =~= Seq::<NoteEntry>::empty());
        }
    }

    /// Fuzzy-search the index: score every note's title (doubled,
    /// saturating) and, when asked, its content; keep the notes that match,
    /// sort them by score descending, and return at most `limit` of them.
    /// An empty query matches nothing.
    pub fn search(&self, query: &str, opts: SearchOptions) -> (r: Vec<SearchResult>)
        requires
            self.wf(),
        ensures
            query@.len() == 0 ==> r@.len() == 0,
            r@.len() <= opts.limit,
            spec_hit_paths_distinct(r@),
            query@.len() > 0 ==> spec_top_scores(
                self.entries(),
                query@,
                opts.search_content,
                opts.limit as int,
                r@,
            ),
            query@.len() > 0 ==> r@.len() == spec_min(
                opts.limit as int,
                spec_matching_notes(self.entries(), query@, opts.search_content).len() as int,
            ),
            forall|a: int, b: int| 0 <= a < b < r@.len() ==> r@[a].score >= r@[b].score,
            forall|k: int|
                0 <= k < r@.len() ==> exists|j: int|
                    0 <= j < self.entries().len() && spec_hit_of(
                        #[trigger] r@[k],
                        self.entries()[j],
                        query@,
                        opts.search_content,
                    ),
    {
        let mut hits: Vec<SearchResult> = Vec::new();
        if query.unicode_len() == 0 {
            return hits;
        }
        let n = self.notes.len();
        let mut i: usize = 0;
        while i < n
            invariant
                self.wf(),
                n == self.notes@.len(),
                i <= n,
                hits@.len() == spec_matching_notes(
                    self.notes@.take(i as int),
                    query@,
                    opts.search_content,
                ).len(),
                spec_hit_scores(hits@) =~= spec_match_scores(
                    self.notes@.take(i as int),
                    query@,
                    opts.search_content,
                ),
                spec_hit_paths_distinct(hits@),
                forall|k: int|
                    0 <= k < hits@.len() ==> exists|j: int|
                        0 <= j < i && spec_hit_of(
                            #[trigger] hits@[k],
                            self.notes@[j],
                            query@,
                            opts.search_content,
                        ),
            decreases n - i,
        {
            let e = &self.notes[i];
            let title_score = fuzzy_score(query, e.title.as_str());
            let content_score: Option<u32>;
            let snippet: Option<String>;
            if opts.search_content {
                content_score = fuzzy_score(query, e.content.as_str());
                snippet = if content_score.is_some() {
                    extract_snippet(e.content.as_str(), query)
                } else {
                    None
                };
            } else {
                content_score = None;
                snippet = None;
            }
            let combined: Option<u32> = match (title_score, content_score) {
                (Some(ts), Some(cs)) => Some(ts.saturating_add(ts).saturating_add(cs)),
                (Some(ts), None) => Some(ts.saturating_add(ts)),
                (None, Some(cs)) => Some(cs),
                (None, None) => None,
            };
            proof {
                assert(self.notes@.take(i + 1).drop_last() =~= self.notes@.take(i as int));
                assert(self.notes@.take(i + 1).last() == self.notes@[i as int]);
                lemma_matching_notes_take_step(
                    self.notes@,
                    i as int,
                    query@,
                    opts.search_content,
                );
            }
            match combined {
                Some(score) => {
                    let ghost before_hits = hits@;
                    hits.push(
                        SearchResult {
                            path: crate::strutil::clone_string(&e.path),
                            title: crate::strutil::clone_string(&e.title),
                            score,
                            snippet,
                        },
                    );
                    proof {
                        assert forall|a: int, b: int|
                            0 <= a < b < hits@.len() implies (#[trigger] hits@[a].path)@ != (
                        #[trigger] hits@[b].path)@ by {
                            if b == hits@.len() - 1 {
                                let j = choose|j: int|
                                    0 <= j < i && spec_hit_of(
                                        before_hits[a],
                                        self.notes@[j],
                                        query@,
                                        opts.search_content,
                                    );
                                assert(self.notes@[j].path@ != self.notes@[i as int].path@);
                            } else {
                                assert(before_hits[a].path@ != before_hits[b].path@);
                            }
                        }
                        assert(spec_hit_scores(hits@) =~= spec_hit_scores(before_hits).push(
                            score,
                        ));
                        assert(spec_match_scores(
                            self.notes@.take(i + 1),
                            query@,
                            opts.search_content,
                        ) =~= spec_match_scores(
                            self.notes@.take(i as int),
                            query@,
                            opts.search_content,
                        ).push(score));
                    }
                },
                None => {},
            }
            i = i + 1;
        }
        proof {
            assert(self.notes@.take(n as int) =~= self.notes@);
        }
        let ghost all_hits = hits@;
        let mut sorted = sort_hits_desc(hits);
        let ghost before_truncate = sorted@;
        sorted.truncate(opts.limit);
        proof {
            if before_truncate.len() > opts.limit {
                assert(sorted@ =~= before_truncate.subrange(0, opts.limit as int));
            }
            assert(spec_hit_paths_distinct(all_hits));
            assert forall|a: int, b: int|
                0 <= a < b < sorted@.len() implies (#[trigger] sorted@[a].path)@ != (
            #[trigger] sorted@[b].path)@ by {
                assert(sorted@[a] == before_truncate[a]);
                assert(sorted@[b] == before_truncate[b]);
            }
            if query@.len() > 0 {
                let ss = spec_hit_scores(before_truncate);
                assert(self.notes@.take(n as int) =~= self.notes@);
                assert(spec_hit_scores(all_hits) =~= spec_match_scores(
                    self.entries(),
                    query@,
                    opts.search_content,
                ));
                assert(ss.to_multiset() == spec_match_scores(
                    self.entries(),
                    query@,
                    opts.search_content,
                ).to_multiset());
                assert(forall|x: int, y: int| 0 <= x < y < ss.len() ==> ss[x] >= ss[y]);
                assert forall|k: int| 0 <= k < sorted@.len() implies (#[trigger] sorted@[k]).score
                    == ss[k] by {
                    assert(sorted@[k] == before_truncate[k]);
                }
                assert(sorted@.len() == spec_min(opts.limit as int, ss.len() as int));
                assert(spec_top_scores(
                    self.entries(),
                    query@,
                    opts.search_content,
                    opts.limit as int,
                    sorted@,
                ));
            }
            before_truncate.to_multiset_ensures();
            all_hits.to_multiset_ensures();
            assert forall|k: int| 0 <= k < sorted@.len() implies exists|j: int|
                0 <= j < self.entries().len() && spec_hit_of(
                    #[trigger] sorted@[k],
                    self.entries()[j],
                    query@,
                    opts.search_content,
                ) by {
                let x = sorted@[k];
                assert(before_truncate[k] == x);
                assert(before_truncate.contains(x));
                assert(before_truncate.to_multiset().count(x) > 0);
                assert(all_hits.to_multiset().count(x) > 0);
                assert(all_hits.contains(x));
                let h = choose|h: int| 0 <= h < all_hits.len() && all_hits[h] == x;
                assert(exists|j: int|
                    0 <= j < i && spec_hit_of(
                        all_hits[h],
                        self.notes@[j],
                        query@,
                        opts.search_content,
                    ));
                let j = choose|j: int|
                    0 <= j < i && spec_hit_of(
                        all_hits[h],
                        self.notes@[j],
                        query@,
                        opts.search_content,
                    );
                assert(spec_hit_of(sorted@[k], self.entries()[j], query@, opts.search_content));
            }
        }
        sorted
    }
}

/// The smaller of two values.
pub open spec fn spec_min(a: int, b: int) -> int {
    if a < b {
        a
    } else {
        b
    }
}

proof fn lemma_matching_notes_take_step(s: Seq<NoteEntry>, i: int, q: Seq<char>, sc: bool)
    requires
        0 <= i < s.len(),
    ensures
        spec_entry_score(q, s[i], sc) is Some ==> spec_matching_notes(s.take(i + 1), q, sc)
            == spec_matching_notes(s.take(i), q, sc).push(s[i]),
        spec_entry_score(q, s[i], sc) is None ==> spec_matching_notes(s.take(i + 1), q, sc)
            == spec_matching_notes(s.take(i), q, sc),
    decreases i,
{
    if i == 0 {
        assert(s.take(1) =~= seq![s[0]]);
        assert(s.take(0) =~= Seq::<NoteEntry>::empty());
        assert(seq![s[0]].drop_first() =~= Seq::<NoteEntry>::empty());
        if spec_entry_score(q, s[0], sc) is Some {
            assert(spec_matching_notes(s.take(1), q, sc) =~= spec_matching_notes(
                s.take(0),
                q,
                sc,
            ).push(s[0]));
        }
    } else {
        assert(s.take(i + 1)[0] == s[0]);
        assert(s.take(i)[0] == s[0]);
        assert(s.take(i + 1).drop_first() =~= s.drop_first().take(i));
        assert(s.take(i).drop_first() =~= s.drop_first().take(i - 1));
        lemma_matching_notes_take_step(s.drop_first(), i - 1, q, sc);
        assert(s.drop_first()[i - 1] == s[i]);
        if spec_entry_score(q, s[i], sc) is Some {
            assert(spec_matching_notes(s.take(i + 1), q, sc) =~= spec_matching_notes(
                s.take(i),
                q,
                sc,
            ).push(s[i]));
        } else {
            assert(spec_matching_notes(s.take(i + 1), q, sc) =~= spec_matching_notes(
                s.take(i),
                q,
                sc,
            ));
        }
    }
}

/// A character lowered ASCII-wise: `A`–`Z` become `a`–`z`, all else stays.
pub open spec fn spec_ascii_lower(c: char) -> char {
    if 'A' as u32 <= c as u32 && c as u32 <= 'Z' as u32 {
        ((c as u32 + 32) as char)
    } else {
        c
    }
}

/// A sequence lowered ASCII-wise, character by character.
pub open spec fn spec_lower_seq(s: Seq<char>) -> Seq<char> {
    s.map_values(|c: char| spec_ascii_lower(c))
}

/// `needle` occurs at position `i` of `hay`, ignoring ASCII case.
pub open spec fn spec_ci_match_at(hay: Seq<char>, needle: Seq<char>, i: int) -> bool {
    &&& 0 <= i
    &&& i + needle.len() <= hay.len()
    &&& spec_lower_seq(hay.subrange(i, i + needle.len())) == spec_lower_seq(needle)
}

/// `needle` occurs somewhere in `hay`, ignoring ASCII case.
pub open spec fn spec_contains_ci(hay: Seq<char>, needle: Seq<char>) -> bool {
    exists|i: int| spec_ci_match_at(hay, needle, i)
}

fn ascii_lower(c: char) -> (r: char)
    ensures
        r == spec_ascii_lower(c),
{
    let v = c as u32;
    if 65 <= v && v <= 90 {
        ((v + 32) as u8) as char
    } else {
        c
    }
}

/// Find the first position where `needle` occurs in `hay`, ignoring ASCII
/// case; an empty needle matches at the start.
fn find_ci(hay: &str, needle: &str) -> (r: Option<usize>)
    ensures
        match r {
            Some(i) => spec_ci_match_at(hay@, needle@, i as int) && forall|j: int|
                0 <= j < i ==> !spec_ci_match_at(hay@, needle@, j),
            None => !spec_contains_ci(hay@, needle@),
        },
{
    let n = hay.unicode_len();
    let m = needle.unicode_len();
    if m > n {
        proof {
            assert forall|j: int| !spec_ci_match_at(hay@, needle@, j) by {}
        }
        return None;
    }
    let mut i: usize = 0;
    while i <= n - m
        invariant
            n == hay@.len(),
            m == needle@.len(),
            m <= n,
            i <= n - m + 1,
            forall|j: int| 0 <= j < i ==> !spec_ci_match_at(hay@, needle@, j),
        decreases n - m + 1 - i,
    {
        let mut k: usize = 0;
        let mut all_eq = true;
        while k < m
            invariant
                n == hay@.len(),
                m == needle@.len(),
                i + m <= n,
                k <= m,
                all_eq <==> (forall|t: int|
                    0 <= t < k ==> spec_ascii_lower(#[trigger] hay@[i + t]) == spec_ascii_lower(
                        needle@[t],
                    )),
            decreases m - k,
        {
            if ascii_lower(hay.get_char(i + k)) != ascii_lower(needle.get_char(k)) {
                all_eq = false;
                proof {
                    assert(spec_ascii_lower(hay@[i + k]) != spec_ascii_lower(needle@[k as int]));
                }
                k = m;
            } else {
                if all_eq {
                    k = k + 1;
                } else {
                    k = m;
                }
            }
        }
        if all_eq {
            proof {
                assert(spec_lower_seq(hay@.subrange(i as int, i + m)) =~= spec_lower_seq(needle@))
                    by {
                    assert forall|t: int|
                        0 <= t < m implies spec_lower_seq(hay@.subrange(i as int, i + m))[t]
                        == spec_lower_seq(needle@)[t] by {
                        assert(hay@.subrange(i as int, i + m)[t] == hay@[i + t]);
                    }
                }
            }
            return Some(i);
        }
        proof {
            assert(!spec_ci_match_at(hay@, needle@, i as int)) by {
                if spec_ci_match_at(hay@, needle@, i as int) {
                    let t = choose|t: int|
                        0 <= t < m && spec_ascii_lower(#[trigger] hay@[i + t]) != spec_ascii_lower(
                            needle@[t],
                        );
                    assert(spec_lower_seq(hay@.subrange(i as int, i + m))[t] == spec_ascii_lower(
                        hay@[i + t],
                    ));
                }
            }
        }
        i = i + 1;
    }
    proof {
        assert forall|j: int| !spec_ci_match_at(hay@, needle@, j) by {
            if 0 <= j <= n - m {
                assert(!spec_ci_match_at(hay@, needle@, j));
            }
        }
    }
    None
}

/// A window of content dressed with leading and trailing ellipses where it
/// was cut.
pub open spec fn spec_ellipsized(window: Seq<char>, cut_front: bool, cut_back: bool) -> Seq<char> {
    (if cut_front {
        "..."@
    } else {
        Seq::<char>::empty()
    }) + window + (if cut_back {
        "..."@
    } else {
        Seq::<char>::empty()
    })
}

/// Extract a display snippet around the earliest place any whitespace-token
/// of the query occurs in the content, ignoring ASCII case: a window of
/// about fifty bytes each way, snapped outward to whitespace, dressed with
/// ellipses where it cuts the content, with whitespace runs collapsed.
/// There is a snippet exactly when some token of the query occurs.
#[verifier::rlimit(30)]
pub fn extract_snippet(content: &str, query: &str) -> (r: Option<String>)
    ensures
        r is Some <==> (exists|w: int|
            0 <= w < spec_tokens(query@).len() && spec_contains_ci(
                content@,
                #[trigger] spec_tokens(query@)[w],
            )),
        r matches Some(s) ==> spec_is_snippet(content@, query@, s@),
{
    let words = tokens(query);
    let nw = words.len();
    let mut best: Option<usize> = None;
    let mut w: usize = 0;
    while w < nw
        invariant
            nw == words@.len(),
            words.deep_view() == spec_tokens(query@),
            w <= nw,
            match best {
                Some(p) => (exists|x: int|
                    0 <= x < nw && spec_ci_match_at(
                        content@,
                        #[trigger] spec_tokens(query@)[x],
                        p as int,
                    )) && (forall|x: int, q: int|
                    (0 <= x < w && #[trigger] spec_ci_match_at(
                        content@,
                        spec_tokens(query@)[x],
                        q,
                    )) ==> p <= q),
                None => forall|x: int|
                    0 <= x < w ==> !spec_contains_ci(content@, #[trigger] spec_tokens(query@)[x]),
            },
        decreases nw - w,
    {
        let found = find_ci(content, words[w].as_str());
        proof {
            assert(words.deep_view()[w as int] == words@[w as int]@);
        }
        match found {
            Some(p) => {
                best = match best {
                    Some(q) => if p < q {
                        Some(p)
                    } else {
                        Some(q)
                    },
                    None => {
                        proof {
                            assert forall|x: int, q: int|
                                (0 <= x < w && #[trigger] spec_ci_match_at(
                                    content@,
                                    spec_tokens(query@)[x],
                                    q,
                                )) implies p <= q by {
                                assert(spec_contains_ci(content@, spec_tokens(query@)[x]));
                            }
                        }
                        Some(p)
                    },
                };
            },
            None => {},
        }
        w = w + 1;
    }
    let pos = match best {
        Some(p) => p,
        None => {
            return None;
        },
    };
    proof {
        let x = choose|x: int|
            0 <= x < nw && spec_ci_match_at(content@, #[trigger] spec_tokens(query@)[x], pos as int);
        assert(spec_contains_ci(content@, spec_tokens(query@)[x]));
    }
    let n = content.unicode_len();
    proof {
        let x = choose|x: int|
            0 <= x < nw && spec_ci_match_at(content@, #[trigger] spec_tokens(query@)[x], pos as int);
        assert(pos + spec_tokens(query@)[x].len() <= n);
        assert(content@.subrange(pos as int, pos as int) =~= Seq::<char>::empty());
        assert(vstd::utf8::encode_utf8(Seq::<char>::empty()).len() == 0);
    }
    // widen to about fifty bytes each way, on character boundaries
    let mut a: usize = pos;
    let mut acc: usize = 0;
    while a > 0
        invariant
            n == content@.len(),
            a <= pos <= n,
            acc <= 50,
            acc == crate::codec::byte_len(content@.subrange(a as int, pos as int)),
        decreases a,
    {
        let c = content.get_char(a - 1);
        let cl = crate::codec::utf8_len(c);
        if acc + cl > 50 {
            break ;
        }
        proof {
            crate::codec::lemma_encode_utf8_cons(c, content@.subrange(a as int, pos as int));
            assert(seq![c] + content@.subrange(a as int, pos as int) =~= content@.subrange(
                a - 1,
                pos as int,
            ));
        }
        acc = acc + cl;
        a = a - 1;
    }
    let mut b: usize = pos;
    let mut acc2: usize = 0;
    while b < n
        invariant
            n == content@.len(),
            pos <= b <= n,
            acc2 <= 50,
            acc2 == crate::codec::byte_len(content@.subrange(pos as int, b as int)),
        decreases n - b,
    {
        let c = content.get_char(b);
        let cl = crate::codec::utf8_len(c);
        if acc2 + cl > 50 {
            break ;
        }
        proof {
            crate::codec::lemma_encode_utf8_push(content@.subrange(pos as int, b as int), c);
            assert(content@.subrange(pos as int, b as int).push(c) =~= content@.subrange(
                pos as int,
                b + 1,
            ));
        }
        acc2 = acc2 + cl;
        b = b + 1;
    }
    // snap outward to the nearest whitespace
    let sa = snap_start(content, a);
    let sb = snap_end(content, b);
    let cut_front = sa > 0;
    let cut_back = sb < n;
    let mut assembled = String::new();
    if cut_front {
        assembled.append("...");
    }
    assembled.append(content.substring_char(sa, sb));
    if cut_back {
        assembled.append("...");
    }
    proof {
        assert(assembled@ =~= spec_ellipsized(
            content@.subrange(sa as int, sb as int),
            sa > 0,
            sb < n,
        ));
    }
    let toks = crate::strutil::tokens(assembled.as_str());
    let joined = crate::strutil::join_spaces(&toks);
    proof {
        let ga = sa as int;
        let gb = sb as int;
        let gp = pos as int;
        assert(0 <= ga <= gp <= gb <= content@.len());
        assert(joined@ == spec_join_spaces(
            spec_tokens(spec_ellipsized(content@.subrange(ga, gb), ga > 0, gb < content@.len())),
        ));
        assert(exists|w: int|
            0 <= w < spec_tokens(query@).len() && spec_ci_match_at(
                content@,
                #[trigger] spec_tokens(query@)[w],
                gp,
            ));
        assert(forall|x: int, pq: int|
            (0 <= x < spec_tokens(query@).len() && #[trigger] spec_ci_match_at(
                content@,
                spec_tokens(query@)[x],
                pq,
            )) ==> gp <= pq);
        assert(ga <= a as int <= gp && crate::codec::byte_len(content@.subrange(a as int, gp))
            <= 50 && (forall|j: int|
            ga <= j < a as int ==> !crate::strutil::spec_is_space(#[trigger] content@[j])));
        assert(exists|a0: int|
            ga <= a0 <= gp && crate::codec::byte_len(#[trigger] content@.subrange(a0, gp)) <= 50
                && (forall|j: int|
                ga <= j < a0 ==> !crate::strutil::spec_is_space(#[trigger] content@[j])));
        assert(gp <= b as int <= gb && crate::codec::byte_len(content@.subrange(gp, b as int))
            <= 50 && (forall|j: int|
            b as int <= j < gb ==> !crate::strutil::spec_is_space(#[trigger] content@[j])));
        assert(exists|b0: int|
            gp <= b0 <= gb && crate::codec::byte_len(#[trigger] content@.subrange(gp, b0)) <= 50
                && (forall|j: int|
                b0 <= j < gb ==> !crate::strutil::spec_is_space(#[trigger] content@[j])));
        assert(spec_snippet_window(content@, query@, ga, gb, gp, joined@));
        assert(spec_is_snippet(content@, query@, joined@));
    }
    Some(joined)
}

/// The text is a snippet of the content for the query: the collapsed,
/// ellipsized rendering of some acceptable window around the earliest
/// token match.
pub open spec fn spec_is_snippet(content: Seq<char>, q: Seq<char>, s: Seq<char>) -> bool {
    exists|a: int, b: int, p: int| spec_snippet_window(content, q, a, b, p, s)
}

/// One acceptable snippet window `[a, b]` for the snippet text `s`: it
/// contains the earliest position `p` at which any whitespace-token of the
/// query occurs in the content, ignoring ASCII case; each edge reaches at
/// most fifty bytes out from `p` and is then snapped outward through a
/// whitespace-free stretch; and the snippet is the window dressed with
/// ellipses where it cuts the content, whitespace runs collapsed.
pub open spec fn spec_snippet_window(
    content: Seq<char>,
    q: Seq<char>,
    a: int,
    b: int,
    p: int,
    s: Seq<char>,
) -> bool {
    &&& 0 <= a <= p <= b <= content.len()
    &&& s == spec_join_spaces(
        spec_tokens(spec_ellipsized(content.subrange(a, b), a > 0, b < content.len())),
    )
    &&& exists|w: int|
        0 <= w < spec_tokens(q).len() && spec_ci_match_at(content, #[trigger] spec_tokens(q)[w], p)
    &&& forall|x: int, pq: int|
        (0 <= x < spec_tokens(q).len() && #[trigger] spec_ci_match_at(
            content,
            spec_tokens(q)[x],
            pq,
        )) ==> p <= pq
    &&& exists|a0: int|
        a <= a0 <= p && crate::codec::byte_len(#[trigger] content.subrange(a0, p)) <= 50 && (
        forall|j: int| a <= j < a0 ==> !crate::strutil::spec_is_space(#[trigger] content[j]))
    &&& exists|b0: int|
        p <= b0 <= b && crate::codec::byte_len(#[trigger] content.subrange(p, b0)) <= 50 && (
        forall|j: int| b0 <= j < b ==> !crate::strutil::spec_is_space(#[trigger] content[j]))
}

/// The start of the window, snapped outward: back from `from` through a
/// whitespace-free stretch, stopping after a whitespace character; without
/// one before `from`, the start stays put.
fn snap_start(content: &str, from: usize) -> (r: usize)
    requires
        from <= content@.len(),
    ensures
        r <= from,
        forall|j: int| r <= j < from ==> !crate::strutil::spec_is_space(#[trigger] content@[j]),
{
    let mut k: usize = from;
    while k > 0
        invariant
            from <= content@.len(),
            k <= from,
            forall|j: int| k <= j < from ==> !crate::strutil::spec_is_space(#[trigger] content@[j]),
        decreases k,
    {
        if is_space_char(content.get_char(k - 1)) {
            return k;
        }
        k = k - 1;
    }
    from
}

/// The end of the window, snapped outward: forward from `from` through a
/// whitespace-free stretch, stopping before a whitespace character; without
/// one after `from`, the end stays put.
fn snap_end(content: &str, from: usize) -> (r: usize)
    requires
        from <= content@.len(),
    ensures
        from <= r <= content@.len(),
        forall|j: int| from <= j < r ==> !crate::strutil::spec_is_space(#[trigger] content@[j]),
{
    let n = content.unicode_len();
    let mut k: usize = from;
    while k < n
        invariant
            n == content@.len(),
            from <= k <= n,
            forall|j: int| from <= j < k ==> !crate::strutil::spec_is_space(#[trigger] content@[j]),
        decreases n - k,
    {
        if is_space_char(content.get_char(k)) {
            return k;
        }
        k = k + 1;
    }
    from
}

fn is_space_char(c: char) -> (r: bool)
    ensures
        r == crate::strutil::spec_is_space(c),
{
    c == ' ' || c == '\t' || c == '\n' || c == '\r'
}

/// The path with any repeated `.md` suffixes removed.
pub open spec fn spec_strip_md(p: Seq<char>) -> Seq<char>
    decreases p.len(),
{
    if p.len() >= 3 && p[p.len() - 3] == '.' && p[p.len() - 2] == 'm' && p[p.len() - 1] == 'd' {
        spec_strip_md(p.take(p.len() - 3))
    } else {
        p
    }
}

/// Some character of `s` is a slash.
pub open spec fn spec_has_slash(s: Seq<char>) -> bool {
    exists|i: int| 0 <= i < s.len() && #[trigger] s[i] == '/'
}

/// The characters after the last slash, or the whole sequence without one.
pub open spec fn spec_after_last_slash(s: Seq<char>) -> Seq<char>
    decreases s.len(),
{
    if spec_has_slash(s) {
        spec_after_last_slash(s.drop_first())
    } else {
        s
    }
}

/// The fallback title: the filename, that is the last `/`-segment of the
/// path with its `.md` suffix removed.
pub open spec fn spec_title_fallback(path: Seq<char>) -> Seq<char> {
    spec_after_last_slash(spec_strip_md(path))
}

/// Three dashes exactly: a frontmatter fence.
pub open spec fn spec_is_fence(t: Seq<char>) -> bool {
    t.len() == 3 && t[0] == '-' && t[1] == '-' && t[2] == '-'
}

/// The title scan over the remaining lines: frontmatter between `---`
/// fences is skipped, as are empty lines; the first remaining line gives the
/// title if it is a `# ` heading, else the filename is the title.
pub open spec fn spec_title_scan(
    lines: Seq<Seq<char>>,
    started: bool,
    inside: bool,
    path: Seq<char>,
) -> Seq<char>
    decreases lines.len(),
{
    if lines.len() == 0 {
        spec_title_fallback(path)
    } else {
        let t = crate::strutil::spec_trim(lines[0]);
        if spec_is_fence(t) && !started {
            spec_title_scan(lines.drop_first(), true, true, path)
        } else if spec_is_fence(t) && started && inside {
            spec_title_scan(lines.drop_first(), true, false, path)
        } else if inside {
            spec_title_scan(lines.drop_first(), started, inside, path)
        } else if t.len() == 0 {
            spec_title_scan(lines.drop_first(), started, inside, path)
        } else if t.len() >= 2 && t[0] == '#' && t[1] == ' ' {
            crate::strutil::spec_trim(t.skip(2))
        } else {
            spec_title_fallback(path)
        }
    }
}

/// What the title of a note is: the first `# ` heading after any YAML
/// frontmatter, else the filename.
pub open spec fn spec_extract_title(path: Seq<char>, content: Seq<char>) -> Seq<char> {
    spec_title_scan(crate::strutil::spec_lines(content), false, false, path)
}

proof fn lemma_after_last_slash_at(s: Seq<char>, a: int)
    requires
        0 < a <= s.len(),
        s[a - 1] == '/',
        forall|j: int| a <= j < s.len() ==> s[j] != '/',
    ensures
        spec_after_last_slash(s) == s.skip(a),
    decreases s.len(),
{
    assert(spec_has_slash(s));
    assert(s.drop_first() =~= s.skip(1));
    if a == 1 {
        assert(!spec_has_slash(s.skip(1))) by {
            assert forall|j: int| 0 <= j < s.skip(1).len() implies s.skip(1)[j] != '/' by {
                assert(s.skip(1)[j] == s[j + 1]);
            }
        }
        assert(spec_after_last_slash(s.skip(1)) == s.skip(1));
        assert(spec_after_last_slash(s) == spec_after_last_slash(s.drop_first()));
        assert(spec_after_last_slash(s) == s.skip(1));
    } else {
        assert forall|j: int| a - 1 <= j < s.skip(1).len() implies s.skip(1)[j] != '/' by {
            assert(s.skip(1)[j] == s[j + 1]);
        }
        assert(s.skip(1)[a - 2] == s[a - 1]);
        lemma_after_last_slash_at(s.skip(1), a - 1);
        assert(s.skip(1).skip(a - 1) =~= s.skip(a));
    }
}

proof fn lemma_after_last_slash_none(s: Seq<char>)
    requires
        forall|j: int| 0 <= j < s.len() ==> s[j] != '/',
    ensures
        spec_after_last_slash(s) == s,
{
    assert(!spec_has_slash(s));
}

/// Extract the title of a note: skip YAML frontmatter fenced by `---`
/// lines, then take the first non-empty line; a `# ` heading gives the
/// title, anything else falls back to the filename.
pub fn extract_title(path: &str, content: &str) -> (r: String)
    ensures
        r@ == spec_extract_title(path@, content@),
{
    let lines = crate::strutil::split_lines(content);
    let nl = lines.len();
    let mut started = false;
    let mut inside = false;
    proof {
        assert(lines.deep_view().skip(0) =~= lines.deep_view());
    }
    let mut i: usize = 0;
    while i < nl
        invariant
            nl == lines@.len(),
            i <= nl,
            lines.deep_view() == crate::strutil::spec_lines(content@),
            spec_title_scan(lines.deep_view().skip(i as int), started, inside, path@)
                == spec_extract_title(path@, content@),
        decreases nl - i,
    {
        let ghost rest = lines.deep_view().skip(i as int);
        proof {
            assert(rest[0] == lines.deep_view()[i as int]);
            assert(rest.drop_first() =~= lines.deep_view().skip(i + 1));
        }
        let t = crate::strutil::trim(lines[i].as_str());
        let tn = t.unicode_len();
        let fence = tn == 3 && t.as_str().get_char(0) == '-' && t.as_str().get_char(1) == '-'
            && t.as_str().get_char(2) == '-';
        proof {
            assert(fence == spec_is_fence(t@));
        }
        if fence && !started {
            started = true;
            inside = true;
        } else if fence && started && inside {
            inside = false;
        } else if inside {
        } else if tn == 0 {
        } else if tn >= 2 && t.as_str().get_char(0) == '#' && t.as_str().get_char(1) == ' ' {
            proof {
                assert(spec_title_scan(rest, started, inside, path@) == crate::strutil::spec_trim(
                    t@.skip(2),
                ));
            }
            let heading = crate::strutil::trim(t.as_str().substring_char(2, tn));
            proof {
                assert(t@.subrange(2, tn as int) =~= t@.skip(2));
            }
            return heading;
        } else {
            proof {
                assert(spec_title_scan(rest, started, inside, path@) == spec_title_fallback(
                    path@,
                ));
            }
            return title_fallback(path);
        }
        i = i + 1;
    }
    proof {
        assert(lines.deep_view().skip(nl as int) =~= Seq::<Seq<char>>::empty());
        assert(spec_title_scan(Seq::<Seq<char>>::empty(), started, inside, path@)
            == spec_title_fallback(path@));
    }
    title_fallback(path)
}

/// The filename a path falls back to: the last `/`-segment with its `.md`
/// suffix removed.
#[verifier::loop_isolation(false)]
#[verifier::rlimit(30)]
fn title_fallback(path: &str) -> (r: String)
    ensures
        r@ == spec_title_fallback(path@),
{
    let n = path.unicode_len();
    proof {
        assert(path@.take(n as int) =~= path@);
    }
    let mut e: usize = n;
    while e >= 3 && path.get_char(e - 3) == '.' && path.get_char(e - 2) == 'm' && path.get_char(
        e - 1,
    ) == 'd'
        invariant
            n == path@.len(),
            e <= n,
            spec_strip_md(path@.take(e as int)) == spec_strip_md(path@),
        decreases e,
    {
        proof {
            let p = path@.take(e as int);
            assert(p[e - 3] == path@[e - 3] && p[e - 2] == path@[e - 2] && p[e - 1] == path@[e
                - 1]);
            assert(p.take(p.len() - 3) =~= path@.take(e - 3));
        }
        e = e - 3;
    }
    let ghost stripped = path@.take(e as int);
    proof {
        assert(spec_strip_md(stripped) == stripped);
        assert(spec_title_fallback(path@) == spec_after_last_slash(stripped));
    }
    let mut k: usize = e;
    while k > 0
        invariant
            e <= n == path@.len(),
            k <= e,
            forall|j: int| k <= j < e ==> stripped[j] != '/',
            stripped == path@.take(e as int),
        decreases k,
    {
        if path.get_char(k - 1) == '/' {
            proof {
                assert(stripped[k - 1] == path@[k - 1]);
                lemma_after_last_slash_at(stripped, k as int);
            }
            let r = String::from_str(path.substring_char(k, e));
            proof {
                assert(path@.subrange(k as int, e as int) =~= stripped.skip(k as int));
            }
            return r;
        }
        proof {
            assert(stripped[k - 1] == path@[k - 1]);
        }
        k = k - 1;
    }
    proof {
        lemma_after_last_slash_none(stripped);
    }
    let r = String::from_str(path.substring_char(0, e));
    proof {
        assert(path@.subrange(0, e as int) =~= stripped);
    }
    r
}

/// Sort hits by score, highest first, keeping exactly the same hits.
fn sort_hits_desc(hits: Vec<SearchResult>) -> (r: Vec<SearchResult>)
    ensures
        r@.to_multiset() == hits@.to_multiset(),
        r@.len() == hits@.len(),
        forall|a: int, b: int| 0 <= a < b < r@.len() ==> r@[a].score >= r@[b].score,
        spec_hit_paths_distinct(hits@) ==> spec_hit_paths_distinct(r@),
        spec_hit_scores(r@).to_multiset() == spec_hit_scores(hits@).to_multiset(),
{
    broadcast use vstd::seq_lib::group_to_multiset_ensures;

    let ghost orig = hits@;
    let mut rest = hits;
    let mut out: Vec<SearchResult> = Vec::new();
    while rest.len() > 0
        invariant
            out@.to_multiset().add(rest@.to_multiset()) =~= orig.to_multiset(),
            spec_hit_scores(out@).to_multiset().add(spec_hit_scores(rest@).to_multiset())
                =~= spec_hit_scores(orig).to_multiset(),
            out@.len() + rest@.len() == orig.len(),
            forall|a: int, b: int| 0 <= a < b < out@.len() ==> out@[a].score >= out@[b].score,
            forall|a: int, b: int|
                0 <= a < out@.len() && 0 <= b < rest@.len() ==> out@[a].score >= rest@[b].score,
            spec_hit_paths_distinct(orig) ==> spec_hit_paths_distinct(out@)
                && spec_hit_paths_distinct(rest@) && (forall|a: int, b: int|
                0 <= a < out@.len() && 0 <= b < rest@.len() ==> (#[trigger] out@[a].path)@ != (
                #[trigger] rest@[b].path)@),
        decreases rest@.len(),
    {
        let mut best: usize = 0;
        let mut j: usize = 1;
        while j < rest.len()
            invariant
                rest@.len() > 0,
                best < j <= rest@.len() || (j <= rest@.len() && best == 0),
                best < rest@.len(),
                forall|k: int| 0 <= k < j ==> rest@[best as int].score >= rest@[k].score,
            decreases rest@.len() - j,
        {
            if rest[j].score > rest[best].score {
                best = j;
            }
            j = j + 1;
        }
        let ghost before = rest@;
        let e = rest.remove(best);
        proof {
            before.to_multiset_ensures();
            out@.to_multiset_ensures();
            assert(before.to_multiset().remove(e) =~= rest@.to_multiset());
            assert(out@.push(e).to_multiset() =~= out@.to_multiset().insert(e));
            assert(out@.push(e).to_multiset().add(rest@.to_multiset()) =~= orig.to_multiset());
            spec_hit_scores(before).to_multiset_ensures();
            spec_hit_scores(out@).to_multiset_ensures();
            assert(spec_hit_scores(rest@) =~= spec_hit_scores(before).remove(best as int));
            assert(spec_hit_scores(before)[best as int] == e.score);
            assert(spec_hit_scores(before).remove(best as int).to_multiset() =~= spec_hit_scores(
                before,
            ).to_multiset().remove(e.score));
            assert(spec_hit_scores(out@.push(e)) =~= spec_hit_scores(out@).push(e.score));
            assert(spec_hit_scores(out@.push(e)).to_multiset() =~= spec_hit_scores(
                out@,
            ).to_multiset().insert(e.score));
            assert(spec_hit_scores(out@.push(e)).to_multiset().add(
                spec_hit_scores(rest@).to_multiset(),
            ) =~= spec_hit_scores(orig).to_multiset());
            assert forall|b: int| 0 <= b < rest@.len() implies e.score >= rest@[b].score by {
                let ob: int = if b < best { b } else { b + 1 };
                assert(rest@[b] == before[ob]);
            }
            if spec_hit_paths_distinct(orig) {
                assert forall|a: int, b: int|
                    0 <= a < b < rest@.len() implies (#[trigger] rest@[a].path)@ != (
                #[trigger] rest@[b].path)@ by {
                    let oa: int = if a < best { a } else { a + 1 };
                    let ob: int = if b < best { b } else { b + 1 };
                    assert(rest@[a] == before[oa]);
                    assert(rest@[b] == before[ob]);
                }
                assert forall|b: int| 0 <= b < rest@.len() implies e.path@ != (
                #[trigger] rest@[b].path)@ by {
                    let ob: int = if b < best { b } else { b + 1 };
                    assert(rest@[b] == before[ob]);
                    assert(e == before[best as int]);
                }
                assert forall|a: int, b: int|
                    0 <= a < b < out@.len() + 1 implies (#[trigger] out@.push(e)[a].path)@ != (
                #[trigger] out@.push(e)[b].path)@ by {
                    if b < out@.len() {
                        assert(out@.push(e)[a] == out@[a]);
                        assert(out@.push(e)[b] == out@[b]);
                    } else {
                        assert(out@.push(e)[b] == e);
                        assert(e == before[best as int]);
                        if a < out@.len() {
                            assert(out@.push(e)[a] == out@[a]);
                            assert(out@[a].path@ != before[best as int].path@);
                        }
                    }
                }
            }
        }
        out.push(e);
    }
    proof {
        assert(rest@.to_multiset() =~= Multiset::<SearchResult>::empty());
        assert(out@.to_multiset().add(Multiset::<SearchResult>::empty()) =~= out@.to_multiset());
        assert(spec_hit_scores(rest@) =~= Seq::<u32>::empty());
        assert(spec_hit_scores(rest@).to_multiset() =~= Multiset::<u32>::empty());
        assert(spec_hit_scores(out@).to_multiset().add(Multiset::<u32>::empty())
            =~= spec_hit_scores(out@).to_multiset());
    }
    out
}

} // verus!
