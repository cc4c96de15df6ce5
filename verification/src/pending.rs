//! Pending-authorization store.
//!
//! A capacity-bounded mapping from authorization code to pending record,
//! kept in insertion order. Storing at capacity evicts the oldest entries
//! first; taking a code consumes its entry; cleanup removes every record
//! that is 600 seconds old or older. The same store holds both the
//! short-lived consent-session codes and the authorization codes minted on
//! approval, each consumable at most once.

use vstd::prelude::*;

verus! {

/// Capacity of the store: storing past this evicts the oldest entries.
pub const MAX_PENDING_AUTHORIZATIONS: usize = 1000;

/// Seconds a pending authorization stays valid.
pub const PENDING_TTL_SECONDS: u64 = 600;

/// The only challenge method the server accepts.
#[derive(Debug, Clone, Copy, PartialEq, Eq, Structural)]
pub enum CodeChallengeMethod {
    S256,
}

/// One pending authorization, first stored under a consent-session code and,
/// after approval, under the authorization code handed to the client.
#[derive(Debug, Clone)]
pub struct PendingAuthorization {
    pub client_id: String,
    pub redirect_uri: String,
    pub code_challenge: String,
    pub code_challenge_method: CodeChallengeMethod,
    pub state: Option<String>,
    /// Seconds since the epoch at which the record was stored.
    pub created_at: u64,
}

/// One stored entry: the code and its record.
pub type PendingEntry = (String, PendingAuthorization);

/// A code occurs among the entries.
pub open spec fn has_code(s: Seq<PendingEntry>, c: Seq<char>) -> bool {
    exists|j: int| 0 <= j < s.len() && (#[trigger] s[j].0)@ == c
}

/// No two entries share a code.
pub open spec fn codes_unique(s: Seq<PendingEntry>) -> bool {
    forall|i: int, j: int| 0 <= i < j < s.len() ==> (#[trigger] s[i].0)@ != (#[trigger] s[j].0)@
}

/// The entries, in order, whose record satisfies `pred`.
pub open spec fn kept_entries(s: Seq<PendingEntry>, pred: spec_fn(PendingEntry) -> bool) -> Seq<
    PendingEntry,
>
    decreases s.len(),
{
    if s.len() == 0 {
        s
    } else if pred(s[0]) {
        seq![s[0]] + kept_entries(s.drop_first(), pred)
    } else {
        kept_entries(s.drop_first(), pred)
    }
}

/// Keeps exactly the entries whose code differs from `c`.
pub open spec fn code_differs(c: Seq<char>) -> spec_fn(PendingEntry) -> bool {
    |e: PendingEntry| e.0@ != c
}

/// The entries with any entry stored under `c` removed.
pub open spec fn without_code(s: Seq<PendingEntry>, c: Seq<char>) -> Seq<PendingEntry> {
    kept_entries(s, code_differs(c))
}

/// A record is expired at `now` when it was created 600 or more seconds ago.
pub open spec fn entry_expired(e: PendingEntry, now: u64) -> bool {
    e.1.created_at + PENDING_TTL_SECONDS <= now
}

/// Keeps exactly the entries not yet expired at `now`.
pub open spec fn entry_live(now: u64) -> spec_fn(PendingEntry) -> bool {
    |e: PendingEntry| !entry_expired(e, now)
}

/// The oldest entries dropped until there is room to insert one more within
/// capacity.
pub open spec fn evicted_to_capacity(s: Seq<PendingEntry>) -> Seq<PendingEntry> {
    if s.len() >= MAX_PENDING_AUTHORIZATIONS {
        s.skip(s.len() - (MAX_PENDING_AUTHORIZATIONS - 1))
    } else {
        s
    }
}

/// How one `store_pending` call transforms the entries.
pub open spec fn stored(s: Seq<PendingEntry>, code: String, auth: PendingAuthorization) -> Seq<
    PendingEntry,
> {
    evicted_to_capacity(without_code(s, code@)).push((code, auth))
}

pub broadcast proof fn lemma_kept_entries_props(
    s: Seq<PendingEntry>,
    pred: spec_fn(PendingEntry) -> bool,
)
    ensures
        #[trigger] kept_entries(s, pred).len() <= s.len(),
        forall|i: int|
            0 <= i < kept_entries(s, pred).len() ==> pred(#[trigger] kept_entries(s, pred)[i]),
        forall|i: int|
            0 <= i < kept_entries(s, pred).len() ==> has_code(
                s,
                (#[trigger] kept_entries(s, pred)[i]).0@,
            ),
        codes_unique(s) ==> codes_unique(kept_entries(s, pred)),
    decreases s.len(),
{
    if s.len() == 0 {
    } else {
        let rest = kept_entries(s.drop_first(), pred);
        lemma_kept_entries_props(s.drop_first(), pred);
        assert forall|i: int| 0 <= i < rest.len() implies has_code(s, (#[trigger] rest[i]).0@) by {
            let j = choose|j: int| 0 <= j < s.drop_first().len() && (#[trigger] s.drop_first()[j].0)@
                == rest[i].0@;
            assert(s[j + 1].0@ == rest[i].0@);
        }
        if pred(s[0]) {
            let out = seq![s[0]] + rest;
            assert(out[0] == s[0]);
            assert forall|i: int| 0 <= i < out.len() implies pred(#[trigger] out[i]) by {
                if i > 0 {
                    assert(out[i] == rest[i - 1]);
                }
            }
            assert forall|i: int| 0 <= i < out.len() implies has_code(s, (#[trigger] out[i]).0@) by {
                if i == 0 {
                    assert(s[0].0@ == out[0].0@);
                } else {
                    assert(out[i] == rest[i - 1]);
                }
            }
            if codes_unique(s) {
                assert forall|i: int, j: int| 0 <= i < j < out.len() implies (#[trigger] out[i].0)@
                    != (#[trigger] out[j].0)@ by {
                    if i == 0 {
                        assert(out[j] == rest[j - 1]);
                        let k = choose|k: int|
                            0 <= k < s.drop_first().len() && (#[trigger] s.drop_first()[k].0)@
                                == rest[j - 1].0@;
                        assert(s[k + 1].0@ == out[j].0@);
                        assert(s[0].0@ != s[k + 1].0@);
                    } else {
                        assert(out[i] == rest[i - 1]);
                        assert(out[j] == rest[j - 1]);
                    }
                }
            }
        }
    }
}

/// Entries whose codes all differ from every code kept keep themselves.
proof fn lemma_kept_entries_all(s: Seq<PendingEntry>, pred: spec_fn(PendingEntry) -> bool)
    requires
        forall|i: int| 0 <= i < s.len() ==> pred(#[trigger] s[i]),
    ensures
        kept_entries(s, pred) == s,
    decreases s.len(),
{
    if s.len() == 0 {
    } else {
        assert(pred(s[0]));
        lemma_kept_entries_all(s.drop_first(), pred);
        assert(kept_entries(s, pred) =~= s);
    }
}

/// The record stored under `c`, if any: the first entry with that code.
pub open spec fn spec_lookup(s: Seq<PendingEntry>, c: Seq<char>) -> Option<PendingAuthorization>
    decreases s.len(),
{
    if s.len() == 0 {
        None
    } else if s[0].0@ == c {
        Some(s[0].1)
    } else {
        spec_lookup(s.drop_first(), c)
    }
}

/// Looking a code up finds a record exactly when the code occurs and, with
/// unique codes, finds the record of the entry carrying it.
pub proof fn lemma_lookup_props(s: Seq<PendingEntry>, c: Seq<char>)
    ensures
        spec_lookup(s, c) is Some <==> has_code(s, c),
        codes_unique(s) ==> forall|j: int|
            0 <= j < s.len() && (#[trigger] s[j].0)@ == c ==> spec_lookup(s, c) == Some(s[j].1),
    decreases s.len(),
{
    if s.len() == 0 {
    } else if s[0].0@ == c {
        assert(has_code(s, c));
        if codes_unique(s) {
            assert forall|j: int|
                0 <= j < s.len() && (#[trigger] s[j].0)@ == c implies spec_lookup(s, c) == Some(
                s[j].1,
            ) by {
                if j != 0 {
                    assert(s[0].0@ != s[j].0@);
                }
            }
        }
    } else {
        lemma_lookup_props(s.drop_first(), c);
        if has_code(s, c) {
            let j = choose|j: int| 0 <= j < s.len() && (#[trigger] s[j].0)@ == c;
            assert(s.drop_first()[j - 1].0@ == c);
            assert(has_code(s.drop_first(), c));
        }
        if spec_lookup(s.drop_first(), c) is Some {
            let j = choose|j: int|
                0 <= j < s.drop_first().len() && (#[trigger] s.drop_first()[j].0)@ == c;
            assert(s[j + 1].0@ == c);
            assert(has_code(s, c));
        }
        if codes_unique(s) {
            assert forall|j: int|
                0 <= j < s.len() && (#[trigger] s[j].0)@ == c implies spec_lookup(s, c) == Some(
                s[j].1,
            ) by {
                assert(s.drop_first()[j - 1] == s[j]);
            }
        }
    }
}

fn contains_code(entries: &Vec<PendingEntry>, code: &str) -> (r: bool)
    ensures
        r == has_code(entries@, code@),
{
    let n = entries.len();
    let mut i: usize = 0;
    while i < n
        invariant
            n == entries@.len(),
            i <= n,
            forall|j: int| 0 <= j < i ==> (#[trigger] entries@[j].0)@ != code@,
        decreases n - i,
    {
        if crate::strutil::str_eq(entries[i].0.as_str(), code) {
            return true;
        }
        i = i + 1;
    }
    false
}

/// In-memory store of pending authorizations, oldest first.
pub struct AuthorizationStore {
    entries: Vec<PendingEntry>,
}

impl AuthorizationStore {
    /// All entries, oldest first.
    pub closed spec fn entries_view(&self) -> Seq<PendingEntry> {
        self.entries@
    }

    /// The store never exceeds capacity and never holds a code twice.
    pub open spec fn wf(&self) -> bool {
        &&& self.entries_view().len() <= MAX_PENDING_AUTHORIZATIONS
        &&& codes_unique(self.entries_view())
    }

    /// An empty store.
    pub fn new() -> (r: Self)
        ensures
            r.wf(),
            r.entries_view() == Seq::<PendingEntry>::empty(),
    {
        let r = AuthorizationStore { entries: Vec::new() };
        proof {
            assert(r.entries_view() =~= Seq::<PendingEntry>::empty());
        }
        r
    }

    /// Number of pending authorizations held.
    pub fn len(&self) -> (r: usize)
        ensures
            r == self.entries_view().len(),
    {
        self.entries.len()
    }

    /// Store a record under `code`: any entry already under that code is
    /// replaced, and at capacity the oldest entries are evicted first.
    #[verifier::loop_isolation(false)]
    pub fn store_pending(&mut self, code: String, auth: PendingAuthorization)
        requires
            old(self).wf(),
        ensures
            final (self).wf(),
            final (self).entries_view() == stored(old(self).entries_view(), code, auth),
            final (self).entries_view().len() <= MAX_PENDING_AUTHORIZATIONS,
    {
        let ghost orig = self.entries@;
        let ghost pred = code_differs(code@);
        let mut work: Vec<PendingEntry> = Vec::new();
        core::mem::swap(&mut self.entries, &mut work);
        // replacing an existing code is rare: scan first, rebuild only then
        let code_present = contains_code(&work, code.as_str());
        let mut kept: Vec<PendingEntry> = Vec::new();
        if !code_present {
            kept = work;
            proof {
                assert forall|j: int| 0 <= j < orig.len() implies pred(#[trigger] orig[j]) by {
                    assert(orig[j].0@ != code@);
                }
                lemma_kept_entries_all(orig, pred);
            }
        } else {
            while work.len() > 0
                invariant
                    pred == code_differs(code@),
                    kept@ + kept_entries(work@, pred) =~= kept_entries(orig, pred),
                decreases work@.len(),
            {
                let ghost before = work@;
                let e = work.remove(0);
                proof {
                    assert(before[0] == e);
                    assert(before.drop_first() =~= work@);
                }
                if crate::strutil::str_eq(e.0.as_str(), code.as_str()) {
                    proof {
                        assert(!pred(e));
                    }
                } else {
                    proof {
                        assert(pred(e));
                        assert(kept@.push(e) + kept_entries(before.drop_first(), pred) =~= kept@ + (
                        seq![e] + kept_entries(before.drop_first(), pred)));
                    }
                    kept.push(e);
                }
            }
            proof {
                assert(kept_entries(work@, pred) =~= Seq::<PendingEntry>::empty());
                assert(kept@ + Seq::<PendingEntry>::empty() =~= kept@);
            }
        }
        proof {
            assert(kept@ == without_code(orig, code@));
            lemma_kept_entries_props(orig, pred);
        }
        let ghost filtered = kept@;
        while kept.len() >= MAX_PENDING_AUTHORIZATIONS
            invariant
                kept@.len() <= filtered.len(),
                kept@ =~= filtered.skip(filtered.len() - kept@.len()),
                evicted_to_capacity(kept@) =~= evicted_to_capacity(filtered),
            decreases kept@.len(),
        {
            let ghost before = kept@;
            kept.remove(0);
            proof {
                assert(kept@ =~= before.drop_first());
                assert(before.skip(1) =~= before.drop_first());
                assert(filtered.skip(filtered.len() - before.len()).skip(1) =~= filtered.skip(
                    filtered.len() - before.len() + 1,
                ));
                if kept@.len() >= MAX_PENDING_AUTHORIZATIONS {
                    assert(evicted_to_capacity(kept@) =~= evicted_to_capacity(before));
                } else {
                    assert(before.len() == MAX_PENDING_AUTHORIZATIONS);
                    assert(evicted_to_capacity(before) =~= before.skip(1));
                }
            }
        }
        proof {
            assert(evicted_to_capacity(kept@) =~= kept@);
            assert(kept@ =~= evicted_to_capacity(filtered));
            lemma_kept_entries_props(orig, pred);
        }
        let ghost evicted_entries = kept@;
        kept.push((code, auth));
        self.entries = kept;
        proof {
            assert(self.entries_view() =~= stored(orig, code, auth));
            // capacity: the evicted prefix has room for one more
            assert(evicted_entries.len() < MAX_PENDING_AUTHORIZATIONS);
            // uniqueness: evicted entries are a suffix of the filtered ones,
            // none of which carries `code`
            assert forall|i: int, j: int|
                0 <= i < j < self.entries_view().len() implies (#[trigger] self.entries_view()[i].0)@
                != (#[trigger] self.entries_view()[j].0)@ by {
                let n = evicted_entries.len();
                let skipn = filtered.len() - n;
                if j < n {
                    assert(evicted_entries[i] == filtered[i + skipn]);
                    assert(evicted_entries[j] == filtered[j + skipn]);
                } else {
                    // j is the new entry; entry i survived the filter, so its
                    // code differs from `code`
                    assert(evicted_entries[i] == filtered[i + skipn]);
                    assert(pred(filtered[i + skipn]));
                }
            }
        }
    }

    /// Remove and return the record stored under `code`, if any.
    pub fn take_pending(&mut self, code: &str) -> (r: Option<PendingAuthorization>)
        requires
            old(self).wf(),
        ensures
            final (self).wf(),
            final (self).entries_view() == without_code(old(self).entries_view(), code@),
            r is Some <==> has_code(old(self).entries_view(), code@),
            forall|j: int|
                0 <= j < old(self).entries_view().len() && (#[trigger] old(
                    self,
                ).entries_view()[j].0)@ == code@ ==> r == Some(old(self).entries_view()[j].1),
    {
        let ghost orig = self.entries@;
        let ghost pred = code_differs(code@);
        let mut kept: Vec<PendingEntry> = Vec::new();
        let mut found: Option<PendingAuthorization> = None;
        let ghost mut processed: int = 0;
        while self.entries.len() > 0
            invariant
                old(self).wf(),
                pred == code_differs(code@),
                codes_unique(orig),
                0 <= processed <= orig.len(),
                self.entries@ =~= orig.skip(processed),
                kept@ + kept_entries(self.entries@, pred) =~= kept_entries(orig, pred),
                found is None ==> forall|j: int| 0 <= j < processed ==> (#[trigger] orig[j].0)@
                    != code@,
                found is Some ==> exists|j: int|
                    0 <= j < processed && (#[trigger] orig[j].0)@ == code@ && orig[j].1
                        == found->0,
            decreases self.entries@.len(),
        {
            let ghost before = self.entries@;
            let e = self.entries.remove(0);
            proof {
                assert(before[0] == e);
                assert(e == orig[processed]);
                assert(before.drop_first() =~= self.entries@);
                assert(orig.skip(processed).drop_first() =~= orig.skip(processed + 1));
            }
            if crate::strutil::str_eq(e.0.as_str(), code) {
                proof {
                    assert(!pred(e));
                    if found is Some {
                        let v = found->0;
                        let j = choose|j: int|
                            0 <= j < processed && (#[trigger] orig[j].0)@ == code@ && orig[j].1 == v;
                        assert(orig[j].0@ != orig[processed as int].0@);
                        assert(false);
                    }
                }
                found = Some(e.1);
            } else {
                proof {
                    assert(pred(e));
                    assert(kept@.push(e) + kept_entries(before.drop_first(), pred) =~= kept@ + (
                    seq![e] + kept_entries(before.drop_first(), pred)));
                }
                kept.push(e);
            }
            proof {
                processed = processed + 1;
            }
        }
        proof {
            assert(processed == orig.len());
            assert(kept_entries(self.entries@, pred) =~= Seq::<PendingEntry>::empty());
            assert(kept@ + Seq::<PendingEntry>::empty() =~= kept@);
            lemma_kept_entries_props(orig, pred);
        }
        self.entries = kept;
        proof {
            if found is None {
                assert(!has_code(orig, code@));
            } else {
                let v = found->0;
                let j = choose|j: int|
                    0 <= j < processed && (#[trigger] orig[j].0)@ == code@ && orig[j].1 == v;
                assert(has_code(orig, code@));
            }
            assert forall|j: int|
                0 <= j < orig.len() && (#[trigger] orig[j].0)@ == code@ implies found == Some(
                orig[j].1,
            ) by {
                assert(has_code(orig, code@));
                let k = choose|k: int|
                    0 <= k < processed && (#[trigger] orig[k].0)@ == code@ && orig[k].1 == found->0;
                if k != j {
                    assert(orig[k].0@ != orig[j].0@);
                }
            }
        }
        found
    }

    /// Drop every record created 600 or more seconds before `now`.
    pub fn cleanup_expired(&mut self, now: u64)
        requires
            old(self).wf(),
        ensures
            final (self).wf(),
            final (self).entries_view() == kept_entries(old(self).entries_view(), entry_live(now)),
            forall|i: int|
                0 <= i < final (self).entries_view().len() ==> !entry_expired(
                    #[trigger] final (self).entries_view()[i],
                    now,
                ),
    {
        let ghost orig = self.entries@;
        let ghost pred = entry_live(now);
        let mut kept: Vec<PendingEntry> = Vec::new();
        while self.entries.len() > 0
            invariant
                pred == entry_live(now),
                kept@ + kept_entries(self.entries@, pred) =~= kept_entries(orig, pred),
            decreases self.entries@.len(),
        {
            let ghost before = self.entries@;
            let e = self.entries.remove(0);
            proof {
                assert(before[0] == e);
                assert(before.drop_first() =~= self.entries@);
            }
            let live = e.1.created_at > now || now - e.1.created_at < PENDING_TTL_SECONDS;
            if live {
                proof {
                    assert(pred(e));
                    assert(kept@.push(e) + kept_entries(before.drop_first(), pred) =~= kept@ + (
                    seq![e] + kept_entries(before.drop_first(), pred)));
                }
                kept.push(e);
            } else {
                proof {
                    assert(!pred(e));
                }
            }
        }
        proof {
            assert(kept_entries(self.entries@, pred) =~= Seq::<PendingEntry>::empty());
            assert(kept@ + Seq::<PendingEntry>::empty() =~= kept@);
            lemma_kept_entries_props(orig, pred);
        }
        self.entries = kept;
        proof {
            assert forall|i: int|
                0 <= i < self.entries_view().len() implies !entry_expired(
                #[trigger] self.entries_view()[i],
                now,
            ) by {
                assert(pred(self.entries_view()[i]));
            }
        }
    }
}

/// The entries after a whole sequence of `store_pending` calls, oldest
/// insertion first.
pub open spec fn stored_all(s: Seq<PendingEntry>, items: Seq<PendingEntry>) -> Seq<PendingEntry>
    decreases items.len(),
{
    if items.len() == 0 {
        s
    } else {
        stored_all(stored(s, items[0].0, items[0].1), items.drop_first())
    }
}

/// The newest entries that fit the capacity.
pub open spec fn last_at_capacity(s: Seq<PendingEntry>) -> Seq<PendingEntry> {
    if s.len() > MAX_PENDING_AUTHORIZATIONS {
        s.skip(s.len() - MAX_PENDING_AUTHORIZATIONS)
    } else {
        s
    }
}

proof fn lemma_stored_all_window(s: Seq<PendingEntry>, items: Seq<PendingEntry>)
    requires
        codes_unique(s),
        codes_unique(items),
        s.len() <= MAX_PENDING_AUTHORIZATIONS,
        forall|i: int| 0 <= i < items.len() ==> !has_code(s, (#[trigger] items[i]).0@),
    ensures
        stored_all(s, items) == last_at_capacity(s + items),
    decreases items.len(),
{
    if items.len() == 0 {
        assert(s + items =~= s);
    } else {
        let e0 = items[0];
        let c0 = e0.0@;
        let rest = items.drop_first();
        assert(!has_code(s, c0));
        assert(without_code(s, c0) == s) by {
            assert forall|i: int| 0 <= i < s.len() implies code_differs(c0)(#[trigger] s[i]) by {
                assert(s[i].0@ != c0);
            }
            lemma_kept_entries_all(s, code_differs(c0));
        }
        let s1 = stored(s, e0.0, e0.1);
        assert(stored_all(s, items) == stored_all(s1, rest));
        // uniqueness and disjointness carry to the next step
        assert(codes_unique(rest));
        if s.len() < MAX_PENDING_AUTHORIZATIONS {
            assert(s1 =~= s.push(e0));
            assert(codes_unique(s1)) by {
                assert forall|i: int, j: int| 0 <= i < j < s1.len() implies (#[trigger] s1[i].0)@
                    != (#[trigger] s1[j].0)@ by {
                    if j == s1.len() - 1 {
                        assert(s1[i] == s[i]);
                        assert(!has_code(s, c0));
                    }
                }
            }
            assert forall|i: int| 0 <= i < rest.len() implies !has_code(s1, (#[trigger] rest[i]).0@) by {
                assert(rest[i] == items[i + 1]);
                if has_code(s1, rest[i].0@) {
                    let k = choose|k: int| 0 <= k < s1.len() && (#[trigger] s1[k].0)@ == rest[i].0@;
                    if k < s.len() {
                        assert(!has_code(s, items[i + 1].0@));
                        assert(s[k].0@ == rest[i].0@);
                    } else {
                        assert(s1[k].0@ == c0);
                        assert(items[0].0@ != items[i + 1].0@);
                    }
                }
            }
            lemma_stored_all_window(s1, rest);
            assert(s1 + rest =~= s + items);
            assert(stored_all(s, items) == last_at_capacity(s + items));
        } else {
            assert(s.len() == MAX_PENDING_AUTHORIZATIONS);
            let dropped = s.skip(1);
            assert(evicted_to_capacity(s) =~= dropped);
            assert(s1 =~= dropped.push(e0));
            assert(codes_unique(dropped)) by {
                assert forall|i: int, j: int|
                    0 <= i < j < dropped.len() implies (#[trigger] dropped[i].0)@
                    != (#[trigger] dropped[j].0)@ by {
                    assert(dropped[i] == s[i + 1]);
                    assert(dropped[j] == s[j + 1]);
                }
            }
            assert(codes_unique(s1)) by {
                assert forall|i: int, j: int| 0 <= i < j < s1.len() implies (#[trigger] s1[i].0)@
                    != (#[trigger] s1[j].0)@ by {
                    if j == s1.len() - 1 {
                        assert(s1[i] == s[i + 1]);
                        assert(!has_code(s, c0));
                    } else {
                        assert(s1[i] == s[i + 1]);
                        assert(s1[j] == s[j + 1]);
                    }
                }
            }
            assert forall|i: int| 0 <= i < rest.len() implies !has_code(s1, (#[trigger] rest[i]).0@) by {
                assert(rest[i] == items[i + 1]);
                if has_code(s1, rest[i].0@) {
                    let k = choose|k: int| 0 <= k < s1.len() && (#[trigger] s1[k].0)@ == rest[i].0@;
                    if k < dropped.len() {
                        assert(s1[k] == s[k + 1]);
                        assert(!has_code(s, items[i + 1].0@));
                    } else {
                        assert(s1[k].0@ == c0);
                        assert(items[0].0@ != items[i + 1].0@);
                    }
                }
            }
            lemma_stored_all_window(s1, rest);
            assert(s1 + rest =~= (s + items).skip(1));
            // the window over s1 + rest is the window over s + items
            if s1.len() + rest.len() > MAX_PENDING_AUTHORIZATIONS {
                assert(last_at_capacity(s1 + rest) =~= last_at_capacity(s + items));
            } else {
                assert(rest.len() == 0);
                assert(last_at_capacity(s1 + rest) =~= s1);
                assert(last_at_capacity(s + items) =~= (s + items).skip(1));
            }
        }
    }
}

/// Law: storing more than the capacity's worth of records under pairwise
/// distinct codes into an empty store retains exactly the most recently
/// inserted 1000, in insertion order.
pub proof fn lemma_store_retains_most_recent(items: Seq<PendingEntry>)
    requires
        codes_unique(items),
        items.len() > MAX_PENDING_AUTHORIZATIONS,
    ensures
        stored_all(Seq::empty(), items).len() == MAX_PENDING_AUTHORIZATIONS,
        stored_all(Seq::empty(), items) == items.skip(
            items.len() - MAX_PENDING_AUTHORIZATIONS,
        ),
{
    let s0 = Seq::<PendingEntry>::empty();
    lemma_stored_all_window(s0, items);
    assert(s0 + items =~= items);
    assert(items.skip(items.len() - MAX_PENDING_AUTHORIZATIONS).len()
        == MAX_PENDING_AUTHORIZATIONS);
}

} // verus!
