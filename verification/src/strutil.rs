//! Small trusted bridges to `std` string operations that vstd leaves
//! unspecified, plus verified helpers over them.

use vstd::prelude::*;

verus! {

/// Relies on String::push: appends the given character to the end of the
/// string.
pub assume_specification[ String::push ](s: &mut String, c: char)
    ensures
        final (s)@ == old(s)@.push(c),
;

/// The percent-encoding of a string, as urlencoding::encode computes it: a
/// function of the characters alone.
pub uninterp spec fn urlenc_of(s: Seq<char>) -> Seq<char>;

/// Relies on urlencoding::encode for percent-encoding.
#[verifier::external_body]
pub fn urlencode(s: &str) -> (r: String)
    ensures
        r@ == urlenc_of(s@),
{
    urlencoding::encode(s).into_owned()
}

/// A copy of a string with the same characters.
pub fn clone_string(s: &String) -> (r: String)
    ensures
        r@ == s@,
{
    s.clone()
}

/// A copy of an optional string with the same characters.
pub fn clone_opt_string(s: &Option<String>) -> (r: Option<String>)
    ensures
        r == *s,
{
    match s {
        Some(x) => Some(x.clone()),
        None => None,
    }
}

/// A copy of a vector of strings, element for element.
pub fn clone_strings(v: &Vec<String>) -> (r: Vec<String>)
    ensures
        r@ == v@,
{
    let mut out: Vec<String> = Vec::new();
    let mut i: usize = 0;
    while i < v.len()
        invariant
            i <= v@.len(),
            out@ =~= v@.subrange(0, i as int),
        decreases v@.len() - i,
    {
        out.push(v[i].clone());
        proof {
            assert(out@ =~= v@.subrange(0, i + 1));
        }
        i = i + 1;
    }
    proof {
        assert(v@.subrange(0, v@.len() as int) =~= v@);
    }
    out
}

/// Relies on String::from_utf8: it succeeds exactly on valid UTF-8 and
/// returns the string those bytes encode.
#[verifier::external_body]
pub fn utf8_to_string(bytes: Vec<u8>) -> (r: Option<String>)
    ensures
        r is Some <==> vstd::utf8::valid_utf8(bytes@),
        r matches Some(s) ==> s@ == vstd::utf8::decode_utf8(bytes@),
{
    String::from_utf8(bytes).ok()
}

/// Whether two string slices hold the same characters.
pub fn str_eq(a: &str, b: &str) -> (r: bool)
    ensures
        r == (a@ == b@),
{
    let na = a.unicode_len();
    let nb = b.unicode_len();
    if na != nb {
        proof {
            assert(a@ != b@);
        }
        return false;
    }
    let mut i: usize = 0;
    while i < na
        invariant
            na == a@.len(),
            na == b@.len(),
            i <= na,
            forall|j: int| 0 <= j < i ==> a@[j] == b@[j],
        decreases na - i,
    {
        if a.get_char(i) != b.get_char(i) {
            return false;
        }
        i = i + 1;
    }
    proof {
        assert(a@ =~= b@);
    }
    true
}

/// `needle` occurs at position `i` of `hay`.
pub open spec fn spec_match_at(hay: Seq<char>, needle: Seq<char>, i: int) -> bool {
    &&& 0 <= i
    &&& i + needle.len() <= hay.len()
    &&& hay.subrange(i, i + needle.len()) == needle
}

/// `needle` occurs somewhere in `hay`.
pub open spec fn spec_contains(hay: Seq<char>, needle: Seq<char>) -> bool {
    exists|i: int| spec_match_at(hay, needle, i)
}

/// Find the first position where `needle` occurs in `hay`; an empty needle
/// matches at the start.
pub fn str_find(hay: &str, needle: &str) -> (r: Option<usize>)
    ensures
        match r {
            Some(i) => spec_match_at(hay@, needle@, i as int) && forall|j: int|
                0 <= j < i ==> !spec_match_at(hay@, needle@, j),
            None => !spec_contains(hay@, needle@),
        },
{
    let n = hay.unicode_len();
    let m = needle.unicode_len();
    if m > n {
        proof {
            assert forall|j: int| !spec_match_at(hay@, needle@, j) by {}
        }
        return None;
    }
    let mut i: usize = 0;
    while i <= n - m
        invariant
            n == hay@.len(),
            m == needle@.len(),
            m <= n,
            i <= n - m + 1,
            forall|j: int| 0 <= j < i ==> !spec_match_at(hay@, needle@, j),
        decreases n - m + 1 - i,
    {
        let mut k: usize = 0;
        let mut all_eq = true;
        while k < m
            invariant
                n == hay@.len(),
                m == needle@.len(),
                i + m <= n,
                k <= m,
                all_eq <==> (forall|t: int| 0 <= t < k ==> #[trigger] hay@[i + t] == needle@[t]),
            decreases m - k,
        {
            if hay.get_char(i + k) != needle.get_char(k) {
                all_eq = false;
                proof {
                    assert(hay@[i + k] != needle@[k as int]);
                }
                k = m;
            } else {
                if all_eq {
                    k = k + 1;
                } else {
                    k = m;
                }
            }
        }
        if all_eq {
            proof {
                assert(hay@.subrange(i as int, i + m) =~= needle@) by {
                    assert forall|t: int|
                        0 <= t < m implies hay@.subrange(i as int, i + m)[t] == needle@[t] by {
                        assert(hay@.subrange(i as int, i + m)[t] == hay@[i + t]);
                    }
                }
            }
            return Some(i);
        }
        proof {
            assert(!spec_match_at(hay@, needle@, i as int)) by {
                if spec_match_at(hay@, needle@, i as int) {
                    let t = choose|t: int| 0 <= t < m && #[trigger] hay@[i + t] != needle@[t];
                    assert(hay@.subrange(i as int, i + m)[t] == hay@[i + t]);
                }
            }
        }
        i = i + 1;
    }
    proof {
        assert forall|j: int| !spec_match_at(hay@, needle@, j) by {
            if 0 <= j <= n - m {
                assert(!spec_match_at(hay@, needle@, j));
            }
        }
    }
    None
}

/// Whether `needle` occurs anywhere in `hay`.
pub fn str_contains(hay: &str, needle: &str) -> (r: bool)
    ensures
        r == spec_contains(hay@, needle@),
{
    str_find(hay, needle).is_some()
}

/// An ASCII whitespace character.
pub open spec fn spec_is_space(c: char) -> bool {
    c == ' ' || c == '\t' || c == '\n' || c == '\r'
}

fn is_space(c: char) -> (r: bool)
    ensures
        r == spec_is_space(c),
{
    c == ' ' || c == '\t' || c == '\n' || c == '\r'
}

/// The whitespace-separated tokens of the remaining characters `s`, with
/// `cur` the token under construction.
pub open spec fn spec_tokens_rec(s: Seq<char>, cur: Seq<char>) -> Seq<Seq<char>>
    decreases s.len(),
{
    if s.len() == 0 {
        if cur.len() > 0 {
            seq![cur]
        } else {
            Seq::empty()
        }
    } else if spec_is_space(s[0]) {
        if cur.len() > 0 {
            seq![cur] + spec_tokens_rec(s.drop_first(), Seq::empty())
        } else {
            spec_tokens_rec(s.drop_first(), Seq::empty())
        }
    } else {
        spec_tokens_rec(s.drop_first(), cur.push(s[0]))
    }
}

/// The whitespace-separated tokens of a string, in order, each nonempty.
pub open spec fn spec_tokens(s: Seq<char>) -> Seq<Seq<char>> {
    spec_tokens_rec(s, Seq::empty())
}

/// Split a string into its whitespace-separated tokens.
pub fn tokens(s: &str) -> (r: Vec<String>)
    ensures
        r.deep_view() == spec_tokens(s@),
{
    let n = s.unicode_len();
    let mut out: Vec<String> = Vec::new();
    let mut cur = String::new();
    proof {
        assert(s@.subrange(0, n as int) =~= s@);
        assert(Seq::<Seq<char>>::empty() + spec_tokens_rec(s@, Seq::empty()) =~= spec_tokens(s@));
    }
    let mut i: usize = 0;
    while i < n
        invariant
            n == s@.len(),
            i <= n,
            out.deep_view() + spec_tokens_rec(s@.subrange(i as int, n as int), cur@)
                =~= spec_tokens(s@),
        decreases n - i,
    {
        let ghost rest = s@.subrange(i as int, n as int);
        let c = s.get_char(i);
        proof {
            assert(rest[0] == s@[i as int]);
            assert(rest.drop_first() =~= s@.subrange(i + 1, n as int));
        }
        if is_space(c) {
            if !cur.as_str().is_empty() {
                proof {
                    assert(cur@.len() > 0);
                    assert(out.deep_view().push(cur@) + spec_tokens_rec(
                        rest.drop_first(),
                        Seq::empty(),
                    ) =~= out.deep_view() + (seq![cur@] + spec_tokens_rec(
                        rest.drop_first(),
                        Seq::empty(),
                    )));
                }
                out.push(cur);
                cur = String::new();
            } else {
                proof {
                    assert(cur@ =~= Seq::<char>::empty());
                }
            }
        } else {
            cur.push(c);
        }
        i = i + 1;
    }
    proof {
        assert(s@.subrange(n as int, n as int) =~= Seq::<char>::empty());
    }
    if !cur.as_str().is_empty() {
        proof {
            assert(out.deep_view().push(cur@) + Seq::<Seq<char>>::empty() =~= out.deep_view() + seq![
                cur@,
            ]);
        }
        out.push(cur);
    } else {
        proof {
            assert(cur@ =~= Seq::<char>::empty());
            assert(out.deep_view() + Seq::<Seq<char>>::empty() =~= out.deep_view());
        }
    }
    out
}

/// The tokens joined by single spaces.
pub open spec fn spec_join_spaces(ts: Seq<Seq<char>>) -> Seq<char>
    decreases ts.len(),
{
    if ts.len() == 0 {
        Seq::empty()
    } else if ts.len() == 1 {
        ts[0]
    } else {
        ts[0] + seq![' '] + spec_join_spaces(ts.drop_first())
    }
}

/// Join tokens with single spaces.
pub fn join_spaces(ts: &Vec<String>) -> (r: String)
    ensures
        r@ == spec_join_spaces(ts.deep_view()),
{
    let mut out = String::new();
    if ts.len() == 0 {
        return out;
    }
    let mut i: usize = 0;
    while i < ts.len()
        invariant
            ts@.len() > 0,
            i <= ts@.len(),
            i > 0 ==> out@ + spec_join_tail(ts.deep_view(), i as int) =~= spec_join_spaces(
                ts.deep_view(),
            ),
            i == 0 ==> out@.len() == 0,
        decreases ts@.len() - i,
    {
        if i > 0 {
            out.push(' ');
        }
        out.append(ts[i].as_str());
        proof {
            lemma_join_tail_step(ts.deep_view(), i as int);
        }
        i = i + 1;
    }
    proof {
        lemma_join_tail_step(ts.deep_view(), 0);
        assert(spec_join_tail(ts.deep_view(), ts.deep_view().len() as int) =~= Seq::<char>::empty());
    }
    out
}

/// What remains to be appended after the first `i` tokens are joined.
pub open spec fn spec_join_tail(ts: Seq<Seq<char>>, i: int) -> Seq<char>
    decreases ts.len() - i,
{
    if i < 0 || i >= ts.len() {
        Seq::empty()
    } else {
        seq![' '] + ts[i] + spec_join_tail(ts, i + 1)
    }
}

proof fn lemma_join_tail_step(ts: Seq<Seq<char>>, i: int)
    requires
        0 <= i < ts.len(),
    ensures
        i == 0 ==> spec_join_spaces(ts) == ts[0] + spec_join_tail(ts, 1),
        i > 0 ==> spec_join_tail(ts, i) == seq![' '] + ts[i] + spec_join_tail(ts, i + 1),
    decreases i,
{
    if i == 0 {
        lemma_join_spaces_as_tail(ts);
    }
}

proof fn lemma_join_spaces_as_tail(ts: Seq<Seq<char>>)
    requires
        ts.len() > 0,
    ensures
        spec_join_spaces(ts) == ts[0] + spec_join_tail(ts, 1),
    decreases ts.len(),
{
    if ts.len() == 1 {
        assert(spec_join_tail(ts, 1) =~= Seq::<char>::empty());
        assert(ts[0] + Seq::<char>::empty() =~= ts[0]);
    } else {
        lemma_join_spaces_as_tail(ts.drop_first());
        assert(ts.drop_first()[0] == ts[1]);
        lemma_join_tail_shift(ts, 2);
        assert(spec_join_spaces(ts) == ts[0] + seq![' '] + spec_join_spaces(ts.drop_first()));
        assert(spec_join_spaces(ts.drop_first()) == ts[1] + spec_join_tail(ts.drop_first(), 1));
        assert(spec_join_tail(ts, 1) == seq![' '] + ts[1] + spec_join_tail(ts, 2));
        assert(ts[0] + seq![' '] + (ts[1] + spec_join_tail(ts.drop_first(), 1)) =~= ts[0] + (seq![
            ' ',
        ] + ts[1] + spec_join_tail(ts, 2)));
    }
}

proof fn lemma_join_tail_shift(ts: Seq<Seq<char>>, i: int)
    requires
        ts.len() >= 1,
        1 <= i,
    ensures
        spec_join_tail(ts.drop_first(), i - 1) == spec_join_tail(ts, i),
    decreases ts.len() - i,
{
    if i >= ts.len() {
        assert(spec_join_tail(ts, i) =~= Seq::<char>::empty());
        assert(spec_join_tail(ts.drop_first(), i - 1) =~= Seq::<char>::empty());
    } else {
        lemma_join_tail_shift(ts, i + 1);
        assert(ts.drop_first()[i - 1] == ts[i]);
        assert(spec_join_tail(ts.drop_first(), i - 1) =~= spec_join_tail(ts, i));
    }
}

/// The lines of the remaining characters `s`, with `cur` the line under
/// construction: lines are separated by `\n`, and the last element is the
/// text after the final separator, possibly empty.
pub open spec fn spec_lines_rec(s: Seq<char>, cur: Seq<char>) -> Seq<Seq<char>>
    decreases s.len(),
{
    if s.len() == 0 {
        seq![cur]
    } else if s[0] == '\n' {
        seq![cur] + spec_lines_rec(s.drop_first(), Seq::empty())
    } else {
        spec_lines_rec(s.drop_first(), cur.push(s[0]))
    }
}

/// The lines of a string, split on `\n`, final fragment included.
pub open spec fn spec_lines(s: Seq<char>) -> Seq<Seq<char>> {
    spec_lines_rec(s, Seq::empty())
}

/// Split a string on `\n` into its lines; the final fragment after the last
/// separator is included, possibly empty.
pub fn split_lines(s: &str) -> (r: Vec<String>)
    ensures
        r.deep_view() == spec_lines(s@),
        r@.len() >= 1,
{
    let n = s.unicode_len();
    let mut out: Vec<String> = Vec::new();
    let mut cur = String::new();
    proof {
        assert(s@.subrange(0, n as int) =~= s@);
        assert(Seq::<Seq<char>>::empty() + spec_lines_rec(s@, Seq::empty()) =~= spec_lines(s@));
    }
    let mut i: usize = 0;
    while i < n
        invariant
            n == s@.len(),
            i <= n,
            out.deep_view() + spec_lines_rec(s@.subrange(i as int, n as int), cur@) =~= spec_lines(
                s@,
            ),
        decreases n - i,
    {
        let ghost rest = s@.subrange(i as int, n as int);
        let c = s.get_char(i);
        proof {
            assert(rest[0] == s@[i as int]);
            assert(rest.drop_first() =~= s@.subrange(i + 1, n as int));
        }
        if c == '\n' {
            proof {
                assert(out.deep_view().push(cur@) + spec_lines_rec(rest.drop_first(), Seq::empty())
                    =~= out.deep_view() + (seq![cur@] + spec_lines_rec(
                    rest.drop_first(),
                    Seq::empty(),
                )));
            }
            out.push(cur);
            cur = String::new();
        } else {
            cur.push(c);
        }
        i = i + 1;
    }
    proof {
        assert(s@.subrange(n as int, n as int) =~= Seq::<char>::empty());
        assert(out.deep_view().push(cur@) + Seq::<Seq<char>>::empty() =~= out.deep_view() + seq![
            cur@,
        ]);
    }
    out.push(cur);
    out
}

/// The characters left after dropping leading whitespace.
pub open spec fn spec_trim_start(s: Seq<char>) -> Seq<char>
    decreases s.len(),
{
    if s.len() > 0 && spec_is_space(s[0]) {
        spec_trim_start(s.drop_first())
    } else {
        s
    }
}

/// The characters left after dropping trailing whitespace.
pub open spec fn spec_trim_end(s: Seq<char>) -> Seq<char>
    decreases s.len(),
{
    if s.len() > 0 && spec_is_space(s.last()) {
        spec_trim_end(s.drop_last())
    } else {
        s
    }
}

/// The characters left after dropping whitespace at both ends.
pub open spec fn spec_trim(s: Seq<char>) -> Seq<char> {
    spec_trim_end(spec_trim_start(s))
}

proof fn lemma_trim_start_skip(s: Seq<char>, k: int)
    requires
        0 <= k <= s.len(),
        forall|j: int| 0 <= j < k ==> spec_is_space(#[trigger] s[j]),
    ensures
        spec_trim_start(s) == spec_trim_start(s.skip(k)),
    decreases k,
{
    if k == 0 {
        assert(s.skip(0) =~= s);
    } else {
        assert(spec_is_space(s[0]));
        assert(s.drop_first() =~= s.skip(1));
        lemma_trim_start_skip(s.skip(1), k - 1);
        assert(s.skip(1).skip(k - 1) =~= s.skip(k));
    }
}

proof fn lemma_trim_end_take(s: Seq<char>, k: int)
    requires
        0 <= k <= s.len(),
        forall|j: int| k <= j < s.len() ==> spec_is_space(#[trigger] s[j]),
    ensures
        spec_trim_end(s) == spec_trim_end(s.take(k)),
    decreases s.len() - k,
{
    if k == s.len() {
        assert(s.take(k) =~= s);
    } else {
        assert(spec_is_space(s.last()));
        assert(s.drop_last() =~= s.take(s.len() - 1));
        lemma_trim_end_take(s.take(s.len() - 1), k);
        assert(s.take(s.len() - 1).take(k) =~= s.take(k));
    }
}

/// Trim ASCII whitespace from both ends of a string.
pub fn trim(s: &str) -> (r: String)
    ensures
        r@ == spec_trim(s@),
{
    let n = s.unicode_len();
    let mut a: usize = 0;
    while a < n && is_space(s.get_char(a))
        invariant
            n == s@.len(),
            a <= n,
            forall|j: int| 0 <= j < a ==> spec_is_space(#[trigger] s@[j]),
        decreases n - a,
    {
        a = a + 1;
    }
    proof {
        lemma_trim_start_skip(s@, a as int);
        if a < n {
            assert(s@.skip(a as int)[0] == s@[a as int]);
            assert(spec_trim_start(s@.skip(a as int)) == s@.skip(a as int));
        } else {
            assert(s@.skip(a as int) =~= Seq::<char>::empty());
            assert(spec_trim_start(s@) =~= s@.skip(a as int));
        }
    }
    let mut b: usize = n;
    while b > a && is_space(s.get_char(b - 1))
        invariant
            n == s@.len(),
            a <= b <= n,
            forall|j: int| b <= j < n ==> spec_is_space(#[trigger] s@[j]),
        decreases b,
    {
        b = b - 1;
    }
    let r = String::from_str(s.substring_char(a, b));
    proof {
        let t = s@.skip(a as int);
        assert(spec_trim(s@) == spec_trim_end(t));
        assert forall|j: int| (b - a) <= j < t.len() implies spec_is_space(#[trigger] t[j]) by {
            assert(t[j] == s@[j + a]);
        }
        lemma_trim_end_take(t, b - a);
        assert(t.take(b - a) =~= s@.subrange(a as int, b as int));
        if b > a {
            assert(t.take(b - a).last() == s@[b - 1]);
            assert(!spec_is_space(t.take(b - a).last()));
            assert(spec_trim_end(t.take(b - a)) == t.take(b - a));
        } else {
            assert(t.take(b - a) =~= Seq::<char>::empty());
            assert(spec_trim_end(t.take(b - a)) == t.take(b - a));
        }
    }
    r
}

/// Whether `s` starts with the characters of `prefix`.
pub open spec fn starts_with(s: Seq<char>, prefix: Seq<char>) -> bool {
    s.len() >= prefix.len() && s.subrange(0, prefix.len() as int) == prefix
}

/// Check a prefix character by character.
pub fn str_starts_with(s: &str, prefix: &str) -> (r: bool)
    ensures
        r == starts_with(s@, prefix@),
{
    let n = s.unicode_len();
    let np = prefix.unicode_len();
    if np > n {
        return false;
    }
    let mut i: usize = 0;
    while i < np
        invariant
            n == s@.len(),
            np == prefix@.len(),
            np <= n,
            i <= np,
            forall|j: int| 0 <= j < i ==> s@[j] == prefix@[j],
        decreases np - i,
    {
        if s.get_char(i) != prefix.get_char(i) {
            proof {
                assert(s@.subrange(0, np as int)[i as int] != prefix@[i as int]);
            }
            return false;
        }
        i = i + 1;
    }
    proof {
        assert(s@.subrange(0, np as int) =~= prefix@);
    }
    true
}

} // verus!
