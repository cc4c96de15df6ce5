//! Tool-level content rules: the unique-context edit primitive and the
//! per-element records batch operations report.
//!
//! Every tool entry point that takes a path validates it first; batch
//! operations run their elements in order, never abort on one element's
//! failure, and report success or failure per element.

use vstd::prelude::*;
use crate::strutil::{spec_match_at, clone_string};

verus! {

/// Positions at or after `i` where `pat` occurs in `s`, counted.
pub open spec fn spec_count_matches_from(s: Seq<char>, pat: Seq<char>, i: int) -> int
    decreases s.len() - i + 1,
{
    if i < 0 || i + pat.len() > s.len() {
        0
    } else {
        (if spec_match_at(s, pat, i) {
            1int
        } else {
            0int
        }) + spec_count_matches_from(s, pat, i + 1)
    }
}

/// How many positions of `s` hold an occurrence of `pat`.
pub open spec fn spec_count_matches(s: Seq<char>, pat: Seq<char>) -> int {
    spec_count_matches_from(s, pat, 0)
}

/// Why an edit was rejected.
#[derive(Debug, Clone, Copy, PartialEq, Eq, Structural)]
pub enum EditError {
    /// The text to replace may not be empty.
    EmptyOldString,
    /// The replacement must differ from the text to replace.
    UnchangedOldString,
    /// The text to replace does not occur; the match must be exact,
    /// whitespace included.
    NotFound,
    /// The text to replace occurs at this many places; more surrounding
    /// context is needed to make it unique.
    MultipleMatches(usize),
}

/// The decimal digits of `n`.
pub open spec fn spec_decimal(n: int) -> Seq<char>
    decreases n,
{
    if n <= 0 {
        Seq::empty()
    } else {
        spec_decimal(n / 10).push(spec_digit_char(n % 10))
    }
}

/// The digit character for one decimal digit.
pub open spec fn spec_digit_char(d: int) -> char {
    (48 + d) as char
}

/// The decimal text of `n`, with zero written as `0`.
pub open spec fn spec_u64_string(n: int) -> Seq<char> {
    if n == 0 {
        seq!['0']
    } else {
        spec_decimal(n)
    }
}

/// Write a number in decimal.
pub fn u64_to_string(n: u64) -> (r: String)
    ensures
        r@ == spec_u64_string(n as int),
{
    if n == 0 {
        let mut s = String::new();
        s.push('0');
        proof {
            assert(s@ =~= seq!['0']);
        }
        return s;
    }
    let mut digits: Vec<char> = Vec::new();
    let mut m = n;
    while m > 0
        invariant
            spec_decimal(n as int) =~= spec_decimal(m as int) + digits@,
        decreases m,
    {
        let d = (m % 10) as u8;
        let c = (48 + d) as char;
        proof {
            assert(c == spec_digit_char((m as int) % 10));
            assert(spec_decimal((m as int) / 10).push(c) + digits@ =~= spec_decimal(m as int)
                + digits@) by {
                assert(spec_decimal(m as int) == spec_decimal((m as int) / 10).push(c));
                assert(spec_decimal((m as int) / 10).push(c) =~= spec_decimal((m as int) / 10)
                    + seq![c]);
            }
            assert(spec_decimal((m as int) / 10) + (seq![c] + digits@) =~= spec_decimal(
                (m as int) / 10,
            ) + seq![c] + digits@);
        }
        digits.insert(0, c);
        m = m / 10;
    }
    proof {
        assert(spec_decimal(0) + digits@ =~= digits@);
    }
    let mut s = String::new();
    let mut i: usize = 0;
    while i < digits.len()
        invariant
            i <= digits@.len(),
            s@ =~= digits@.subrange(0, i as int),
        decreases digits@.len() - i,
    {
        s.push(digits[i]);
        proof {
            assert(s@ =~= digits@.subrange(0, i + 1));
        }
        i = i + 1;
    }
    proof {
        assert(digits@.subrange(0, digits@.len() as int) =~= digits@);
    }
    s
}

impl EditError {
    /// A description of the rejection; a multiple-match error names the
    /// count.
    pub fn message(&self) -> (r: String) {
        match self {
            EditError::EmptyOldString => String::from_str("old_string cannot be empty"),
            EditError::UnchangedOldString => String::from_str(
                "old_string and new_string are identical",
            ),
            EditError::NotFound => String::from_str(
                "old_string not found, match must be exact including whitespace",
            ),
            EditError::MultipleMatches(count) => {
                let c = u64_to_string(*count as u64);
                String::from_str("old_string appears ").concat(c.as_str()).concat(
                    " times, add more surrounding context to make it unique",
                )
            },
        }
    }
}

/// Replace `old_str` by `new_str` in `content`, only where the occurrence
/// is unique: an empty or unchanged `old_str` is rejected, no occurrence is
/// reported as not found, several occurrences are reported with their
/// count, and exactly one occurrence is replaced.
pub fn edit_note_content(content: &str, old_str: &str, new_str: &str) -> (r: Result<
    String,
    EditError,
>)
    ensures
        old_str@.len() == 0 ==> r == Err::<String, EditError>(EditError::EmptyOldString),
        old_str@.len() > 0 && old_str@ == new_str@ ==> r == Err::<String, EditError>(
            EditError::UnchangedOldString,
        ),
        old_str@.len() > 0 && old_str@ != new_str@ && spec_count_matches(content@, old_str@) == 0
            ==> r == Err::<String, EditError>(EditError::NotFound),
        old_str@.len() > 0 && old_str@ != new_str@ && spec_count_matches(content@, old_str@) > 1
            ==> r == Err::<String, EditError>(
            EditError::MultipleMatches(spec_count_matches(content@, old_str@) as usize),
        ),
        (old_str@.len() > 0 && old_str@ != new_str@ && spec_count_matches(content@, old_str@)
            == 1) ==> (r matches Ok(s) && exists|i: int|
            spec_match_at(content@, old_str@, i) && s@ == content@.subrange(0, i) + new_str@
                + content@.subrange(i + old_str@.len(), content@.len() as int)),
{
    let n = content.unicode_len();
    let m = old_str.unicode_len();
    if m == 0 {
        return Err(EditError::EmptyOldString);
    }
    if crate::strutil::str_eq(old_str, new_str) {
        return Err(EditError::UnchangedOldString);
    }
    if m > n {
        proof {
            lemma_count_zero_when_too_long(content@, old_str@, 0);
        }
        return Err(EditError::NotFound);
    }
    let mut count: usize = 0;
    let mut first: usize = 0;
    let mut found = false;
    let mut i: usize = 0;
    while i <= n - m
        invariant
            n == content@.len(),
            m == old_str@.len(),
            0 < m <= n,
            i <= n - m + 1,
            count <= i,
            spec_count_matches(content@, old_str@) == count + spec_count_matches_from(
                content@,
                old_str@,
                i as int,
            ),
            found <==> count > 0,
            found ==> first <= n - m && spec_match_at(content@, old_str@, first as int),
        decreases n - m + 1 - i,
    {
        let hit = match_here(content, old_str, i);
        if hit {
            if !found {
                first = i;
                found = true;
            }
            count = count + 1;
        }
        i = i + 1;
    }
    proof {
        assert(spec_count_matches_from(content@, old_str@, (n - m + 1) as int) == 0);
    }
    if count == 0 {
        return Err(EditError::NotFound);
    }
    if count > 1 {
        return Err(EditError::MultipleMatches(count));
    }
    let mut out = String::from_str(content.substring_char(0, first));
    out.append(new_str);
    out.append(content.substring_char(first + m, n));
    proof {
        assert(out@ == content@.subrange(0, first as int) + new_str@ + content@.subrange(
            first + m,
            n as int,
        ));
    }
    Ok(out)
}

fn match_here(content: &str, pat: &str, i: usize) -> (r: bool)
    requires
        i + pat@.len() <= content@.len(),
    ensures
        r == spec_match_at(content@, pat@, i as int),
{
    let n = content.unicode_len();
    let m = pat.unicode_len();
    let mut k: usize = 0;
    while k < m
        invariant
            n == content@.len(),
            m == pat@.len(),
            i + m <= n,
            k <= m,
            forall|t: int| 0 <= t < k ==> #[trigger] content@[i + t] == pat@[t],
        decreases m - k,
    {
        if content.get_char(i + k) != pat.get_char(k) {
            proof {
                assert(!spec_match_at(content@, pat@, i as int)) by {
                    if spec_match_at(content@, pat@, i as int) {
                        assert(content@.subrange(i as int, i + m)[k as int] == content@[i + k]);
                    }
                }
            }
            return false;
        }
        k = k + 1;
    }
    proof {
        assert(content@.subrange(i as int, i + m) =~= pat@) by {
            assert forall|t: int|
                0 <= t < m implies content@.subrange(i as int, i + m)[t] == pat@[t] by {
                assert(content@.subrange(i as int, i + m)[t] == content@[i + t]);
            }
        }
    }
    true
}

proof fn lemma_count_zero_when_too_long(s: Seq<char>, pat: Seq<char>, i: int)
    requires
        i >= 0,
        pat.len() > s.len(),
    ensures
        spec_count_matches_from(s, pat, i) == 0,
{
}

/// One element's outcome in a batch read.
#[derive(Debug)]
pub struct BatchReadResult {
    pub path: String,
    pub success: bool,
    pub content: Option<String>,
    pub error: Option<String>,
}

/// One element's outcome in a batch write.
#[derive(Debug)]
pub struct BatchWriteResult {
    pub path: String,
    pub success: bool,
    pub error: Option<String>,
}

/// One element's outcome in a batch delete.
#[derive(Debug)]
pub struct BatchDeleteResult {
    pub path: String,
    pub success: bool,
    pub error: Option<String>,
}

/// One element's outcome in a batch append.
#[derive(Debug)]
pub struct BatchAppendResult {
    pub path: String,
    pub success: bool,
    pub error: Option<String>,
}

/// The record one batch-read element reports: success carries the content
/// read, failure carries the error and no content.
pub fn batch_read_record(path: String, outcome: Result<String, String>) -> (r: BatchReadResult)
    ensures
        r.path@ == path@,
        r.success == (outcome is Ok),
        outcome matches Ok(c) ==> r.content == Some(c) && r.error is None,
        outcome matches Err(e) ==> r.error == Some(e) && r.content is None,
{
    match outcome {
        Ok(c) => BatchReadResult { path, success: true, content: Some(c), error: None },
        Err(e) => BatchReadResult { path, success: false, content: None, error: Some(e) },
    }
}

/// The record one batch-write element reports.
pub fn batch_write_record(path: String, outcome: Result<(), String>) -> (r: BatchWriteResult)
    ensures
        r.path@ == path@,
        r.success == (outcome is Ok),
        outcome matches Err(e) ==> r.error == Some(e),
        outcome is Ok ==> r.error is None,
{
    match outcome {
        Ok(()) => BatchWriteResult { path, success: true, error: None },
        Err(e) => BatchWriteResult { path, success: false, error: Some(e) },
    }
}

/// The record one batch-delete element reports.
pub fn batch_delete_record(path: String, outcome: Result<(), String>) -> (r: BatchDeleteResult)
    ensures
        r.path@ == path@,
        r.success == (outcome is Ok),
        outcome matches Err(e) ==> r.error == Some(e),
        outcome is Ok ==> r.error is None,
{
    match outcome {
        Ok(()) => BatchDeleteResult { path, success: true, error: None },
        Err(e) => BatchDeleteResult { path, success: false, error: Some(e) },
    }
}

/// The record one batch-append element reports.
pub fn batch_append_record(path: String, outcome: Result<(), String>) -> (r: BatchAppendResult)
    ensures
        r.path@ == path@,
        r.success == (outcome is Ok),
        outcome matches Err(e) ==> r.error == Some(e),
        outcome is Ok ==> r.error is None,
{
    match outcome {
        Ok(()) => BatchAppendResult { path, success: true, error: None },
        Err(e) => BatchAppendResult { path, success: false, error: Some(e) },
    }
}

/// Validate every path of a batch, reporting per element the error of the
/// first rule it breaks, in order.
pub fn validate_paths(paths: &Vec<String>) -> (r: Vec<Option<crate::paths::PathError>>)
    ensures
        r@.len() == paths@.len(),
        forall|i: int|
            0 <= i < paths@.len() ==> ((#[trigger] r@[i]) is None <==> crate::paths::path_ok(
                paths@[i]@,
            )),
{
    let mut out: Vec<Option<crate::paths::PathError>> = Vec::new();
    let mut i: usize = 0;
    while i < paths.len()
        invariant
            i <= paths@.len(),
            out@.len() == i,
            forall|j: int|
                0 <= j < i ==> ((#[trigger] out@[j]) is None <==> crate::paths::path_ok(
                    paths@[j]@,
                )),
        decreases paths@.len() - i,
    {
        match crate::paths::validate_note_path(paths[i].as_str()) {
            Ok(()) => out.push(None),
            Err(e) => out.push(Some(e)),
        }
        i = i + 1;
    }
    out
}

} // verus!
