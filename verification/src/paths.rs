//! Note-path validation at the tool boundary.
//!
//! A path is accepted only when it is non-empty, ends in `.md`, contains no
//! `..`, does not start with `/`, contains no NUL byte, and uses only
//! characters from `[A-Za-z0-9 \-_./()']`. Every tool entry point that takes
//! a path runs this check before any I/O, including each element of a batch.

use vstd::prelude::*;

verus! {

/// The reason a note path was rejected, naming the first offending character
/// where one exists.
#[derive(Debug, Clone, Copy, PartialEq, Eq, Structural)]
pub enum PathError {
    Empty,
    NoMdExtension,
    ParentTraversal,
    LeadingSlash,
    NulByte,
    InvalidChar(char),
}

/// Characters allowed in a note path: ASCII alphanumerics and ` -_./()'`.
pub open spec fn allowed_path_char(c: char) -> bool {
    ||| 'a' as u32 <= c as u32 && c as u32 <= 'z' as u32
    ||| 'A' as u32 <= c as u32 && c as u32 <= 'Z' as u32
    ||| '0' as u32 <= c as u32 && c as u32 <= '9' as u32
    ||| c == ' '
    ||| c == '-'
    ||| c == '_'
    ||| c == '.'
    ||| c == '/'
    ||| c == '('
    ||| c == ')'
    ||| c == '\''
}

/// The path ends with the three characters `.md`.
pub open spec fn ends_with_md(s: Seq<char>) -> bool {
    s.len() >= 3 && s[s.len() - 3] == '.' && s[s.len() - 2] == 'm' && s[s.len() - 1] == 'd'
}

/// Two consecutive dots occur somewhere in the path.
pub open spec fn has_parent_traversal(s: Seq<char>) -> bool {
    exists|i: int| 0 <= i && i + 1 < s.len() && #[trigger] s[i] == '.' && s[i + 1] == '.'
}

/// Every condition a valid note path must meet.
pub open spec fn path_ok(s: Seq<char>) -> bool {
    &&& s.len() > 0
    &&& ends_with_md(s)
    &&& !has_parent_traversal(s)
    &&& s[0] != '/'
    &&& forall|i: int| 0 <= i < s.len() ==> allowed_path_char(#[trigger] s[i])
}

fn allowed_path_char_exec(c: char) -> (r: bool)
    ensures
        r == allowed_path_char(c),
{
    let v = c as u32;
    (97 <= v && v <= 122) || (65 <= v && v <= 90) || (48 <= v && v <= 57) || c == ' ' || c == '-'
        || c == '_' || c == '.' || c == '/' || c == '(' || c == ')' || c == '\''
}

/// Validate a note path, reporting the first rule it breaks.
///
/// The checks run in a fixed order (empty, extension, `..`, leading slash,
/// NUL, character set), so each error variant identifies exactly the inputs
/// that pass every earlier check and fail its own.
#[verifier::loop_isolation(false)]
pub fn validate_note_path(path: &str) -> (r: Result<(), PathError>)
    ensures
        r is Ok <==> path_ok(path@),
        r == Err::<(), PathError>(PathError::Empty) <==> path@.len() == 0,
        r == Err::<(), PathError>(PathError::NoMdExtension) <==> path@.len() > 0 && !ends_with_md(
            path@,
        ),
        r == Err::<(), PathError>(PathError::ParentTraversal) <==> path@.len() > 0 && ends_with_md(
            path@,
        ) && has_parent_traversal(path@),
        r == Err::<(), PathError>(PathError::LeadingSlash) <==> path@.len() > 0 && ends_with_md(
            path@,
        ) && !has_parent_traversal(path@) && path@[0] == '/',
        r == Err::<(), PathError>(PathError::NulByte) <==> path@.len() > 0 && ends_with_md(path@)
            && !has_parent_traversal(path@) && path@[0] != '/' && (exists|i: int|
            0 <= i < path@.len() && path@[i] == '\0'),
        forall|c: char|
            r == Err::<(), PathError>(PathError::InvalidChar(c)) ==> !allowed_path_char(c)
                && (exists|i: int|
                0 <= i < path@.len() && #[trigger] path@[i] == c && (forall|j: int|
                    0 <= j < i ==> allowed_path_char(#[trigger] path@[j]))),
{
    let n = path.unicode_len();
    if n == 0 {
        return Err(PathError::Empty);
    }
    if !(n >= 3 && path.get_char(n - 3) == '.' && path.get_char(n - 2) == 'm' && path.get_char(
        n - 1,
    ) == 'd') {
        return Err(PathError::NoMdExtension);
    }
    let mut i: usize = 0;
    while i < n - 1
        invariant
            n == path@.len(),
            i <= n,
            forall|j: int|
                0 <= j && j + 1 < i + 1 && j + 1 < n ==> !(#[trigger] path@[j] == '.' && path@[j
                    + 1] == '.'),
        decreases n - i,
    {
        if path.get_char(i) == '.' && path.get_char(i + 1) == '.' {
            return Err(PathError::ParentTraversal);
        }
        i = i + 1;
    }
    assert(!has_parent_traversal(path@));
    if path.get_char(0) == '/' {
        return Err(PathError::LeadingSlash);
    }
    let mut i: usize = 0;
    while i < n
        invariant
            n == path@.len(),
            i <= n,
            forall|j: int| 0 <= j < i ==> path@[j] != '\0',
        decreases n - i,
    {
        if path.get_char(i) == '\0' {
            return Err(PathError::NulByte);
        }
        i = i + 1;
    }
    let mut i: usize = 0;
    while i < n
        invariant
            n == path@.len(),
            i <= n,
            forall|j: int| 0 <= j < i ==> allowed_path_char(#[trigger] path@[j]),
        decreases n - i,
    {
        let c = path.get_char(i);
        if !allowed_path_char_exec(c) {
            return Err(PathError::InvalidChar(c));
        }
        i = i + 1;
    }
    Ok(())
}

/// Every path that passes validation contains no `..`, does not start with
/// `/`, ends with `.md`, and contains no NUL character.
pub proof fn lemma_valid_path_properties(s: Seq<char>)
    requires
        path_ok(s),
    ensures
        !has_parent_traversal(s),
        s[0] != '/',
        ends_with_md(s),
        forall|i: int| 0 <= i < s.len() ==> s[i] != '\0',
{
    assert forall|i: int| 0 <= i < s.len() implies s[i] != '\0' by {
        assert(allowed_path_char(s[i]));
    }
}

} // verus!
