//! Chunked-document codec.
//!
//! Note content is stored as a sequence of chunk documents: splitting walks
//! the content character by character (never inside a multi-byte code point)
//! and seals a chunk whenever appending the next character would push it past
//! a 32-byte target; assembly concatenates chunk data back in order. Splitting
//! produces at least one chunk even for empty content, and reassembling the
//! chunks of any content yields that content unchanged.

use vstd::prelude::*;
use vstd::utf8::{char_is_scalar, encode_scalar, encode_utf8};

verus! {

/// Byte budget for one chunk of note content.
pub const CHUNK_TARGET_BYTES: usize = 32;

/// Number of bytes the UTF-8 encoding of one character takes.
pub open spec fn char_byte_len(c: char) -> int {
    encode_scalar(c as u32).len() as int
}

/// Number of bytes the UTF-8 encoding of a character sequence takes.
pub open spec fn byte_len(s: Seq<char>) -> int {
    encode_utf8(s).len() as int
}

/// The chunks produced for the remaining content `s` when the chunk under
/// construction currently holds `cur`.
pub open spec fn split_rec(s: Seq<char>, cur: Seq<char>) -> Seq<Seq<char>>
    decreases s.len(),
{
    if s.len() == 0 {
        if cur.len() > 0 {
            seq![cur]
        } else {
            Seq::empty()
        }
    } else {
        let c = s[0];
        if byte_len(cur) + char_byte_len(c) > CHUNK_TARGET_BYTES && cur.len() > 0 {
            seq![cur] + split_rec(s.drop_first(), seq![c])
        } else {
            split_rec(s.drop_first(), cur.push(c))
        }
    }
}

/// How any content is cut into chunks: empty content yields one empty chunk;
/// anything else is split greedily on character boundaries.
pub open spec fn split_plain(s: Seq<char>) -> Seq<Seq<char>> {
    if s.len() == 0 {
        seq![Seq::<char>::empty()]
    } else {
        split_rec(s, Seq::empty())
    }
}

pub(crate) proof fn lemma_encode_utf8_push(s: Seq<char>, c: char)
    ensures
        encode_utf8(s.push(c)) == encode_utf8(s) + encode_scalar(c as u32),
    decreases s.len(),
{
    let t = s.push(c);
    if s.len() == 0 {
        assert(t[0] == c);
        assert(t.drop_first() =~= Seq::<char>::empty());
        assert(encode_utf8(t) == encode_scalar(c as u32) + encode_utf8(t.drop_first()));
        assert(encode_utf8(t) =~= encode_utf8(s) + encode_scalar(c as u32));
    } else {
        lemma_encode_utf8_push(s.drop_first(), c);
        assert(t[0] == s[0]);
        assert(t.drop_first() =~= s.drop_first().push(c));
        assert(encode_utf8(t) == encode_scalar(s[0] as u32) + encode_utf8(t.drop_first()));
        assert(encode_utf8(s) == encode_scalar(s[0] as u32) + encode_utf8(s.drop_first()));
        assert(encode_utf8(t) =~= encode_utf8(s) + encode_scalar(c as u32));
    }
}

/// Prepending one character adds exactly its encoding to the front.
pub(crate) proof fn lemma_encode_utf8_cons(c: char, s: Seq<char>)
    ensures
        encode_utf8(seq![c] + s) == encode_scalar(c as u32) + encode_utf8(s),
{
    let t = seq![c] + s;
    assert(t[0] == c);
    assert(t.drop_first() =~= s);
    assert(encode_utf8(t) == encode_scalar(c as u32) + encode_utf8(t.drop_first()));
}

proof fn lemma_split_rec_concat(s: Seq<char>, cur: Seq<char>)
    ensures
        split_rec(s, cur).flatten() == cur + s,
    decreases s.len(),
{
    if s.len() == 0 {
        if cur.len() > 0 {
            seq![cur].lemma_flatten_singleton();
            assert(split_rec(s, cur).flatten() =~= cur + s);
        } else {
            assert(split_rec(s, cur).flatten() == Seq::<char>::empty().add(
                Seq::<Seq<char>>::empty().drop_first().flatten(),
            ) || split_rec(s, cur).flatten() == Seq::<char>::empty()) by {
                assert(Seq::<Seq<char>>::empty().len() == 0);
            }
            assert(Seq::<Seq<char>>::empty().flatten() == Seq::<char>::empty());
            assert(split_rec(s, cur).flatten() =~= cur + s);
        }
    } else {
        let c = s[0];
        if byte_len(cur) + char_byte_len(c) > CHUNK_TARGET_BYTES && cur.len() > 0 {
            lemma_split_rec_concat(s.drop_first(), seq![c]);
            vstd::seq_lib::lemma_flatten_concat(seq![cur], split_rec(s.drop_first(), seq![c]));
            seq![cur].lemma_flatten_singleton();
            assert(split_rec(s, cur).flatten() =~= cur + s);
        } else {
            lemma_split_rec_concat(s.drop_first(), cur.push(c));
            assert(split_rec(s, cur).flatten() =~= cur + s);
        }
    }
}

/// Law: reassembling the chunks that splitting produces for any content
/// yields exactly that content.
pub proof fn lemma_split_assemble_round_trip(s: Seq<char>)
    ensures
        split_plain(s).flatten() == s,
{
    if s.len() == 0 {
        split_plain(s).lemma_flatten_singleton();
        assert(split_plain(s).flatten() =~= s);
    } else {
        lemma_split_rec_concat(s, Seq::empty());
        assert(Seq::<char>::empty() + s =~= s);
    }
}

proof fn lemma_split_rec_sizes(s: Seq<char>, cur: Seq<char>)
    requires
        byte_len(cur) <= CHUNK_TARGET_BYTES,
    ensures
        forall|i: int|
            0 <= i < split_rec(s, cur).len() ==> byte_len(#[trigger] split_rec(s, cur)[i])
                <= CHUNK_TARGET_BYTES,
    decreases s.len(),
{
    broadcast use char_is_scalar;

    if s.len() == 0 {
        if cur.len() > 0 {
            assert forall|i: int| 0 <= i < split_rec(s, cur).len() implies byte_len(
                #[trigger] split_rec(s, cur)[i],
            ) <= CHUNK_TARGET_BYTES by {
                assert(split_rec(s, cur)[i] == cur);
            }
        } else {
            assert(split_rec(s, cur).len() == 0);
        }
    } else {
        let c = s[0];
        if byte_len(cur) + char_byte_len(c) > CHUNK_TARGET_BYTES && cur.len() > 0 {
            assert(byte_len(seq![c]) == char_byte_len(c)) by {
                lemma_encode_utf8_push(Seq::empty(), c);
                assert(Seq::<char>::empty().push(c) =~= seq![c]);
                assert(encode_utf8(Seq::<char>::empty()) + encode_scalar(c as u32) =~= encode_scalar(
                    c as u32,
                ));
            }
            assert(char_byte_len(c) <= 4);
            lemma_split_rec_sizes(s.drop_first(), seq![c]);
            assert forall|i: int| 0 <= i < split_rec(s, cur).len() implies byte_len(
                #[trigger] split_rec(s, cur)[i],
            ) <= CHUNK_TARGET_BYTES by {
                if i > 0 {
                    assert(split_rec(s, cur)[i] == split_rec(s.drop_first(), seq![c])[i - 1]);
                }
            }
        } else {
            assert(char_byte_len(c) <= 4);
            if cur.len() == 0 {
                assert(cur =~= Seq::<char>::empty());
                assert(encode_utf8(Seq::<char>::empty()).len() == 0);
            }
            assert(byte_len(cur.push(c)) == byte_len(cur) + char_byte_len(c)) by {
                lemma_encode_utf8_push(cur, c);
            }
            lemma_split_rec_sizes(s.drop_first(), cur.push(c));
            assert forall|i: int| 0 <= i < split_rec(s, cur).len() implies byte_len(
                #[trigger] split_rec(s, cur)[i],
            ) <= CHUNK_TARGET_BYTES by {
                assert(split_rec(s, cur)[i] == split_rec(s.drop_first(), cur.push(c))[i]);
            }
        }
    }
}

/// Law: every chunk that splitting produces fits the 32-byte target.
pub proof fn lemma_split_chunk_sizes(s: Seq<char>)
    ensures
        forall|i: int|
            0 <= i < split_plain(s).len() ==> byte_len(#[trigger] split_plain(s)[i])
                <= CHUNK_TARGET_BYTES,
{
    assert(encode_utf8(Seq::<char>::empty()).len() == 0);
    if s.len() == 0 {
        assert(split_plain(s)[0] == Seq::<char>::empty());
    } else {
        lemma_split_rec_sizes(s, Seq::empty());
    }
}

/// Number of bytes `c` takes in UTF-8.
pub fn utf8_len(c: char) -> (r: usize)
    ensures
        r == char_byte_len(c),
{
    proof {
        broadcast use char_is_scalar;

    }
    let v = c as u32;
    if v <= 0x7F {
        1
    } else if v <= 0x7FF {
        2
    } else if v <= 0xFFFF {
        3
    } else {
        4
    }
}

/// Split note content into chunk contents, greedily, on character
/// boundaries, never exceeding the 32-byte target per chunk, and producing
/// at least one chunk even for empty content.
pub fn split_content(content: &str) -> (r: Vec<String>)
    ensures
        r.deep_view() == split_plain(content@),
        r.deep_view().flatten() == content@,
        r.len() >= 1,
        forall|i: int|
            0 <= i < r.deep_view().len() ==> byte_len(#[trigger] r.deep_view()[i])
                <= CHUNK_TARGET_BYTES,
{
    proof {
        lemma_split_chunk_sizes(content@);
    }
    let n = content.unicode_len();
    let mut chunks: Vec<String> = Vec::new();
    let mut cur = String::new();
    let mut cur_bytes: usize = 0;
    if n == 0 {
        chunks.push(cur);
        proof {
            assert(chunks.deep_view() =~= split_plain(content@));
            lemma_split_assemble_round_trip(content@);
        }
        return chunks;
    }
    proof {
        assert(content@.subrange(0, n as int) =~= content@);
        assert(encode_utf8(Seq::<char>::empty()).len() == 0);
    }
    let mut i: usize = 0;
    while i < n
        invariant
            n == content@.len(),
            n > 0,
            i <= n,
            cur_bytes == byte_len(cur@),
            cur_bytes <= CHUNK_TARGET_BYTES,
            i == 0 ==> cur@.len() == 0 && chunks@.len() == 0,
            i > 0 ==> cur@.len() > 0,
            chunks.deep_view() + split_rec(content@.subrange(i as int, n as int), cur@)
                =~= split_rec(content@, Seq::empty()),
        decreases n - i,
    {
        let ghost rest = content@.subrange(i as int, n as int);
        let c = content.get_char(i);
        let cl = utf8_len(c);
        proof {
            broadcast use char_is_scalar;

            assert(rest[0] == content@[i as int]);
            assert(rest.drop_first() =~= content@.subrange(i + 1, n as int));
        }
        if cur_bytes + cl > CHUNK_TARGET_BYTES {
            let sealed = cur;
            cur = String::new();
            chunks.push(sealed);
            cur.push(c);
            cur_bytes = cl;
            proof {
                assert(cur@ =~= seq![c]);
                lemma_encode_utf8_push(Seq::empty(), c);
                assert(Seq::<char>::empty().push(c) =~= seq![c]);
                assert(encode_utf8(Seq::<char>::empty()) + encode_scalar(c as u32) =~= encode_scalar(
                    c as u32,
                ));
                assert(split_rec(rest, sealed@) == seq![sealed@] + split_rec(
                    rest.drop_first(),
                    seq![c],
                ));
                assert(chunks.deep_view() =~= chunks.deep_view().drop_last().push(sealed@));
                assert(chunks.deep_view().drop_last().push(sealed@) + split_rec(
                    rest.drop_first(),
                    seq![c],
                ) =~= chunks.deep_view().drop_last() + (seq![sealed@] + split_rec(
                    rest.drop_first(),
                    seq![c],
                )));
            }
        } else {
            proof {
                lemma_encode_utf8_push(cur@, c);
                assert(split_rec(rest, cur@) == split_rec(rest.drop_first(), cur@.push(c)));
            }
            cur.push(c);
            cur_bytes = cur_bytes + cl;
        }
        i = i + 1;
    }
    proof {
        assert(content@.subrange(n as int, n as int) =~= Seq::<char>::empty());
        assert(split_rec(Seq::<char>::empty(), cur@) == seq![cur@]);
    }
    chunks.push(cur);
    proof {
        assert(chunks.deep_view() =~= chunks.deep_view().drop_last() + seq![
            chunks.deep_view().last(),
        ]);
        assert(chunks.deep_view() =~= split_plain(content@));
        lemma_split_assemble_round_trip(content@);
    }
    chunks
}

/// A character allowed in the random part of a chunk identifier: a digit or
/// a lowercase ASCII letter.
pub open spec fn spec_chunk_id_char(c: char) -> bool {
    ||| '0' as u32 <= c as u32 && c as u32 <= '9' as u32
    ||| 'a' as u32 <= c as u32 && c as u32 <= 'z' as u32
}

/// A chunk identifier: `h:` followed by 13 lowercase alphanumerics.
pub open spec fn spec_is_chunk_id(s: Seq<char>) -> bool {
    &&& s.len() == 15
    &&& s[0] == 'h'
    &&& s[1] == ':'
    &&& forall|i: int| 2 <= i < 15 ==> spec_chunk_id_char(#[trigger] s[i])
}

/// Relies on rand::random_range for one index drawn below `n`; it panics on
/// an empty range, so `n` must be positive.
#[verifier::external_body]
fn rand_below(n: usize) -> (r: usize)
    requires
        1 <= n,
    ensures
        r < n,
{
    rand::random_range(0..n)
}

fn chunk_id_char(idx: usize) -> (c: char)
    requires
        idx < 36,
    ensures
        spec_chunk_id_char(c),
{
    if idx < 10 {
        (48 + idx as u8) as char
    } else {
        (97 + (idx - 10) as u8) as char
    }
}

/// A fresh random chunk identifier: `h:` and 13 random lowercase
/// alphanumerics. Identifiers are random; no call promises freshness.
pub fn generate_chunk_id() -> (r: String)
    ensures
        spec_is_chunk_id(r@),
{
    let mut id = String::new();
    id.push('h');
    id.push(':');
    let mut i: usize = 0;
    while i < 13
        invariant
            i <= 13,
            id@.len() == 2 + i,
            id@[0] == 'h',
            id@[1] == ':',
            forall|j: int| 2 <= j < id@.len() ==> spec_chunk_id_char(#[trigger] id@[j]),
        decreases 13 - i,
    {
        let idx = rand_below(36);
        id.push(chunk_id_char(idx));
        i = i + 1;
    }
    id
}

/// Concatenate chunk contents, in the order given, back into note content.
pub fn assemble_content(chunks: &Vec<String>) -> (r: String)
    ensures
        r@ == chunks.deep_view().flatten(),
{
    let mut out = String::new();
    let mut i: usize = 0;
    while i < chunks.len()
        invariant
            i <= chunks@.len(),
            out@ == chunks.deep_view().subrange(0, i as int).flatten(),
        decreases chunks@.len() - i,
    {
        proof {
            assert(chunks.deep_view().subrange(0, i as int).flatten() + chunks.deep_view()[i as int]
                =~= chunks.deep_view().subrange(0, i as int).push(
                chunks.deep_view()[i as int],
            ).flatten()) by {
                chunks.deep_view().subrange(0, i as int).lemma_flatten_push(
                    chunks.deep_view()[i as int],
                );
            }
            assert(chunks.deep_view().subrange(0, i as int).push(chunks.deep_view()[i as int])
                =~= chunks.deep_view().subrange(0, i + 1));
        }
        out.append(chunks[i].as_str());
        i = i + 1;
    }
    proof {
        assert(chunks.deep_view().subrange(0, chunks.deep_view().len() as int)
            =~= chunks.deep_view());
    }
    out
}

} // verus!
