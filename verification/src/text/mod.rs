//! Text addressed by UTF-8 byte offsets.
//!
//! A text is a sequence of characters. The editing widgets address it by byte
//! offsets, so this module relates the two: the width of a text in bytes, the
//! offsets on which a character starts, and the pieces on either side of such
//! an offset.

pub mod chars;
pub mod classes;
pub mod find;
pub mod grapheme;
pub mod index;
pub mod lines;
pub mod number;
pub mod split;
pub mod utf16;
pub mod words;

use vstd::prelude::*;
use vstd::utf8::*;

verus! {

/// Bytes that `c` takes in UTF-8.
pub open spec fn char_width(c: char) -> nat {
    if c as u32 <= 0x7f {
        1
    } else if c as u32 <= 0x7ff {
        2
    } else if c as u32 <= 0xffff {
        3
    } else {
        4
    }
}

/// Bytes that `s` takes in UTF-8.
pub open spec fn width(s: Seq<char>) -> nat
    decreases s.len(),
{
    if s.len() == 0 {
        0
    } else {
        width(s.drop_last()) + char_width(s.last())
    }
}

/// The byte offset at which the character with index `k` starts; for
/// `k == s.len()`, the end of the text.
pub open spec fn offset_of(s: Seq<char>, k: int) -> nat {
    width(s.take(k))
}

/// Whether byte offset `b` lies between two characters of `s`, or at an end.
pub open spec fn is_boundary(s: Seq<char>, b: int) -> bool {
    exists|k: int| 0 <= k <= s.len() && #[trigger] offset_of(s, k) == b
}

/// The number of characters before the boundary `b`.
pub open spec fn index_of(s: Seq<char>, b: int) -> int {
    choose|k: int| 0 <= k <= s.len() && #[trigger] offset_of(s, k) == b
}

/// The characters before the boundary `b`.
pub open spec fn before(s: Seq<char>, b: int) -> Seq<char> {
    s.take(index_of(s, b))
}

/// The characters from the boundary `b` on.
pub open spec fn after(s: Seq<char>, b: int) -> Seq<char> {
    s.skip(index_of(s, b))
}

/// The characters between the boundaries `a` and `b`.
pub open spec fn between(s: Seq<char>, a: int, b: int) -> Seq<char> {
    s.subrange(index_of(s, a), index_of(s, b))
}

/// The width of a text is the sum of the widths of its parts.
pub proof fn lemma_width_concat(a: Seq<char>, b: Seq<char>)
    ensures
        width(a + b) == width(a) + width(b),
    decreases b.len(),
{
    if b.len() == 0 {
        assert(a + b =~= a);
    } else {
        lemma_width_concat(a, b.drop_last());
        assert((a + b).drop_last() =~= a + b.drop_last());
    }
}

/// Offsets grow with the character index, by at least one byte per character.
pub proof fn lemma_offset_monotone(s: Seq<char>, j: int, k: int)
    requires
        0 <= j <= k <= s.len(),
    ensures
        offset_of(s, j) + (k - j) <= offset_of(s, k),
        offset_of(s, k) <= width(s),
    decreases k - j,
{
    assert(s.take(k) + s.skip(k) =~= s);
    lemma_width_concat(s.take(k), s.skip(k));
    if j < k {
        assert(s.take(k).drop_last() =~= s.take(k - 1));
        lemma_offset_monotone(s, j, k - 1);
    }
}

/// Stepping over one character advances the offset by its width.
pub proof fn lemma_offset_step(s: Seq<char>, k: int)
    requires
        0 <= k < s.len(),
    ensures
        offset_of(s, k + 1) == offset_of(s, k) + char_width(s[k]),
{
    assert(s.take(k + 1).drop_last() =~= s.take(k));
}

/// A character index is recovered from its offset.
pub proof fn lemma_index_of_offset(s: Seq<char>, k: int)
    requires
        0 <= k <= s.len(),
    ensures
        is_boundary(s, offset_of(s, k) as int),
        index_of(s, offset_of(s, k) as int) == k,
{
    let b = offset_of(s, k) as int;
    assert(is_boundary(s, b));
    let j = index_of(s, b);
    assert(0 <= j <= s.len() && offset_of(s, j) == b);
    if j < k {
        lemma_offset_monotone(s, j, k);
    } else if k < j {
        lemma_offset_monotone(s, k, j);
    }
}

/// What a boundary says of the text: the index before it, and the two parts.
pub proof fn lemma_boundary(s: Seq<char>, b: int)
    requires
        is_boundary(s, b),
    ensures
        0 <= index_of(s, b) <= s.len(),
        offset_of(s, index_of(s, b)) == b,
        0 <= b <= width(s),
        width(before(s, b)) == b,
        width(after(s, b)) == width(s) - b,
        before(s, b) + after(s, b) == s,
{
    let k = index_of(s, b);
    assert(0 <= k <= s.len() && offset_of(s, k) == b);
    lemma_offset_monotone(s, 0, k);
    assert(before(s, b) + after(s, b) =~= s);
    lemma_width_concat(before(s, b), after(s, b));
}

/// Boundaries are ordered as the character indices before them.
pub proof fn lemma_boundary_order(s: Seq<char>, a: int, b: int)
    requires
        is_boundary(s, a),
        is_boundary(s, b),
    ensures
        a <= b <==> index_of(s, a) <= index_of(s, b),
        a == b <==> index_of(s, a) == index_of(s, b),
        a <= b ==> width(between(s, a, b)) == b - a,
{
    lemma_boundary(s, a);
    lemma_boundary(s, b);
    let j = index_of(s, a);
    let k = index_of(s, b);
    if j <= k {
        lemma_offset_monotone(s, j, k);
        assert(s.take(k) =~= s.take(j) + s.subrange(j, k));
        lemma_width_concat(s.take(j), s.subrange(j, k));
    } else {
        lemma_offset_monotone(s, k, j);
    }
}

/// Both ends of a text are boundaries.
pub proof fn lemma_ends_are_boundaries(s: Seq<char>)
    ensures
        is_boundary(s, 0),
        is_boundary(s, width(s) as int),
        index_of(s, 0) == 0,
        index_of(s, width(s) as int) == s.len(),
{
    assert(s.take(0) =~= Seq::<char>::empty());
    assert(s.take(s.len() as int) =~= s);
    lemma_index_of_offset(s, 0);
    lemma_index_of_offset(s, s.len() as int);
}

/// In a concatenation, the seam is a boundary, and boundaries of the parts
/// carry over.
pub proof fn lemma_boundary_concat(a: Seq<char>, b: Seq<char>)
    ensures
        is_boundary(a + b, width(a) as int),
        index_of(a + b, width(a) as int) == a.len(),
        forall|i: int| #[trigger] is_boundary(a, i) ==> is_boundary(a + b, i),
        forall|i: int| #[trigger]
            is_boundary(b, i) ==> is_boundary(a + b, width(a) + i),
{
    let s = a + b;
    assert(s.take(a.len() as int) =~= a);
    lemma_index_of_offset(s, a.len() as int);
    assert forall|i: int| #[trigger] is_boundary(a, i) implies is_boundary(s, i) by {
        let k = index_of(a, i);
        lemma_boundary(a, i);
        assert(s.take(k) =~= a.take(k));
        assert(offset_of(s, k) == i);
    }
    assert forall|i: int| #[trigger] is_boundary(b, i) implies is_boundary(s, width(a) + i) by {
        let k = index_of(b, i);
        lemma_boundary(b, i);
        assert(s.take(a.len() + k) =~= a + b.take(k));
        lemma_width_concat(a, b.take(k));
        assert(offset_of(s, a.len() + k) == width(a) + i);
    }
}

/// A range of the first part of a concatenation is the same range of the
/// whole.
pub proof fn lemma_between_first(a: Seq<char>, b: Seq<char>, p: int, q: int)
    requires
        is_boundary(a, p),
        is_boundary(a, q),
        p <= q,
    ensures
        between(a + b, p, q) == between(a, p, q),
{
    let s = a + b;
    lemma_boundary(a, p);
    lemma_boundary(a, q);
    lemma_boundary_order(a, p, q);
    let j = index_of(a, p);
    let k = index_of(a, q);
    assert(s.take(j) =~= a.take(j));
    assert(s.take(k) =~= a.take(k));
    lemma_index_of_offset(s, j);
    lemma_index_of_offset(s, k);
    assert(between(s, p, q) =~= between(a, p, q));
}

/// A range of the second part of a concatenation is the range of the whole
/// moved by the first part.
pub proof fn lemma_between_second(a: Seq<char>, b: Seq<char>, p: int, q: int)
    requires
        is_boundary(b, p),
        is_boundary(b, q),
        p <= q,
    ensures
        between(a + b, width(a) + p, width(a) + q) == between(b, p, q),
{
    let s = a + b;
    lemma_boundary(b, p);
    lemma_boundary(b, q);
    lemma_boundary_order(b, p, q);
    let j = index_of(b, p);
    let k = index_of(b, q);
    assert(s.take(a.len() + j) =~= a + b.take(j));
    assert(s.take(a.len() + k) =~= a + b.take(k));
    lemma_width_concat(a, b.take(j));
    lemma_width_concat(a, b.take(k));
    lemma_index_of_offset(s, a.len() + j);
    lemma_index_of_offset(s, a.len() + k);
    assert(between(s, width(a) + p, width(a) + q) =~= between(b, p, q));
}

/// The encoding of a concatenation is the concatenation of the encodings.
pub proof fn lemma_encode_concat(a: Seq<char>, b: Seq<char>)
    ensures
        encode_utf8(a + b) == encode_utf8(a) + encode_utf8(b),
    decreases a.len(),
{
    if a.len() == 0 {
        assert(a + b =~= b);
        assert(encode_utf8(a) + encode_utf8(b) =~= encode_utf8(b));
    } else {
        assert((a + b).drop_first() =~= a.drop_first() + b);
        lemma_encode_concat(a.drop_first(), b);
        assert(encode_utf8(a + b) =~= encode_utf8(a) + encode_utf8(b));
    }
}

/// The width of a text is the length of its encoding.
pub proof fn lemma_width_is_encoded_len(s: Seq<char>)
    ensures
        encode_utf8(s).len() == width(s),
    decreases s.len(),
{
    if s.len() > 0 {
        let c = s.last();
        assert(s =~= s.drop_last() + seq![c]);
        lemma_encode_concat(s.drop_last(), seq![c]);
        lemma_width_is_encoded_len(s.drop_last());
        assert(seq![c].drop_first() =~= Seq::<char>::empty());
        char_is_scalar(c);
        assert(encode_utf8(seq![c]) =~= encode_scalar(c as u32)) by {
            reveal_with_fuel(encode_utf8, 2);
        }
    }
}

/// Offsets on character boundaries of the encoding are the boundaries of the
/// text.
pub proof fn lemma_boundary_is_encoded_boundary(s: Seq<char>, b: int)
    ensures
        is_char_boundary(encode_utf8(s), b) <==> is_boundary(s, b),
    decreases s.len(),
{
    let bytes = encode_utf8(s);
    encode_utf8_valid_utf8(s);
    lemma_ends_are_boundaries(s);
    lemma_width_is_encoded_len(s);
    if b == 0 {
    } else if b < 0 || bytes.len() < b {
        if is_boundary(s, b) {
            lemma_boundary(s, b);
        }
    } else {
        let rest = s.drop_first();
        let head = seq![s[0]];
        encode_utf8_first_scalar(s);
        assert(pop_first_scalar(bytes) =~= encode_utf8(rest));
        lemma_boundary_is_encoded_boundary(rest, b - length_of_first_scalar(bytes));
        assert(s =~= head + rest);
        lemma_width_concat(head, rest);
        lemma_width_is_encoded_len(rest);
        lemma_boundary_concat(head, rest);
        if is_boundary(s, b) {
            let k = index_of(s, b);
            lemma_boundary(s, b);
            if k == 0 {
                assert(s.take(0) =~= Seq::<char>::empty());
            }
            assert(s.take(k) =~= head + rest.take(k - 1));
            lemma_width_concat(head, rest.take(k - 1));
            assert(offset_of(rest, k - 1) == b - width(head));
        }
    }
}

/// Two texts with the same encoding are the same text.
pub proof fn lemma_encode_injective(a: Seq<char>, b: Seq<char>)
    requires
        encode_utf8(a) == encode_utf8(b),
    ensures
        a == b,
{
    encode_utf8_decode_utf8(a);
    encode_utf8_decode_utf8(b);
}

/// The width of `s` in bytes.
pub fn byte_len(s: &str) -> (n: usize)
    ensures
        n == width(s@),
{
    proof {
        lemma_width_is_encoded_len(s@);
    }
    s.as_bytes().len()
}

/// Whether `at` is a boundary of `s`.
pub fn boundary(s: &str, at: usize) -> (r: bool)
    ensures
        r == is_boundary(s@, at as int),
{
    proof {
        lemma_boundary_is_encoded_boundary(s@, at as int);
    }
    s.is_char_boundary(at)
}

/// The text on either side of the boundary `at`.
pub fn split(s: &str, at: usize) -> (r: (&str, &str))
    requires
        is_boundary(s@, at as int),
    ensures
        r.0@ == before(s@, at as int),
        r.1@ == after(s@, at as int),
{
    proof {
        lemma_boundary_is_encoded_boundary(s@, at as int);
        lemma_boundary(s@, at as int);
        lemma_encode_concat(before(s@, at as int), after(s@, at as int));
        lemma_width_is_encoded_len(before(s@, at as int));
    }
    let r = s.split_at(at);
    proof {
        let x = before(s@, at as int);
        let y = after(s@, at as int);
        assert(encode_utf8(r.0@) =~= encode_utf8(x));
        assert(encode_utf8(r.1@) =~= encode_utf8(y));
        lemma_encode_injective(r.0@, x);
        lemma_encode_injective(r.1@, y);
    }
    r
}

/// The text between the boundaries `from` and `to`.
pub fn slice(s: &str, from: usize, to: usize) -> (r: &str)
    requires
        from <= to,
        is_boundary(s@, from as int),
        is_boundary(s@, to as int),
    ensures
        r@ == between(s@, from as int, to as int),
{
    let head = split(s, to).0;
    proof {
        lemma_boundary(s@, from as int);
        lemma_boundary(s@, to as int);
        lemma_boundary_order(s@, from as int, to as int);
        let k = index_of(s@, from as int);
        assert(head@.take(k) =~= s@.take(k));
        assert(offset_of(head@, k) == from);
        lemma_index_of_offset(head@, k);
    }
    let r = split(head, from).1;
    assert(r@ =~= between(s@, from as int, to as int));
    r
}

/// A text in three parts is cut where its parts meet.
pub proof fn parts_are_cut_where_they_meet(x: Seq<char>, m: Seq<char>, y: Seq<char>)
    ensures
        ({
            let s = x + m + y;
            let (a, b) = (width(x) as int, width(x + m) as int);
            &&& b == width(x) + width(m)
            &&& width(s) == width(x) + width(m) + width(y)
            &&& is_boundary(s, a) && is_boundary(s, b)
            &&& index_of(s, a) == x.len() && index_of(s, b) == x.len() + m.len()
            &&& before(s, a) == x && after(s, b) == y && between(s, a, b) == m
            &&& before(s, b) == x + m && after(s, a) == m + y
        }),
{
    let s = x + m + y;
    lemma_width_concat(x, m);
    lemma_width_concat(x + m, y);
    assert(s.take(x.len() as int) =~= x);
    assert(s.take((x + m).len() as int) =~= x + m);
    lemma_index_of_offset(s, x.len() as int);
    lemma_index_of_offset(s, (x + m).len() as int);
    assert(s.skip((x + m).len() as int) =~= y);
    assert(s.skip(x.len() as int) =~= m + y);
    assert(s.subrange(x.len() as int, (x + m).len() as int) =~= m);
}

/// The width of a text is that of its characters, from one to four bytes each: one up to
/// the end of ASCII, two up to 0x7ff, three up to 0xffff.
pub proof fn widths_are_those_of_the_characters(s: Seq<char>, c: char)
    ensures
        width(seq![]) == 0,
        c <= '\u{7F}' ==> width(s.push(c)) == width(s) + 1,
        '\u{7F}' < c <= '\u{7FF}' ==> width(s.push(c)) == width(s) + 2,
        '\u{7FF}' < c <= '\u{FFFF}' ==> width(s.push(c)) == width(s) + 3,
        c > '\u{FFFF}' ==> width(s.push(c)) == width(s) + 4,
{
    assert(s.push(c).drop_last() =~= s);
}

} // verus!
