//! UTF-16 offsets, as the platform's text input services use them.

use vstd::prelude::*;

use crate::text;
use crate::text::chars;
use crate::text::index;

verus! {

/// UTF-16 code units that `c` takes.
pub open spec fn char_units(c: char) -> nat {
    if c as u32 >= 0x10000 {
        2
    } else {
        1
    }
}

/// UTF-16 code units that `s` takes.
pub open spec fn units(s: Seq<char>) -> nat
    decreases s.len(),
{
    if s.len() == 0 {
        0
    } else {
        units(s.drop_last()) + char_units(s.last())
    }
}

/// How many characters of `s` it takes to reach code unit `n`: all of them
/// when the text is shorter.
pub open spec fn covering_units(s: Seq<char>, n: int) -> int
    decreases s.len(),
{
    if s.len() == 0 || units(s.drop_last()) < n {
        s.len() as int
    } else {
        covering_units(s.drop_last(), n)
    }
}

/// The byte offset that code unit `n` of `s` stands for.
pub open spec fn from_units(s: Seq<char>, n: int) -> nat {
    text::offset_of(s, covering_units(s, n))
}

/// The code unit that byte offset `b` of `s` stands for.
pub open spec fn to_units(s: Seq<char>, b: int) -> nat {
    units(s.take(index::covering(s, b)))
}

/// Code units grow with the character index, and never exceed the bytes.
pub proof fn lemma_units_monotone(s: Seq<char>, j: int, k: int)
    requires
        0 <= j <= k <= s.len(),
    ensures
        units(s.take(j)) + (k - j) <= units(s.take(k)),
        units(s.take(k)) <= text::offset_of(s, k),
    decreases k,
{
    if k == 0 {
        assert(s.take(0) =~= Seq::<char>::empty());
    } else {
        assert(s.take(k).drop_last() =~= s.take(k - 1));
        if j < k {
            lemma_units_monotone(s, j, k - 1);
        } else {
            lemma_units_monotone(s, k - 1, k - 1);
        }
    }
}

/// The characters that reach code unit `n` are the least that do.
pub proof fn lemma_covering_units_least(s: Seq<char>, n: int)
    ensures
        0 <= covering_units(s, n) <= s.len(),
        covering_units(s, n) == s.len() || units(s.take(covering_units(s, n))) >= n,
        forall|j: int| 0 <= j < covering_units(s, n) ==> units(#[trigger] s.take(j)) < n,
    decreases s.len(),
{
    if s.len() > 0 {
        let t = s.drop_last();
        assert(t =~= s.take(s.len() - 1));
        if units(t) < n {
            assert forall|j: int| 0 <= j < s.len() implies units(#[trigger] s.take(j)) < n by {
                lemma_units_monotone(s, j, s.len() - 1);
            }
        } else {
            lemma_covering_units_least(t, n);
            assert forall|j: int| 0 <= j <= t.len() implies #[trigger] s.take(j) == t.take(j) by {
                assert(t.take(j) =~= s.take(j));
            }
        }
    }
}

/// The least index that reaches code unit `n` is [`covering_units`].
pub proof fn lemma_covering_units_unique(s: Seq<char>, n: int, k: int)
    requires
        0 <= k <= s.len(),
        k == s.len() || units(s.take(k)) >= n,
        forall|j: int| 0 <= j < k ==> units(#[trigger] s.take(j)) < n,
    ensures
        covering_units(s, n) == k,
{
    lemma_covering_units_least(s, n);
    let c = covering_units(s, n);
    if c < k {
        assert(units(s.take(c)) < n);
    } else if k < c {
        assert(units(s.take(k)) < n);
    }
}

/// The code unit offset of the character with index `k` leads back to `k`.
pub proof fn lemma_covering_units_at(s: Seq<char>, k: int)
    requires
        0 <= k <= s.len(),
    ensures
        covering_units(s, units(s.take(k)) as int) == k,
{
    let n = units(s.take(k)) as int;
    assert forall|j: int| 0 <= j < k implies units(#[trigger] s.take(j)) < n by {
        lemma_units_monotone(s, j, k);
    }
    lemma_covering_units_unique(s, n, k);
}

/// Converting a boundary to UTF-16 and back gives the boundary again.
pub proof fn utf16_round_trip(s: Seq<char>, b: int)
    requires
        text::is_boundary(s, b),
    ensures
        from_units(s, to_units(s, b) as int) == b,
{
    text::lemma_boundary(s, b);
    index::lemma_covering_boundary(s, b);
    lemma_covering_units_at(s, text::index_of(s, b));
}

/// Converting the code unit at which a character starts to bytes and back
/// gives that code unit again.
pub proof fn utf16_round_trip_from_units(s: Seq<char>, k: int)
    requires
        0 <= k <= s.len(),
    ensures
        to_units(s, from_units(s, units(s.take(k)) as int) as int) == units(s.take(k)),
{
    lemma_covering_units_at(s, k);
    text::lemma_index_of_offset(s, k);
    index::lemma_covering_boundary(s, text::offset_of(s, k) as int);
}

/// Every UTF-16 offset, also one inside a surrogate pair or past the end, is
/// turned into a boundary of the text.
pub proof fn from_units_is_boundary(s: Seq<char>, n: int)
    ensures
        text::is_boundary(s, from_units(s, n) as int),
        from_units(s, n) <= text::width(s),
        text::index_of(s, from_units(s, n) as int) == covering_units(s, n),
{
    lemma_covering_units_least(s, n);
    text::lemma_index_of_offset(s, covering_units(s, n));
    text::lemma_offset_monotone(s, covering_units(s, n), s.len() as int);
}

/// Larger UTF-16 offsets stand for no smaller byte offsets.
pub proof fn from_units_monotone(s: Seq<char>, m: int, n: int)
    requires
        m <= n,
    ensures
        from_units(s, m) <= from_units(s, n),
{
    lemma_covering_units_least(s, m);
    lemma_covering_units_least(s, n);
    let a = covering_units(s, m);
    let b = covering_units(s, n);
    if b < a {
        assert(units(s.take(b)) < m);
    }
    text::lemma_offset_monotone(s, a, b);
}

/// The code units of `c`.
pub fn char_utf16_len(c: char) -> (n: usize)
    ensures
        n == char_units(c),
{
    if c as u32 >= 0x10000 {
        2
    } else {
        1
    }
}

/// The byte offset that UTF-16 offset `offset` of `text` stands for.
pub fn byte_offset_from_utf16_in_text(text: &str, offset: usize) -> (r: usize)
    ensures
        r == from_units(text@, offset as int),
        text::is_boundary(text@, r as int),
{
    let v = chars::to_chars(text);
    let total: usize = text::byte_len(text);
    let mut k: usize = 0;
    let mut bytes: usize = 0;
    let mut seen: usize = 0;
    assert(v@.take(0) =~= Seq::<char>::empty());
    while k < v.len() && seen < offset
        invariant
            k <= v@.len(),
            text::width(v@) == total,
            bytes == text::offset_of(v@, k as int),
            seen == units(v@.take(k as int)),
            forall|j: int| 0 <= j < k ==> units(#[trigger] v@.take(j)) < offset,
        decreases v@.len() - k,
    {
        proof {
            text::lemma_offset_step(v@, k as int);
            text::lemma_offset_monotone(v@, k + 1, v@.len() as int);
            lemma_units_monotone(v@, k as int, k + 1);
            assert(v@.take(k + 1).drop_last() =~= v@.take(k as int));
        }
        seen = seen + char_utf16_len(v[k]);
        bytes = bytes + index::char_len(v[k]);
        k = k + 1;
    }
    proof {
        lemma_covering_units_unique(v@, offset as int, k as int);
        from_units_is_boundary(v@, offset as int);
    }
    bytes
}

/// The byte range that a UTF-16 range of `text` stands for.
pub fn byte_range_from_utf16_in_text(text: &str, range_utf16: &core::ops::Range<usize>) -> (r:
    core::ops::Range<usize>)
    ensures
        r.start == from_units(text@, range_utf16.start as int),
        r.end == from_units(text@, range_utf16.end as int),
        range_utf16.start <= range_utf16.end ==> r.start <= r.end,
{
    let start: usize = byte_offset_from_utf16_in_text(text, range_utf16.start);
    let end: usize = byte_offset_from_utf16_in_text(text, range_utf16.end);
    proof {
        if range_utf16.start <= range_utf16.end {
            from_units_monotone(text@, range_utf16.start as int, range_utf16.end as int);
        }
    }
    start..end
}

/// The UTF-16 offset that byte offset `offset` of `text` stands for.
pub fn utf16_offset_in_text(text: &str, offset: usize) -> (r: usize)
    ensures
        r == to_units(text@, offset as int),
{
    let v = chars::to_chars(text);
    let total: usize = text::byte_len(text);
    let k: usize = index::index_reaching(&v, offset);
    let mut i: usize = 0;
    let mut seen: usize = 0;
    assert(v@.take(0) =~= Seq::<char>::empty());
    while i < k
        invariant
            i <= k <= v@.len(),
            text::width(v@) == total,
            seen == units(v@.take(i as int)),
        decreases k - i,
    {
        proof {
            lemma_units_monotone(v@, i as int, i + 1);
            text::lemma_offset_monotone(v@, i + 1, v@.len() as int);
            assert(v@.take(i + 1).drop_last() =~= v@.take(i as int));
        }
        seen = seen + char_utf16_len(v[i]);
        i = i + 1;
    }
    seen
}

/// The length of `text` in UTF-16 code units.
pub fn utf16_len(text: &str) -> (r: usize)
    ensures
        r == units(text@),
{
    let n: usize = text::byte_len(text);
    proof {
        text::lemma_ends_are_boundaries(text@);
        index::lemma_covering_boundary(text@, n as int);
        assert(text@.take(text@.len() as int) =~= text@);
    }
    utf16_offset_in_text(text, n)
}

/// A character of the basic plane takes one unit, any other one two, and the units
/// of a text are those of its characters.
pub proof fn units_are_those_of_the_characters(s: Seq<char>, c: char)
    ensures
        units(seq![]) == 0,
        c <= '\u{FFFF}' ==> units(s.push(c)) == units(s) + 1,
        c > '\u{FFFF}' ==> units(s.push(c)) == units(s) + 2,
{
    assert(s.push(c).drop_last() =~= s);
}

/// A UTF-16 offset inside a character leads behind it, and one past the end to the
/// end.
pub proof fn offsets_inside_lead_behind(s: Seq<char>, k: int, n: int)
    requires
        0 <= k <= s.len(),
    ensures
        k < s.len() && units(s.take(k)) < n <= units(s.take(k + 1)) ==> from_units(s, n)
            == text::offset_of(s, k + 1),
        n >= units(s) ==> from_units(s, n) == text::width(s),
        n <= 0 ==> from_units(s, n) == 0,
{
    assert(s.take(s.len() as int) =~= s);
    if k < s.len() && units(s.take(k)) < n <= units(s.take(k + 1)) {
        assert forall|j: int| 0 <= j < k + 1 implies units(#[trigger] s.take(j)) < n by {
            if j < k {
                lemma_units_monotone(s, j, k);
            }
        }
        lemma_covering_units_unique(s, n, k + 1);
    }
    if n >= units(s) {
        assert forall|j: int| 0 <= j < s.len() implies units(#[trigger] s.take(j)) < n by {
            lemma_units_monotone(s, j, s.len() as int);
        }
        lemma_covering_units_unique(s, n, s.len() as int);
    }
    if n <= 0 {
        lemma_covering_units_unique(s, n, 0);
        assert(s.take(0) =~= seq![]);
    }
}

/// A byte offset is turned into the units before it; one inside a character counts
/// that character, and one past the end the whole text.
pub proof fn bytes_are_counted_in_units(s: Seq<char>, k: int, b: int)
    requires
        0 <= k <= s.len(),
    ensures
        to_units(s, text::offset_of(s, k) as int) == units(s.take(k)),
        k < s.len() && text::offset_of(s, k) < b <= text::offset_of(s, k + 1) ==> to_units(s, b)
            == units(s.take(k + 1)),
        b >= text::width(s) ==> to_units(s, b) == units(s),
{
    assert(s.take(s.len() as int) =~= s);
    text::lemma_index_of_offset(s, k);
    index::lemma_covering_boundary(s, text::offset_of(s, k) as int);
    if k < s.len() && text::offset_of(s, k) < b <= text::offset_of(s, k + 1) {
        assert forall|j: int| 0 <= j < k + 1 implies #[trigger] text::offset_of(s, j) < b by {
            text::lemma_offset_monotone(s, j, k);
        }
        index::lemma_covering_unique(s, b, k + 1);
    }
    if b >= text::width(s) {
        assert forall|j: int| 0 <= j < s.len() implies #[trigger] text::offset_of(s, j) < b by {
            text::lemma_offset_monotone(s, j, s.len() as int);
        }
        index::lemma_covering_unique(s, b, s.len() as int);
    }
}

} // verus!
