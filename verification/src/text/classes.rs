//! Unicode character classes.

use vstd::prelude::*;

verus! {

/// Whether `c` is an ASCII letter or digit.
pub open spec fn ascii_alphanumeric(c: char) -> bool {
    ('0' <= c && c <= '9') || ('A' <= c && c <= 'Z') || ('a' <= c && c <= 'z')
}

/// What `char::is_alphanumeric` answers for a character outside ASCII.
pub uninterp spec fn unicode_alphanumeric(c: char) -> bool;

/// Whether `c` is a letter or a digit.
pub open spec fn alphanumeric(c: char) -> bool {
    if (c as u32) < 0x80 {
        ascii_alphanumeric(c)
    } else {
        unicode_alphanumeric(c)
    }
}

/// Whether `c` has the Unicode property `White_Space`.
pub open spec fn whitespace(c: char) -> bool {
    ||| '\u{9}' <= c && c <= '\u{D}'
    ||| c == '\u{20}' || c == '\u{85}' || c == '\u{A0}' || c == '\u{1680}'
    ||| '\u{2000}' <= c && c <= '\u{200A}'
    ||| c == '\u{2028}' || c == '\u{2029}' || c == '\u{202F}' || c == '\u{205F}'
    ||| c == '\u{3000}'
}

/// `char::is_alphanumeric`: whether `c` has the property `Alphabetic` or is a
/// number by its general category. Of ASCII these are the letters and the
/// digits. The answer depends on `c` alone.
#[verifier::external_body]
pub(crate) fn is_alphanumeric(c: char) -> (r: bool)
    ensures
        (c as u32) < 0x80 ==> r == ascii_alphanumeric(c),
        (c as u32) >= 0x80 ==> r == unicode_alphanumeric(c),
{
    c.is_alphanumeric()
}

/// Whether `c` has the Unicode property `White_Space`.
pub fn is_whitespace(c: char) -> (r: bool)
    ensures
        r == whitespace(c),
{
    ('\u{9}' <= c && c <= '\u{D}') || c == '\u{20}' || c == '\u{85}' || c == '\u{A0}'
        || c == '\u{1680}' || ('\u{2000}' <= c && c <= '\u{200A}') || c == '\u{2028}'
        || c == '\u{2029}' || c == '\u{202F}' || c == '\u{205F}' || c == '\u{3000}'
}

/// Whether `c` belongs to a word: a letter, a digit or an underscore.
pub open spec fn word_char(c: char) -> bool {
    alphanumeric(c) || c == '_'
}

/// Whether `c` belongs to a word.
pub fn is_word_char(c: char) -> (r: bool)
    ensures
        r == word_char(c),
{
    is_alphanumeric(c) || c == '_'
}

/// Whether `s` holds white space alone.
pub open spec fn blank(s: Seq<char>) -> bool {
    forall|i: int| 0 <= i < s.len() ==> whitespace(#[trigger] s[i])
}

/// Whether nothing is left of `s` once white space is trimmed off.
pub fn is_blank(s: &str) -> (r: bool)
    ensures
        r == blank(s@),
{
    let v = super::chars::to_chars(s);
    let mut i: usize = 0;
    while i < v.len()
        invariant
            v@ == s@,
            i <= v@.len(),
            forall|j: int| 0 <= j < i ==> whitespace(#[trigger] s@[j]),
        decreases v@.len() - i,
    {
        if !is_whitespace(v[i]) {
            return false;
        }
        i = i + 1;
    }
    true
}

/// The index past the last character of `s` that is not white space.
pub open spec fn trimmed_end(s: Seq<char>) -> int
    decreases s.len(),
{
    if s.len() == 0 || !whitespace(s.last()) {
        s.len() as int
    } else {
        trimmed_end(s.drop_last())
    }
}

/// The index of the first character of `s` that is not white space.
pub open spec fn trimmed_start(s: Seq<char>) -> int
    decreases s.len(),
{
    if s.len() == 0 || !whitespace(s[0]) {
        0
    } else {
        1 + trimmed_start(s.drop_first())
    }
}

/// `s` without the white space at its ends.
pub open spec fn trimmed(s: Seq<char>) -> Seq<char> {
    let head = s.take(trimmed_end(s));
    head.skip(trimmed_start(head))
}

/// Only white space follows [`trimmed_end`], and none stands before it.
pub proof fn lemma_trimmed_end(s: Seq<char>)
    ensures
        0 <= trimmed_end(s) <= s.len(),
        trimmed_end(s) > 0 ==> !whitespace(s[trimmed_end(s) - 1]),
        trimmed_end(s.take(trimmed_end(s))) == trimmed_end(s),
    decreases s.len(),
{
    if s.len() == 0 || !whitespace(s.last()) {
        assert(s.take(s.len() as int) =~= s);
    } else {
        lemma_trimmed_end(s.drop_last());
        let e = trimmed_end(s);
        assert(s.drop_last().take(e) =~= s.take(e));
    }
}

/// The index past the last character that is not white space.
pub fn end_of_trimmed(v: &Vec<char>) -> (end: usize)
    ensures
        end == trimmed_end(v@),
        end <= v@.len(),
{
    let mut end: usize = v.len();
    assert(v@.take(end as int) =~= v@);
    while end > 0 && is_whitespace(v[end - 1])
        invariant
            end <= v@.len(),
            trimmed_end(v@.take(end as int)) == trimmed_end(v@),
        decreases end,
    {
        assert(v@.take(end as int).drop_last() =~= v@.take(end - 1));
        end = end - 1;
    }
    assert(trimmed_end(v@.take(end as int)) == end) by {
        if end > 0 {
            assert(v@.take(end as int).last() == v@[end - 1]);
        }
    }
    end
}

/// `s` without the white space at its ends.
pub fn trim(s: &str) -> (r: String)
    ensures
        r@ == trimmed(s@),
{
    let v = super::chars::to_chars(s);
    let end: usize = end_of_trimmed(&v);
    proof {
        lemma_trimmed_end(v@);
    }
    let ghost head = v@.take(end as int);
    let mut start: usize = 0;
    assert(head.skip(0) =~= head);
    while start < end && is_whitespace(v[start])
        invariant
            start <= end <= v@.len(),
            head == v@.take(end as int),
            trimmed_start(head) == start + trimmed_start(head.skip(start as int)),
        decreases end - start,
    {
        assert(head.skip(start as int)[0] == v@[start as int]);
        assert(head.skip(start as int).drop_first() =~= head.skip(start + 1));
        start = start + 1;
    }
    assert(trimmed_start(head.skip(start as int)) == 0) by {
        if start < end {
            assert(head.skip(start as int)[0] == v@[start as int]);
        }
    }
    let r = super::chars::from_chars(&v, start, end);
    assert(r@ =~= trimmed(s@));
    r
}

/// What counts as white space: the blank and the five characters that move the
/// cursor, and beyond ASCII the spaces and separators of Unicode. No letter,
/// digit or sign is white space, nor is a zero-width character.
pub proof fn spaces_are_white(c: char)
    ensures
        c == ' ' || c == '\t' || c == '\n' || c == '\r' || c == '\u{B}' || c == '\u{C}'
            ==> whitespace(c),
        c < '\t' || '\r' < c < ' ' || ' ' < c < '\u{85}' ==> !whitespace(c),
        c == '\u{85}' || c == '\u{A0}' || c == '\u{1680}' || c == '\u{2028}' || c == '\u{2029}'
            || c == '\u{202F}' || c == '\u{205F}' || c == '\u{3000}' ==> whitespace(c),
        '\u{2000}' <= c <= '\u{200A}' ==> whitespace(c),
        '\u{A0}' < c < '\u{1680}' || '\u{1680}' < c < '\u{2000}' || '\u{200A}' < c < '\u{2028}'
            || '\u{2029}' < c < '\u{202F}' || '\u{205F}' < c < '\u{3000}' || c > '\u{3000}'
            ==> !whitespace(c),
{
}

/// Words are made of letters, digits and the underscore.
pub proof fn words_are_letters_and_digits(c: char)
    ensures
        'a' <= c <= 'z' || 'A' <= c <= 'Z' || '0' <= c <= '9' || c == '_' ==> word_char(c),
        c < '0' || '9' < c < 'A' || 'Z' < c < '_' || '_' < c < 'a' || 'z' < c <= '\u{7F}'
            ==> !word_char(c),
        c > '\u{7F}' ==> (word_char(c) <==> unicode_alphanumeric(c)),
{
}

/// Behind [`trimmed_end`] there is only white space, and none just before it.
pub proof fn lemma_white_ends(s: Seq<char>)
    ensures
        0 <= trimmed_end(s) <= s.len(),
        forall|i: int| trimmed_end(s) <= i < s.len() ==> whitespace(#[trigger] s[i]),
        trimmed_end(s) > 0 ==> !whitespace(s[trimmed_end(s) - 1]),
    decreases s.len(),
{
    if s.len() > 0 && whitespace(s.last()) {
        let t = s.drop_last();
        lemma_white_ends(t);
        assert forall|i: int| trimmed_end(s) <= i < s.len() implies whitespace(#[trigger] s[i]) by {
            if i < t.len() {
                assert(t[i] == s[i]);
            }
        }
    }
}

proof fn lemma_white_starts(s: Seq<char>)
    ensures
        0 <= trimmed_start(s) <= s.len(),
        forall|i: int| 0 <= i < trimmed_start(s) ==> whitespace(#[trigger] s[i]),
        trimmed_start(s) < s.len() ==> !whitespace(s[trimmed_start(s)]),
    decreases s.len(),
{
    if s.len() > 0 && whitespace(s[0]) {
        let t = s.drop_first();
        lemma_white_starts(t);
        assert forall|i: int| 0 <= i < trimmed_start(s) implies whitespace(#[trigger] s[i]) by {
            if i > 0 {
                assert(t[i - 1] == s[i]);
            }
        }
    }
}

/// Trimming takes white space from both ends, all of it and nothing else: what is
/// left lies between two runs of white space, and neither begins nor ends with
/// any.
pub proof fn trimming_takes_the_white_ends(s: Seq<char>)
    ensures
        exists|a: Seq<char>, b: Seq<char>|
            s == #[trigger] (a + trimmed(s) + b) && (forall|i: int|
                0 <= i < a.len() ==> whitespace(#[trigger] a[i])) && (forall|i: int|
                0 <= i < b.len() ==> whitespace(#[trigger] b[i])),
        trimmed(s).len() > 0 ==> !whitespace(trimmed(s)[0]) && !whitespace(trimmed(s).last()),
{
    let e = trimmed_end(s);
    let head = s.take(e);
    lemma_white_ends(s);
    lemma_white_starts(head);
    let k = trimmed_start(head);
    let a = s.take(k);
    let b = s.skip(e);
    assert forall|i: int| 0 <= i < a.len() implies whitespace(#[trigger] a[i]) by {
        assert(head[i] == a[i]);
    }
    assert forall|i: int| 0 <= i < b.len() implies whitespace(#[trigger] b[i]) by {
        assert(s[e + i] == b[i]);
    }
    assert(s =~= a + trimmed(s) + b);
    if trimmed(s).len() > 0 {
        assert(trimmed(s).last() == s[e - 1]);
    }
}

/// A text is blank if and only if nothing is left of it when it is trimmed.
pub proof fn blank_texts_are_trimmed_away(s: Seq<char>)
    ensures
        blank(s) <==> trimmed(s).len() == 0,
        blank(seq![]),
        blank(s) ==> forall|i: int| 0 <= i < s.len() ==> whitespace(#[trigger] s[i]),
{
    trimming_takes_the_white_ends(s);
    let t = trimmed(s);
    let (a, b) = choose|a: Seq<char>, b: Seq<char>|
        s == #[trigger] (a + t + b) && (forall|i: int|
            0 <= i < a.len() ==> whitespace(#[trigger] a[i])) && (forall|i: int|
            0 <= i < b.len() ==> whitespace(#[trigger] b[i]));
    if t.len() > 0 {
        assert(s[a.len() as int] == t[0]);
    } else {
        assert forall|i: int| 0 <= i < s.len() implies whitespace(#[trigger] s[i]) by {
            if i < a.len() {
                assert(a[i] == s[i]);
            } else {
                assert(b[i - a.len()] == s[i]);
            }
        }
    }
}

} // verus!
