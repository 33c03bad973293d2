//! Finding a text inside another.

use vstd::prelude::*;

use crate::text::chars;

verus! {

/// The index of the first occurrence of `needle` in `s` from `k` on, or the
/// length of `s` when there is none.
pub open spec fn first_at(s: Seq<char>, needle: Seq<char>, k: int) -> int
    decreases s.len() - k,
{
    if k >= s.len() {
        s.len() as int
    } else if chars::occurs_at(s, needle, k) {
        k
    } else {
        first_at(s, needle, k + 1)
    }
}

/// The text before and after the first occurrence of `needle`.
pub open spec fn cut(s: Seq<char>, needle: Seq<char>) -> Option<(Seq<char>, Seq<char>)> {
    let i = first_at(s, needle, 0);
    if i < s.len() {
        Some((s.take(i), s.skip(i + needle.len())))
    } else {
        None
    }
}

/// [`first_at`] finds an occurrence, and none stands before it.
pub proof fn lemma_first_at(s: Seq<char>, needle: Seq<char>, k: int)
    requires
        0 <= k <= s.len(),
        needle.len() > 0,
    ensures
        k <= first_at(s, needle, k) <= s.len(),
        first_at(s, needle, k) < s.len() ==> chars::occurs_at(s, needle, first_at(s, needle, k)),
        forall|j: int| k <= j < first_at(s, needle, k) ==> !chars::occurs_at(s, needle, j),
        first_at(s, needle, k) == s.len() ==> forall|j: int|
            k <= j ==> !chars::occurs_at(s, needle, j),
    decreases s.len() - k,
{
    if k < s.len() && !chars::occurs_at(s, needle, k) {
        lemma_first_at(s, needle, k + 1);
    }
}

/// The text before and after the first occurrence of `needle` in `s`.
pub fn split_once(s: &str, needle: &str) -> (r: Option<(String, String)>)
    requires
        needle@.len() > 0,
    ensures
        match r {
            Some(p) => cut(s@, needle@) == Some((p.0@, p.1@)),
            None => cut(s@, needle@) is None,
        },
{
    let v = chars::to_chars(s);
    let n = chars::to_chars(needle);
    let mut i: usize = 0;
    while i < v.len() && !chars::matches_at(&v, &n, i)
        invariant
            v@ == s@,
            n@ == needle@,
            i <= v@.len(),
            first_at(s@, needle@, i as int) == first_at(s@, needle@, 0),
        decreases v@.len() - i,
    {
        i = i + 1;
    }
    if i == v.len() {
        return None;
    }
    let head = chars::from_chars(&v, 0, i);
    let tail = chars::from_chars(&v, i + n.len(), v.len());
    proof {
        assert(head@ =~= s@.take(i as int));
        assert(tail@ =~= s@.skip(i + needle@.len()));
    }
    Some((head, tail))
}

/// A text with `needle` in it is cut, and one without is not; the pieces with
/// `needle` between them make up the text.
pub proof fn cutting_loses_nothing(s: Seq<char>, needle: Seq<char>)
    requires
        needle.len() > 0,
    ensures
        cut(s, needle) is Some <==> chars::occurs(s, needle),
        cut(s, needle) matches Some(p) ==> s == p.0 + needle + p.1,
{
    lemma_first_at(s, needle, 0);
    let i = first_at(s, needle, 0);
    if i < s.len() {
        assert(chars::occurs_at(s, needle, i));
        assert(s =~= s.take(i) + s.subrange(i, i + needle.len()) + s.skip(i + needle.len()));
    } else if chars::occurs(s, needle) {
        let j = choose|j: int| chars::occurs_at(s, needle, j);
        assert(chars::occurs_at(s, needle, j));
    }
}

/// A text is cut at its first occurrence: where `needle` follows a text that
/// does not hold its first character, the text is cut there.
pub proof fn first_occurrence_is_cut(head: Seq<char>, needle: Seq<char>, tail: Seq<char>)
    requires
        needle.len() > 0,
        forall|i: int| 0 <= i < head.len() ==> head[i] != needle[0],
    ensures
        cut(head + needle + tail, needle) == Some((head, tail)),
{
    let s = head + needle + tail;
    let n = head.len() as int;
    lemma_first_at(s, needle, 0);
    assert(s.subrange(n, n + needle.len()) =~= needle);
    assert(chars::occurs_at(s, needle, n));
    let i = first_at(s, needle, 0);
    if i < n {
        assert(s.subrange(i, i + needle.len())[0] == s[i]);
        assert(s[i] == head[i]);
    }
    assert(s.take(n) =~= head);
    assert(s.skip(n + needle.len()) =~= tail);
}

} // verus!
