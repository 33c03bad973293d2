//! Cutting a text at a separator character.

use vstd::prelude::*;

use crate::text::chars;

verus! {

/// The index of the first `c` in `s` from `k` on, or the length of `s`.
pub open spec fn next_index(s: Seq<char>, k: int, c: char) -> int
    decreases s.len() - k,
{
    if k >= s.len() {
        s.len() as int
    } else if s[k] == c {
        k
    } else {
        next_index(s, k + 1, c)
    }
}

/// The index of the last `c` in `s`, or minus one.
pub open spec fn last_index(s: Seq<char>, c: char) -> int
    decreases s.len(),
{
    if s.len() == 0 {
        -1
    } else if s.last() == c {
        s.len() - 1
    } else {
        last_index(s.drop_last(), c)
    }
}

/// The pieces of `s` from `k` on, between separators `c`.
pub open spec fn pieces_from(s: Seq<char>, k: int, c: char) -> Seq<Seq<char>>
    decreases s.len() - k,
{
    let end = next_index(s, k, c);
    if end < k || end >= s.len() {
        seq![s.skip(k)]
    } else {
        seq![s.subrange(k, end)] + pieces_from(s, end + 1, c)
    }
}

/// The pieces of `s` between separators `c`.
pub open spec fn pieces(s: Seq<char>, c: char) -> Seq<Seq<char>> {
    pieces_from(s, 0, c)
}

/// The texts of a list of strings.
pub open spec fn texts(v: Seq<String>) -> Seq<Seq<char>> {
    v.map_values(|s: String| s@)
}

/// What follows the last `c` of `s`: all of it when there is none.
pub open spec fn after_last(s: Seq<char>, c: char) -> Seq<char> {
    s.skip(last_index(s, c) + 1)
}

/// The first separator bounds [`next_index`].
pub proof fn lemma_next_index(s: Seq<char>, k: int, c: char)
    requires
        0 <= k <= s.len(),
    ensures
        k <= next_index(s, k, c) <= s.len(),
        next_index(s, k, c) < s.len() ==> s[next_index(s, k, c)] == c,
        forall|j: int| k <= j < next_index(s, k, c) ==> s[j] != c,
    decreases s.len() - k,
{
    if k < s.len() && s[k] != c {
        lemma_next_index(s, k + 1, c);
    }
}

/// An index up to which no `c` stands, and at which one does, is
/// [`next_index`].
pub proof fn lemma_next_index_unique(s: Seq<char>, k: int, c: char, e: int)
    requires
        0 <= k <= e <= s.len(),
        forall|j: int| k <= j < e ==> s[j] != c,
        e < s.len() ==> s[e] == c,
    ensures
        next_index(s, k, c) == e,
    decreases e - k,
{
    if k < e {
        lemma_next_index_unique(s, k + 1, c, e);
    }
}

/// The last separator bounds [`last_index`].
pub proof fn lemma_last_index(s: Seq<char>, c: char)
    ensures
        -1 <= last_index(s, c) < s.len(),
        last_index(s, c) >= 0 ==> s[last_index(s, c)] == c,
        forall|j: int| last_index(s, c) < j < s.len() ==> s[j] != c,
    decreases s.len(),
{
    if s.len() > 0 && s.last() != c {
        let t = s.drop_last();
        lemma_last_index(t, c);
        assert forall|j: int| last_index(s, c) < j < s.len() implies s[j] != c by {
            if j < t.len() {
                assert(t[j] == s[j]);
            }
        }
    }
}

/// The index of the first `c` in `v` from `k` on, or the length of `v`.
pub fn find(v: &Vec<char>, k: usize, c: char) -> (i: usize)
    requires
        k <= v@.len(),
    ensures
        i == next_index(v@, k as int, c),
        k <= i <= v@.len(),
        i < v@.len() ==> v@[i as int] == c,
        forall|j: int| k <= j < i ==> v@[j] != c,
{
    let i: usize = chars::find_char(v, k, c);
    proof {
        lemma_next_index_unique(v@, k as int, c, i as int);
    }
    i
}

/// The pieces of `s` between separators `c`.
pub fn split(s: &str, c: char) -> (out: Vec<String>)
    ensures
        texts(out@) == pieces(s@, c),
{
    let v = chars::to_chars(s);
    let mut out: Vec<String> = Vec::new();
    let mut k: usize = 0;
    assert(texts(out@) + pieces_from(v@, 0, c) =~= pieces_from(v@, 0, c));
    loop
        invariant_except_break
            v@ == s@,
            k <= v@.len(),
            texts(out@) + pieces_from(v@, k as int, c) == pieces(s@, c),
        ensures
            texts(out@) == pieces(s@, c),
        decreases v@.len() - k,
    {
        let end: usize = find(&v, k, c);
        let piece = chars::from_chars(&v, k, end);
        let ghost so_far = out@;
        let ghost text = piece@;
        out.push(piece);
        assert(texts(out@) =~= texts(so_far).push(text));
        if end == v.len() {
            assert(v@.skip(k as int) =~= text);
            assert(texts(so_far) + seq![text] =~= texts(out@));
            break;
        }
        assert(texts(out@) + pieces_from(v@, end + 1, c) =~= texts(so_far) + pieces_from(
            v@,
            k as int,
            c,
        ));
        k = end + 1;
    }
    out
}

/// What follows the last `c` of `s`.
pub fn rest_after_last(s: &str, c: char) -> (r: String)
    ensures
        r@ == after_last(s@, c),
{
    let v = chars::to_chars(s);
    let mut n: usize = v.len();
    assert(v@.take(n as int) =~= v@);
    while n > 0 && v[n - 1] != c
        invariant
            n <= v@.len(),
            last_index(v@.take(n as int), c) == last_index(v@, c),
        decreases n,
    {
        assert(v@.take(n as int).drop_last() =~= v@.take(n - 1));
        n = n - 1;
    }
    assert(n > 0 ==> v@.take(n as int).last() == v@[n - 1]);
    let r = chars::from_chars(&v, n, v.len());
    assert(r@ =~= after_last(s@, c));
    r
}

proof fn lemma_pieces_past(head: Seq<char>, s: Seq<char>, k: int, c: char)
    requires
        0 <= k <= s.len(),
    ensures
        pieces_from(head + s, head.len() + k, c) == pieces_from(s, k, c),
    decreases s.len() - k,
{
    let t = head + s;
    let n = head.len() as int;
    lemma_next_index(s, k, c);
    let e = next_index(s, k, c);
    lemma_next_index_unique(t, n + k, c, n + e);
    assert(t.skip(n + k) =~= s.skip(k));
    if e < s.len() {
        lemma_pieces_past(head, s, e + 1, c);
        assert(t.subrange(n + k, n + e) =~= s.subrange(k, e));
    }
}

/// A text is split at every separator and nowhere else: without one it is a single
/// piece, and what stands before the first one is the first piece, followed by the
/// pieces of what stands behind it.
pub proof fn pieces_end_at_separators(head: Seq<char>, tail: Seq<char>, c: char)
    requires
        forall|i: int| 0 <= i < head.len() ==> head[i] != c,
    ensures
        pieces(head, c) == seq![head],
        pieces(head + seq![c] + tail, c) == seq![head] + pieces(tail, c),
{
    lemma_next_index_unique(head, 0, c, head.len() as int);
    assert(head.skip(0) =~= head);
    let n = head.len() as int;
    let s = head + seq![c] + tail;
    lemma_next_index_unique(s, 0, c, n);
    assert(s.subrange(0, n) =~= head);
    assert(s =~= (head + seq![c]) + tail);
    lemma_pieces_past(head + seq![c], tail, 0, c);
}

/// What follows the last separator is what [`after_last`] keeps, and all of a text
/// without one.
pub proof fn the_last_piece_is_kept(head: Seq<char>, tail: Seq<char>, c: char)
    requires
        forall|i: int| 0 <= i < tail.len() ==> tail[i] != c,
    ensures
        after_last(tail, c) == tail,
        after_last(head + seq![c] + tail, c) == tail,
{
    let s = head + seq![c] + tail;
    let n = head.len() as int;
    lemma_last_index(tail, c);
    assert(tail.skip(0) =~= tail);
    lemma_last_index(s, c);
    assert(s[n] == c);
    let i = last_index(s, c);
    if i > n {
        assert(s[i] == tail[i - n - 1]);
    }
    assert(s.skip(n + 1) =~= tail);
}

proof fn lemma_piece_added(s: Seq<char>, name: Seq<char>, k: int, c: char)
    requires
        0 <= k <= s.len(),
        forall|i: int| 0 <= i < name.len() ==> name[i] != c,
    ensures
        pieces_from(s + seq![c] + name, k, c) == pieces_from(s, k, c).push(name),
    decreases s.len() - k,
{
    let t = s + seq![c] + name;
    lemma_next_index(s, k, c);
    let e = next_index(s, k, c);
    assert(t[s.len() as int] == c);
    lemma_next_index_unique(t, k, c, e);
    assert(t.subrange(k, e) =~= s.subrange(k, e));
    if e < s.len() {
        lemma_piece_added(s, name, e + 1, c);
        assert(pieces_from(t, k, c) =~= pieces_from(s, k, c).push(name));
    } else {
        assert(s.skip(k) =~= t.subrange(k, e));
        let f = e + 1;
        lemma_next_index_unique(t, f, c, t.len() as int);
        assert(t.skip(f) =~= name);
        assert(pieces_from(t, f, c) =~= seq![name]);
        assert(pieces_from(s, k, c) =~= seq![s.skip(k)]);
        assert(pieces_from(t, k, c) =~= pieces_from(s, k, c).push(name));
    }
}

/// What follows the last separator is the last piece; the pieces before it are
/// those of what stands before the separator.
pub proof fn a_piece_is_added_at_the_end(s: Seq<char>, name: Seq<char>, c: char)
    requires
        forall|i: int| 0 <= i < name.len() ==> name[i] != c,
    ensures
        pieces(s + seq![c] + name, c) == pieces(s, c).push(name),
{
    lemma_piece_added(s, name, 0, c);
}

/// The first piece of a text, from `k` on, is followed by a separator and by the
/// pieces of the rest, or it is all there is.
pub proof fn lemma_first_piece(s: Seq<char>, k: int, c: char)
    requires
        0 <= k <= s.len(),
    ensures
        ({
            let p = pieces_from(s, k, c);
            let n = k + p[0].len();
            &&& p.len() > 0
            &&& p.len() == 1 ==> s.skip(k) == p[0]
            &&& p.len() > 1 ==> {
                &&& n < s.len()
                &&& s.skip(k) == p[0] + seq![c] + s.skip(n + 1)
                &&& pieces_from(s, n + 1, c) == p.drop_first()
            }
        }),
    decreases s.len() - k,
{
    lemma_next_index(s, k, c);
    let e = next_index(s, k, c);
    if e < s.len() {
        let p = pieces_from(s, k, c);
        let rest = pieces_from(s, e + 1, c);
        lemma_first_piece(s, e + 1, c);
        assert(p[0] == s.subrange(k, e));
        assert(p.drop_first() =~= rest);
        assert(s.skip(k) =~= p[0] + seq![c] + s.skip(e + 1));
    }
}

} // verus!
