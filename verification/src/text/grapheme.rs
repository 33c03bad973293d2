//! Grapheme clusters: the steps by which a cursor moves through a text.

use unicode_segmentation::UnicodeSegmentation;
use vstd::prelude::*;

use crate::text;
use crate::text::chars;
use crate::text::classes;
use crate::text::index;

verus! {

/// Whether `s` holds ASCII alone, the last ASCII character aside.
pub open spec fn plain(s: Seq<char>) -> bool {
    forall|i: int| 0 <= i < s.len() ==> #[trigger] s[i] <= '\u{7E}'
}

/// The offsets at which the clusters of a plain text start: each character is
/// one, but for a line feed behind a carriage return.
pub open spec fn plain_starts(s: Seq<char>) -> Seq<usize>
    decreases s.len(),
{
    if s.len() == 0 {
        seq![]
    } else {
        let before = plain_starts(s.drop_last());
        let last = s.len() - 1;
        if last > 0 && s[last - 1] == '\r' && s[last] == '\n' {
            before
        } else {
            before.push(last as usize)
        }
    }
}

/// The byte offsets at which the extended grapheme clusters of a text that is
/// not plain start, as `unicode_segmentation` finds them.
pub uninterp spec fn unicode_starts(s: Seq<char>) -> Seq<usize>;

/// The byte offsets at which the extended grapheme clusters of `s` start.
pub open spec fn grapheme_starts(s: Seq<char>) -> Seq<usize> {
    if plain(s) {
        plain_starts(s)
    } else {
        unicode_starts(s)
    }
}

/// Whether `starts` cuts `s` into clusters: the offsets ascend, lie on
/// boundaries inside the text, and begin with the start of the text.
pub open spec fn cuts(starts: Seq<usize>, s: Seq<char>) -> bool {
    &&& starts.len() == 0 <==> s.len() == 0
    &&& s.len() > 0 ==> starts[0] == 0
    &&& forall|i: int, j: int| 0 <= i < j < starts.len() ==> starts[i] < starts[j]
    &&& forall|i: int|
        0 <= i < starts.len() ==> #[trigger] starts[i] < text::width(s) && text::is_boundary(
            s,
            starts[i] as int,
        )
}

/// `UnicodeSegmentation::grapheme_indices` with extended clusters, of which
/// the byte offsets are kept. The clusters depend on the text alone; they
/// follow one another from its start without gaps, so their offsets ascend
/// from zero and lie on character boundaries inside the text. Between two
/// characters up to `U+007E` there is a boundary, unless they are a carriage
/// return and a line feed.
#[verifier::external_body]
pub(crate) fn grapheme_offsets(s: &str) -> (starts: Vec<usize>)
    ensures
        plain(s@) ==> starts@ == plain_starts(s@),
        !plain(s@) ==> starts@ == unicode_starts(s@),
        cuts(starts@, s@),
{
    UnicodeSegmentation::grapheme_indices(s, true).map(|(start, _)| start).collect()
}

/// The last of `starts` below `offset`, or zero.
pub open spec fn prev_start(starts: Seq<usize>, offset: int) -> int
    decreases starts.len(),
{
    if starts.len() == 0 {
        0
    } else if starts.last() < offset {
        starts.last() as int
    } else {
        prev_start(starts.drop_last(), offset)
    }
}

/// The first of `starts` above `offset`, or `end`.
pub open spec fn next_start(starts: Seq<usize>, end: int, offset: int) -> int
    decreases starts.len(),
{
    if starts.len() == 0 {
        end
    } else if starts[0] > offset {
        starts[0] as int
    } else {
        next_start(starts.drop_first(), end, offset)
    }
}

/// The start of the cluster that holds `offset`; offsets at or past the end
/// of the text stand for its end.
pub open spec fn snap(starts: Seq<usize>, end: int, offset: int) -> int {
    if offset >= end {
        end
    } else {
        prev_start(starts, offset + 1)
    }
}

/// Whether `b` is the start of a cluster or the end of the text.
pub open spec fn on_cluster(starts: Seq<usize>, end: int, b: int) -> bool {
    b == end || exists|i: int| 0 <= i < starts.len() && #[trigger] starts[i] == b
}

/// The offset before `offset` is a cluster start, and none lies between.
pub proof fn lemma_prev_start(starts: Seq<usize>, s: Seq<char>, offset: int)
    requires
        cuts(starts, s),
    ensures
        prev_start(starts, offset) >= 0,
        offset > 0 ==> prev_start(starts, offset) < offset,
        offset <= 0 ==> prev_start(starts, offset) == 0,
        s.len() > 0 ==> exists|i: int|
            0 <= i < starts.len() && #[trigger] starts[i] == prev_start(starts, offset),
        s.len() == 0 ==> prev_start(starts, offset) == 0,
        forall|i: int|
            0 <= i < starts.len() && prev_start(starts, offset) < #[trigger] starts[i]
                ==> starts[i] >= offset,
        text::is_boundary(s, prev_start(starts, offset)),
        prev_start(starts, offset) <= text::width(s),
{
    text::lemma_ends_are_boundaries(s);
    if s.len() > 0 {
        lemma_prev_start_of(starts, offset);
        assert(starts[0] == 0);
        let i = choose|i: int|
            0 <= i < starts.len() && #[trigger] starts[i] == prev_start(starts, offset);
        assert(text::is_boundary(s, starts[i] as int));
    } else {
        assert(starts.len() == 0);
    }
}

proof fn lemma_prev_start_of(starts: Seq<usize>, offset: int)
    requires
        starts.len() > 0,
        starts[0] == 0,
        forall|i: int, j: int| 0 <= i < j < starts.len() ==> starts[i] < starts[j],
    ensures
        offset > 0 ==> prev_start(starts, offset) < offset,
        offset <= 0 ==> prev_start(starts, offset) == 0,
        exists|i: int|
            0 <= i < starts.len() && #[trigger] starts[i] == prev_start(starts, offset),
        forall|i: int|
            0 <= i < starts.len() && prev_start(starts, offset) < #[trigger] starts[i]
                ==> starts[i] >= offset,
    decreases starts.len(),
{
    let n = starts.len() - 1;
    if starts.last() < offset {
        assert(starts[n] == starts.last());
    } else if starts.len() == 1 {
        assert(prev_start(starts.drop_last(), offset) == 0);
        assert(starts[0] == prev_start(starts, offset));
    } else {
        let rest = starts.drop_last();
        lemma_prev_start_of(rest, offset);
        let i = choose|i: int|
            0 <= i < rest.len() && #[trigger] rest[i] == prev_start(rest, offset);
        assert(starts[i] == prev_start(starts, offset));
        assert forall|i: int|
            0 <= i < starts.len() && prev_start(starts, offset) < #[trigger] starts[i] implies
            starts[i] >= offset by {
            if i < n {
                assert(rest[i] == starts[i]);
            }
        }
    }
}

/// The offset after `offset` is a cluster start or the end of the text, and
/// none lies between.
pub proof fn lemma_next_start(starts: Seq<usize>, s: Seq<char>, offset: int)
    requires
        cuts(starts, s),
    ensures
        next_start(starts, text::width(s) as int, offset) <= text::width(s),
        offset < text::width(s) ==> next_start(starts, text::width(s) as int, offset) > offset,
        offset >= text::width(s) ==> next_start(starts, text::width(s) as int, offset)
            == text::width(s),
        on_cluster(
            starts,
            text::width(s) as int,
            next_start(starts, text::width(s) as int, offset),
        ),
        forall|i: int|
            0 <= i < starts.len() && #[trigger] starts[i] < next_start(
                starts,
                text::width(s) as int,
                offset,
            ) ==> starts[i] <= offset,
        text::is_boundary(s, next_start(starts, text::width(s) as int, offset)),
{
    text::lemma_ends_are_boundaries(s);
    lemma_next_start_of(starts, text::width(s) as int, offset);
}

proof fn lemma_next_start_of(starts: Seq<usize>, end: int, offset: int)
    requires
        forall|i: int, j: int| 0 <= i < j < starts.len() ==> starts[i] < starts[j],
        forall|i: int| 0 <= i < starts.len() ==> #[trigger] starts[i] < end,
    ensures
        next_start(starts, end, offset) <= end,
        offset < end ==> next_start(starts, end, offset) > offset,
        offset >= end ==> next_start(starts, end, offset) == end,
        on_cluster(starts, end, next_start(starts, end, offset)),
        forall|i: int|
            0 <= i < starts.len() && #[trigger] starts[i] < next_start(starts, end, offset)
                ==> starts[i] <= offset,
    decreases starts.len(),
{
    if starts.len() > 0 {
        if starts[0] > offset {
        } else {
            let rest = starts.drop_first();
            lemma_next_start_of(rest, end, offset);
            let r = next_start(rest, end, offset);
            if r != end {
                let i = choose|i: int| 0 <= i < rest.len() && #[trigger] rest[i] == r;
                assert(starts[i + 1] == r);
            }
            assert forall|i: int|
                0 <= i < starts.len() && #[trigger] starts[i] < r implies starts[i] <= offset by {
                if i > 0 {
                    assert(rest[i - 1] == starts[i]);
                }
            }
        }
    }
}

/// Snapping gives a boundary at or before the offset, and keeps what is
/// already the start of a cluster or the end.
pub proof fn lemma_snap(starts: Seq<usize>, s: Seq<char>, offset: int)
    requires
        cuts(starts, s),
        offset >= 0,
    ensures
        0 <= snap(starts, text::width(s) as int, offset) <= offset,
        snap(starts, text::width(s) as int, offset) <= text::width(s),
        text::is_boundary(s, snap(starts, text::width(s) as int, offset)),
        on_cluster(starts, text::width(s) as int, snap(starts, text::width(s) as int, offset)),
        on_cluster(starts, text::width(s) as int, offset) ==> snap(
            starts,
            text::width(s) as int,
            offset,
        ) == offset,
{
    let end = text::width(s) as int;
    text::lemma_ends_are_boundaries(s);
    lemma_prev_start(starts, s, offset + 1);
    if offset < end {
        if s.len() == 0 {
            assert(text::width(s) == 0);
        }
        let i = choose|i: int|
            0 <= i < starts.len() && #[trigger] starts[i] == prev_start(starts, offset + 1);
        assert(starts[i] == snap(starts, end, offset));
    }
}

/// Snapping keeps the order of offsets.
pub proof fn lemma_snap_monotone(starts: Seq<usize>, s: Seq<char>, a: int, b: int)
    requires
        cuts(starts, s),
        0 <= a <= b,
    ensures
        snap(starts, text::width(s) as int, a) <= snap(starts, text::width(s) as int, b),
        snap(starts, text::width(s) as int, snap(starts, text::width(s) as int, a)) == snap(
            starts,
            text::width(s) as int,
            a,
        ),
{
    let end = text::width(s) as int;
    lemma_snap(starts, s, a);
    lemma_snap(starts, s, b);
    lemma_snap(starts, s, snap(starts, end, a));
    if b < end {
        let x = prev_start(starts, a + 1);
        lemma_prev_start(starts, s, a + 1);
        lemma_prev_start(starts, s, b + 1);
        let i = choose|i: int| 0 <= i < starts.len() && #[trigger] starts[i] == x;
        if prev_start(starts, b + 1) < x {
            assert(starts[i] >= b + 1);
        }
    }
}

/// The last of `starts` below `offset`, or zero.
pub fn prev_start_in(starts: &Vec<usize>, offset: usize) -> (r: usize)
    ensures
        r == prev_start(starts@, offset as int),
{
    let mut n: usize = starts.len();
    assert(starts@.take(n as int) =~= starts@);
    while n > 0
        invariant
            n <= starts@.len(),
            prev_start(starts@, offset as int) == prev_start(starts@.take(n as int), offset as int),
        decreases n,
    {
        if starts[n - 1] < offset {
            return starts[n - 1];
        }
        assert(starts@.take(n as int).drop_last() =~= starts@.take(n - 1));
        n = n - 1;
    }
    0
}

/// The first of `starts` above `offset`, or `end`.
pub fn next_start_in(starts: &Vec<usize>, end: usize, offset: usize) -> (r: usize)
    ensures
        r == next_start(starts@, end as int, offset as int),
{
    let mut i: usize = 0;
    assert(starts@.skip(0) =~= starts@);
    while i < starts.len()
        invariant
            i <= starts@.len(),
            next_start(starts@, end as int, offset as int) == next_start(
                starts@.skip(i as int),
                end as int,
                offset as int,
            ),
        decreases starts@.len() - i,
    {
        if starts[i] > offset {
            return starts[i];
        }
        assert(starts@.skip(i as int).drop_first() =~= starts@.skip(i + 1));
        i = i + 1;
    }
    end
}

/// The start of the cluster that holds `offset`, where the clusters of a text
/// of `end` bytes begin at `starts`.
pub fn snap_in(starts: &Vec<usize>, end: usize, offset: usize) -> (r: usize)
    ensures
        r == snap(starts@, end as int, offset as int),
{
    if offset >= end {
        end
    } else {
        prev_start_in(starts, offset + 1)
    }
}

/// The start of the grapheme cluster before `offset`; zero when there is none.
pub fn prev_grapheme(s: &str, offset: usize) -> (r: usize)
    ensures
        r == prev_start(grapheme_starts(s@), offset as int),
        text::is_boundary(s@, r as int),
        r <= text::width(s@),
        r <= offset,
        offset > 0 ==> r < offset,
{
    let starts = grapheme_offsets(s);
    proof {
        lemma_prev_start(starts@, s@, offset as int);
    }
    prev_start_in(&starts, offset)
}

/// The start of the grapheme cluster after `offset`; the end of the text when
/// there is none.
pub fn next_grapheme(s: &str, offset: usize) -> (r: usize)
    ensures
        r == next_start(grapheme_starts(s@), text::width(s@) as int, offset as int),
        text::is_boundary(s@, r as int),
        r <= text::width(s@),
        offset < text::width(s@) ==> offset < r,
        offset >= text::width(s@) ==> r == text::width(s@),
{
    let starts = grapheme_offsets(s);
    proof {
        lemma_next_start(starts@, s@, offset as int);
    }
    next_start_in(&starts, text::byte_len(s), offset)
}

/// `offset` moved back to the start of the grapheme cluster that holds it,
/// and into the text when it lies beyond.
pub fn clamp_to_grapheme(s: &str, offset: usize) -> (r: usize)
    ensures
        r == snap(grapheme_starts(s@), text::width(s@) as int, offset as int),
        text::is_boundary(s@, r as int),
        r <= text::width(s@),
        r <= offset,
        snap(grapheme_starts(s@), text::width(s@) as int, r as int) == r,
        cuts(grapheme_starts(s@), s@),
{
    let starts = grapheme_offsets(s);
    let end: usize = text::byte_len(s);
    proof {
        lemma_snap(starts@, s@, offset as int);
        lemma_snap(starts@, s@, snap(starts@, text::width(s@) as int, offset as int));
    }
    snap_in(&starts, end, offset)
}

/// Whether the cluster of `s` that starts at `b` begins with a word character.
pub open spec fn word_at(s: Seq<char>, b: int) -> bool {
    classes::word_char(s[text::index_of(s, b)])
}

/// Whether `start..end` is the word around the cluster edge `at`: every
/// cluster in it begins with a word character, and neither the cluster before
/// it nor the one after it does.
pub open spec fn word_around(
    starts: Seq<usize>,
    s: Seq<char>,
    at: int,
    start: int,
    end: int,
) -> bool {
    &&& 0 <= start <= at <= end <= text::width(s)
    &&& on_cluster(starts, text::width(s) as int, start)
    &&& on_cluster(starts, text::width(s) as int, end)
    &&& forall|i: int|
        0 <= i < starts.len() && start <= #[trigger] starts[i] < end ==> word_at(
            s,
            starts[i] as int,
        )
    &&& start > 0 ==> !word_at(s, prev_start(starts, start))
    &&& end < text::width(s) ==> !word_at(s, end)
}

/// The word around `offset`, where the grapheme clusters of `s` begin at
/// `starts`.
pub fn word_bounds_in(s: &str, starts: &Vec<usize>, offset: usize) -> (r: (usize, usize))
    requires
        cuts(starts@, s@),
    ensures
        word_around(
            starts@,
            s@,
            snap(starts@, text::width(s@) as int, offset as int),
            r.0 as int,
            r.1 as int,
        ),
        text::is_boundary(s@, r.0 as int),
        text::is_boundary(s@, r.1 as int),
{
    let v = chars::to_chars(s);
    let len: usize = text::byte_len(s);
    let at: usize = snap_in(starts, len, offset);
    proof {
        lemma_snap(starts@, s@, offset as int);
        text::lemma_ends_are_boundaries(s@);
    }
    let mut start: usize = at;
    while start > 0
        invariant_except_break
            v@ == s@,
            cuts(starts@, s@),
            len == text::width(s@),
            start <= at <= len,
            on_cluster(starts@, len as int, start as int),
            text::is_boundary(s@, start as int),
            forall|i: int|
                0 <= i < starts@.len() && start <= #[trigger] starts@[i] < at ==> word_at(
                    s@,
                    starts@[i] as int,
                ),
        ensures
            start <= at,
            on_cluster(starts@, len as int, start as int),
            text::is_boundary(s@, start as int),
            forall|i: int|
                0 <= i < starts@.len() && start <= #[trigger] starts@[i] < at ==> word_at(
                    s@,
                    starts@[i] as int,
                ),
            start > 0 ==> !word_at(s@, prev_start(starts@, start as int)),
        decreases start,
    {
        let prev: usize = prev_start_in(starts, start);
        proof {
            lemma_prev_start(starts@, s@, start as int);
            text::lemma_ends_are_boundaries(s@);
            text::lemma_boundary_order(s@, prev as int, len as int);
            text::lemma_boundary(s@, prev as int);
        }
        let k: usize = index::index_reaching(&v, prev);
        if !classes::is_word_char(v[k]) {
            break;
        }
        proof {
            if s@.len() == 0 {
                assert(len == 0);
            }
            let i = choose|i: int| 0 <= i < starts@.len() && #[trigger] starts@[i] == prev;
            assert(starts@[i] == prev);
        }
        start = prev;
    }
    let mut end: usize = at;
    while end < len
        invariant_except_break
            v@ == s@,
            cuts(starts@, s@),
            len == text::width(s@),
            at <= end <= len,
            on_cluster(starts@, len as int, end as int),
            text::is_boundary(s@, end as int),
            forall|i: int|
                0 <= i < starts@.len() && at <= #[trigger] starts@[i] < end ==> word_at(
                    s@,
                    starts@[i] as int,
                ),
        ensures
            at <= end <= len,
            on_cluster(starts@, len as int, end as int),
            text::is_boundary(s@, end as int),
            forall|i: int|
                0 <= i < starts@.len() && at <= #[trigger] starts@[i] < end ==> word_at(
                    s@,
                    starts@[i] as int,
                ),
            end < len ==> !word_at(s@, end as int),
        decreases len - end,
    {
        let next: usize = next_start_in(starts, len, end);
        proof {
            lemma_next_start(starts@, s@, end as int);
            text::lemma_ends_are_boundaries(s@);
            text::lemma_boundary_order(s@, end as int, len as int);
            text::lemma_boundary(s@, end as int);
        }
        let k: usize = index::index_reaching(&v, end);
        if !classes::is_word_char(v[k]) {
            break;
        }
        end = next;
    }
    (start, end)
}

/// The word around `offset`: letters, digits and underscores form a word.
pub fn word_bounds(s: &str, offset: usize) -> (r: (usize, usize))
    ensures
        word_around(
            grapheme_starts(s@),
            s@,
            snap(grapheme_starts(s@), text::width(s@) as int, offset as int),
            r.0 as int,
            r.1 as int,
        ),
        text::is_boundary(s@, r.0 as int),
        text::is_boundary(s@, r.1 as int),
{
    let starts = grapheme_offsets(s);
    word_bounds_in(s, &starts, offset)
}

/// In plain text every character is a step of its own, but for a `\r\n`, which is
/// one step.
pub proof fn plain_characters_are_steps(s: Seq<char>, c: char)
    requires
        s.len() < usize::MAX,
    ensures
        plain_starts(seq![]).len() == 0,
        s.len() > 0 && s.last() == '\r' && c == '\n' ==> plain_starts(s.push(c)) == plain_starts(s),
        !(s.len() > 0 && s.last() == '\r' && c == '\n') ==> plain_starts(s.push(c)) == plain_starts(
            s,
        ).push(s.len() as usize),
{
    let t = s.push(c);
    assert(t.drop_last() =~= s);
    if s.len() > 0 {
        assert(t[t.len() - 2] == s.last());
    }
}

/// A step back from `offset` leads to the nearest start of a cluster before it, a
/// step forward to the nearest one behind it or to the end, and a place inside a
/// cluster is taken back to where that starts.
pub proof fn steps_lead_to_neighbours(starts: Seq<usize>, s: Seq<char>, offset: int, i: int)
    requires
        cuts(starts, s),
        0 <= i < starts.len(),
    ensures
        ({
            let end = text::width(s) as int;
            let next = if i + 1 < starts.len() {
                starts[i + 1] as int
            } else {
                end
            };
            &&& starts[i] < offset <= next ==> prev_start(starts, offset) == starts[i]
            &&& starts[i] <= offset < next ==> next_start(starts, end, offset) == next
            &&& starts[i] <= offset < next ==> snap(starts, end, offset) == starts[i]
            &&& offset >= end ==> snap(starts, end, offset) == end
        }),
{
    let end = text::width(s) as int;
    lemma_prev_start(starts, s, offset);
    lemma_prev_start(starts, s, offset + 1);
    lemma_next_start(starts, s, offset);
    let p = prev_start(starts, offset);
    let q = prev_start(starts, offset + 1);
    let r = next_start(starts, end, offset);
    if i + 1 < starts.len() {
        assert(starts[i + 1] < end);
    }
    let a = choose|a: int| 0 <= a < starts.len() && #[trigger] starts[a] == p;
    let b = choose|b: int| 0 <= b < starts.len() && #[trigger] starts[b] == q;
    if r != end {
        let c = choose|c: int| 0 <= c < starts.len() && #[trigger] starts[c] == r;
        assert(c < i ==> starts[c] < starts[i]);
        assert(c > i + 1 ==> starts[i + 1] < starts[c]);
    }
    assert(a < i ==> starts[a] < starts[i]);
    assert(a > i ==> starts[i] < starts[a]);
    assert(b < i ==> starts[b] < starts[i]);
    assert(b > i ==> starts[i] < starts[b]);
    if starts[i] < offset && i + 1 < starts.len() && offset <= starts[i + 1] && a > i {
        assert(a > i + 1 ==> starts[i + 1] < starts[a]);
    }
    if starts[i] <= offset && i + 1 < starts.len() && offset < starts[i + 1] && b > i {
        assert(b > i + 1 ==> starts[i + 1] < starts[b]);
    }
}

/// A word is made of clusters that begin with a word character, and goes as far as they do
/// on both sides of the place.
pub proof fn words_go_as_far_as_they_can(
    starts: Seq<usize>,
    s: Seq<char>,
    at: int,
    start: int,
    end: int,
    i: int,
)
    requires
        cuts(starts, s),
        word_around(starts, s, at, start, end),
        0 <= i < starts.len(),
    ensures
        start <= at <= end,
        start <= starts[i] < end ==> classes::word_char(s[text::index_of(s, starts[i] as int)]),
        starts[i] == end ==> !classes::word_char(s[text::index_of(s, end)]),
        i + 1 < starts.len() && starts[i + 1] == start ==> !classes::word_char(
            s[text::index_of(s, starts[i] as int)],
        ),
        i + 1 == starts.len() && start == text::width(s) ==> !classes::word_char(
            s[text::index_of(s, starts[i] as int)],
        ),
{
    steps_lead_to_neighbours(starts, s, start, i);
    if i + 1 < starts.len() {
        assert(starts[i] < starts[i + 1]);
    }
}

/// A place has one word around it.
pub proof fn places_have_one_word(
    starts: Seq<usize>,
    s: Seq<char>,
    at: int,
    a: int,
    b: int,
    c: int,
    d: int,
)
    requires
        cuts(starts, s),
        word_around(starts, s, at, a, b),
        word_around(starts, s, at, c, d),
    ensures
        a == c && b == d,
{
    lemma_word_ends_first(starts, s, at, a, b, c, d);
    lemma_word_ends_first(starts, s, at, c, d, a, b);
}

proof fn lemma_word_ends_first(
    starts: Seq<usize>,
    s: Seq<char>,
    at: int,
    a: int,
    b: int,
    c: int,
    d: int,
)
    requires
        cuts(starts, s),
        word_around(starts, s, at, a, b),
        word_around(starts, s, at, c, d),
    ensures
        b >= d,
        a >= c,
{
    if b < d {
        let i = choose|i: int| 0 <= i < starts.len() && #[trigger] starts[i] == b;
        assert(c <= starts[i] < d);
    }
    if a < c {
        lemma_prev_start(starts, s, c);
        let p = prev_start(starts, c);
        let i = choose|i: int| 0 <= i < starts.len() && #[trigger] starts[i] == a;
        assert(starts[i] < c);
        assert(s.len() > 0);
        let j = choose|j: int| 0 <= j < starts.len() && #[trigger] starts[j] == p;
        assert(a <= starts[j] < b);
    }
}

/// In a text of printable ASCII, and of what comes before it, every character is a step, if
/// there is no carriage return in it. Any other text has the steps of Unicode.
pub proof fn ascii_steps_by_characters(s: Seq<char>)
    requires
        s.len() <= usize::MAX,
    ensures
        (forall|i: int| 0 <= i < s.len() ==> #[trigger] s[i] <= '~' && s[i] != '\r') ==> {
            &&& grapheme_starts(s).len() == s.len()
            &&& forall|i: int| 0 <= i < s.len() ==> #[trigger] grapheme_starts(s)[i] == i
        },
        (exists|i: int| 0 <= i < s.len() && #[trigger] s[i] > '~') ==> grapheme_starts(s)
            == unicode_starts(s),
{
    if forall|i: int| 0 <= i < s.len() ==> #[trigger] s[i] <= '~' && s[i] != '\r' {
        lemma_plain_steps(s);
    }
}

proof fn lemma_plain_steps(s: Seq<char>)
    requires
        s.len() <= usize::MAX,
        forall|i: int| 0 <= i < s.len() ==> #[trigger] s[i] != '\r',
    ensures
        plain_starts(s).len() == s.len(),
        forall|i: int| 0 <= i < s.len() ==> #[trigger] plain_starts(s)[i] == i,
    decreases s.len(),
{
    if s.len() > 0 {
        lemma_plain_steps(s.drop_last());
    }
}

} // verus!
