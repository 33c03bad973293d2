//! What a text area puts on the screen, line by line, before any shaping.

use core::ops::Range;

use vstd::prelude::*;

use super::sel_overlap_local;
use super::Decoration;
use crate::text;
use crate::text::chars;
use crate::text::index;
use crate::text::lines;

verus! {

/// The bytes of one logical line, without its line break.
#[derive(Clone, Copy, Debug, PartialEq, Eq, Structural)]
pub struct LineSpan {
    pub byte_start: usize,
    pub byte_end: usize,
}

/// The lines of `s` from the character with index `k` on, as byte spans. A
/// text that ends in a line break has an empty last line.
pub open spec fn spans_from(s: Seq<char>, k: int) -> Seq<(int, int)>
    decreases s.len() - k,
{
    let end = lines::line_end_index(s, k);
    let first = (text::offset_of(s, k) as int, text::offset_of(s, end) as int);
    if end < k || end >= s.len() {
        seq![first]
    } else {
        seq![first] + spans_from(s, end + 1)
    }
}

/// Line spans as pairs of mathematical integers.
pub open spec fn span_pairs(spans: Seq<LineSpan>) -> Seq<(int, int)> {
    spans.map_values(|l: LineSpan| (l.byte_start as int, l.byte_end as int))
}

/// The lines of `content` as byte spans.
pub fn line_spans(content: &str) -> (out: Vec<LineSpan>)
    ensures
        span_pairs(out@) == spans_from(content@, 0),
{
    let v = chars::to_chars(content);
    let total: usize = text::byte_len(content);
    let mut out: Vec<LineSpan> = Vec::new();
    let mut k: usize = 0;
    assert(span_pairs(out@) + spans_from(v@, 0) =~= spans_from(v@, 0));
    loop
        invariant_except_break
            v@ == content@,
            total == text::width(v@),
            k <= v@.len(),
            span_pairs(out@) + spans_from(v@, k as int) == spans_from(content@, 0),
        ensures
            span_pairs(out@) == spans_from(content@, 0),
        decreases v@.len() - k,
    {
        let end: usize = chars::find_char(&v, k, '\n');
        proof {
            lines::lemma_line_end_unique(v@, k as int, end as int);
        }
        let a: usize = index::offset_at(&v, k);
        let b: usize = index::offset_at(&v, end);
        let ghost so_far = out@;
        out.push(LineSpan { byte_start: a, byte_end: b });
        proof {
            assert(span_pairs(out@) =~= span_pairs(so_far) + seq![(a as int, b as int)]);
        }
        if end == v.len() {
            break;
        }
        proof {
            assert(span_pairs(out@) + spans_from(v@, end + 1) =~= span_pairs(so_far)
                + spans_from(v@, k as int));
        }
        k = end + 1;
    }
    out
}

/// A run of text in one style.
#[derive(Clone, Copy, Debug, PartialEq, Eq, Structural)]
pub struct Run {
    pub len: usize,
    pub underlined: bool,
}

/// Where `offset` falls in a line of `len` bytes that starts at `byte_start`.
pub open spec fn local_offset(offset: int, byte_start: int, len: int) -> int {
    if offset <= byte_start {
        0
    } else if offset - byte_start >= len {
        len
    } else {
        offset - byte_start
    }
}

/// The runs of a line of `len` bytes that starts at `byte_start`: the part
/// that belongs to the composition is underlined, and runs are not empty
/// beside it.
pub open spec fn runs_of(len: usize, byte_start: int, marked: Option<(int, int)>) -> Seq<Run> {
    match marked {
        Some(m) => {
            let a = local_offset(m.0, byte_start, len as int);
            let b = local_offset(m.1, byte_start, len as int);
            if a >= b {
                seq![Run { len, underlined: false }]
            } else {
                (if a > 0 {
                    seq![Run { len: a as usize, underlined: false }]
                } else {
                    seq![]
                }) + seq![Run { len: (b - a) as usize, underlined: true }] + (if b < len {
                    seq![Run { len: (len - b) as usize, underlined: false }]
                } else {
                    seq![]
                })
            }
        },
        None => seq![Run { len, underlined: false }],
    }
}

/// The bytes that a list of runs covers.
pub open spec fn covered(runs: Seq<Run>) -> int
    decreases runs.len(),
{
    if runs.len() == 0 {
        0
    } else {
        covered(runs.drop_last()) + runs.last().len
    }
}

/// The runs of a line cover it exactly.
pub proof fn runs_cover_the_line(len: usize, byte_start: int, marked: Option<(int, int)>)
    ensures
        covered(runs_of(len, byte_start, marked)) == len,
{
    let r = runs_of(len, byte_start, marked);
    reveal_with_fuel(covered, 4);
    if r.len() == 1 {
        assert(r.drop_last() =~= Seq::<Run>::empty());
    } else if r.len() == 2 {
        assert(r.drop_last().drop_last() =~= Seq::<Run>::empty());
    } else {
        assert(r.drop_last().drop_last().drop_last() =~= Seq::<Run>::empty());
    }
}

/// The runs of a line of `len` bytes that starts at `byte_start`.
pub fn text_runs_for_segment(len: usize, byte_start: usize, marked_range: Option<&Range<usize>>)
    -> (runs: Vec<Run>)
    ensures
        runs@ == runs_of(
            len,
            byte_start as int,
            match marked_range {
                Some(m) => Some((m.start as int, m.end as int)),
                None => None,
            },
        ),
{
    let mut runs: Vec<Run> = Vec::new();
    let (start, end): (usize, usize) = match marked_range {
        Some(m) => (local(m.start, byte_start, len), local(m.end, byte_start, len)),
        None => (0, 0),
    };
    if start >= end {
        runs.push(Run { len, underlined: false });
        assert(runs@ =~= seq![Run { len, underlined: false }]);
        return runs;
    }
    if start > 0 {
        runs.push(Run { len: start, underlined: false });
    }
    runs.push(Run { len: end - start, underlined: true });
    if end < len {
        runs.push(Run { len: len - end, underlined: false });
    }
    assert(runs@ =~= runs_of(
        len,
        byte_start as int,
        Some((marked_range->0.start as int, marked_range->0.end as int)),
    ));
    runs
}

fn local(offset: usize, byte_start: usize, len: usize) -> (r: usize)
    ensures
        r == local_offset(offset as int, byte_start as int, len as int),
{
    if offset <= byte_start {
        0
    } else if offset - byte_start >= len {
        len
    } else {
        offset - byte_start
    }
}

/// A highlighted part of a line: the line, and local byte offsets.
#[derive(Clone, Copy, Debug, PartialEq, Eq, Structural)]
pub struct Highlight {
    pub line: usize,
    pub start: usize,
    pub end: usize,
}

/// The highlight of the selection `a..b` on the line with index `i`.
pub open spec fn highlight_on(spans: Seq<(int, int)>, a: int, b: int, i: int) -> Seq<
    (int, int, int),
> {
    let first = super::max(a, spans[i].0);
    let last = lines::min(b, spans[i].1);
    if a < b && first < last {
        seq![(i, first - spans[i].0, last - spans[i].0)]
    } else {
        seq![]
    }
}

/// The highlights of the selection `a..b` on the first `n` lines.
pub open spec fn highlights(spans: Seq<(int, int)>, a: int, b: int, n: nat) -> Seq<(int, int, int)>
    decreases n,
{
    if n == 0 {
        seq![]
    } else {
        highlights(spans, a, b, (n - 1) as nat) + highlight_on(spans, a, b, n - 1)
    }
}

/// Highlights as triples of mathematical integers.
pub open spec fn highlight_triples(hs: Seq<Highlight>) -> Seq<(int, int, int)> {
    hs.map_values(|h: Highlight| (h.line as int, h.start as int, h.end as int))
}

/// The parts of the lines that the selection covers.
pub fn selection_highlights(spans: &Vec<LineSpan>, sel: &Range<usize>) -> (out: Vec<Highlight>)
    ensures
        highlight_triples(out@) == highlights(
            span_pairs(spans@),
            sel.start as int,
            sel.end as int,
            spans@.len(),
        ),
{
    let mut out: Vec<Highlight> = Vec::new();
    let mut i: usize = 0;
    let ghost pairs = span_pairs(spans@);
    assert(highlight_triples(out@) =~= seq![]);
    while i < spans.len()
        invariant
            i <= spans@.len(),
            pairs == span_pairs(spans@),
            highlight_triples(out@) == highlights(
                pairs,
                sel.start as int,
                sel.end as int,
                i as nat,
            ),
        decreases spans@.len() - i,
    {
        let l = spans[i];
        let ghost so_far = out@;
        assert(pairs[i as int] == (l.byte_start as int, l.byte_end as int));
        match sel_overlap_local(sel, l.byte_start, l.byte_end) {
            Some(o) => {
                out.push(Highlight { line: i, start: o.0, end: o.1 });
                assert(highlight_triples(out@) =~= highlight_triples(so_far) + highlight_on(
                    pairs,
                    sel.start as int,
                    sel.end as int,
                    i as int,
                ));
            },
            None => {
                assert(highlight_triples(out@) =~= highlight_triples(so_far) + highlight_on(
                    pairs,
                    sel.start as int,
                    sel.end as int,
                    i as int,
                ));
            },
        }
        i = i + 1;
    }
    out
}

/// Where a chip is drawn: on the line that holds all of it, at local byte
/// offsets. A chip that no single line holds is not drawn.
pub fn place_decoration(spans: &Vec<LineSpan>, d: &Decoration) -> (r: Option<Highlight>)
    requires
        d.byte_range.start <= d.byte_range.end,
    ensures
        match r {
            Some(h) => {
                &&& h.line < spans@.len()
                &&& spans@[h.line as int].byte_start <= d.byte_range.start
                &&& d.byte_range.end <= spans@[h.line as int].byte_end
                &&& h.start == d.byte_range.start - spans@[h.line as int].byte_start
                &&& h.end == d.byte_range.end - spans@[h.line as int].byte_start
                &&& forall|i: int|
                    0 <= i < h.line ==> !((#[trigger] spans@[i]).byte_start <= d.byte_range.start
                        && d.byte_range.end <= spans@[i].byte_end)
            },
            None => forall|i: int|
                0 <= i < spans@.len() ==> !((#[trigger] spans@[i]).byte_start <= d.byte_range.start
                    && d.byte_range.end <= spans@[i].byte_end),
        },
{
    let mut i: usize = 0;
    while i < spans.len()
        invariant
            i <= spans@.len(),
            d.byte_range.start <= d.byte_range.end,
            forall|j: int|
                0 <= j < i ==> !((#[trigger] spans@[j]).byte_start <= d.byte_range.start
                    && d.byte_range.end <= spans@[j].byte_end),
        decreases spans@.len() - i,
    {
        let l = spans[i];
        if d.byte_range.start >= l.byte_start && d.byte_range.end <= l.byte_end {
            return Some(
                Highlight {
                    line: i,
                    start: d.byte_range.start - l.byte_start,
                    end: d.byte_range.end - l.byte_start,
                },
            );
        }
        i = i + 1;
    }
    None
}

/// Whether a chip is drawn as selected: the cursor stands right behind it.
pub fn decoration_is_selected(d: &Decoration, cursor: usize) -> (r: bool)
    ensures
        r == (d.byte_range.end == cursor),
{
    d.byte_range.end == cursor
}

/// The line on which the caret at `cursor` is drawn, and its offset there: the
/// first line that holds it, or else the last line. Without lines there is
/// none.
pub fn place_caret(spans: &Vec<LineSpan>, cursor: usize) -> (r: Option<(usize, usize)>)
    ensures
        match r {
            Some(p) => {
                let l = spans@[p.0 as int];
                &&& p.0 < spans@.len()
                &&& p.1 == (if cursor >= l.byte_start {
                    cursor - l.byte_start
                } else {
                    0
                })
                &&& l.byte_start <= cursor <= l.byte_end || p.0 == spans@.len() - 1
                &&& forall|i: int|
                    0 <= i < p.0 ==> !((#[trigger] spans@[i]).byte_start <= cursor
                        <= spans@[i].byte_end)
            },
            None => spans@.len() == 0,
        },
{
    let mut i: usize = 0;
    while i < spans.len()
        invariant
            i <= spans@.len(),
            forall|j: int|
                0 <= j < i ==> !((#[trigger] spans@[j]).byte_start <= cursor <= spans@[j].byte_end),
        decreases spans@.len() - i,
    {
        let l = spans[i];
        if cursor >= l.byte_start && cursor <= l.byte_end {
            return Some((i, cursor - l.byte_start));
        }
        i = i + 1;
    }
    if spans.len() == 0 {
        return None;
    }
    let last: usize = spans.len() - 1;
    let l = spans[last];
    let at: usize = if cursor >= l.byte_start {
        cursor - l.byte_start
    } else {
        0
    };
    Some((last, at))
}

/// The byte offset in the text that a hit at byte `in_line` of a line stands
/// for; a hit past the line stands for its end.
pub fn offset_of_hit(line: &LineSpan, in_line: usize) -> (r: usize)
    requires
        line.byte_start <= line.byte_end,
    ensures
        r == lines::min(line.byte_start + in_line, line.byte_end as int),
{
    if in_line <= line.byte_end - line.byte_start {
        line.byte_start + in_line
    } else {
        line.byte_end
    }
}

/// The rows above line `i` of a text whose lines wrap `wraps` times each: a
/// line takes one row more than it wraps.
pub open spec fn rows_above(wraps: Seq<usize>, i: int) -> int
    decreases i,
{
    if i <= 0 {
        0
    } else {
        rows_above(wraps, i - 1) + wraps[i - 1] + 1
    }
}

/// All the rows of a text; an empty one takes one row.
pub open spec fn rows_in_all(wraps: Seq<usize>) -> int {
    if wraps.len() == 0 {
        1
    } else {
        rows_above(wraps, wraps.len() as int)
    }
}

/// The rows of one line.
#[derive(Clone, Copy, Debug, PartialEq, Eq, Structural)]
pub struct RowSpan {
    /// The rows above it.
    pub top: usize,
    pub rows: usize,
}

/// More lines take more rows.
pub proof fn lemma_rows_above(wraps: Seq<usize>, i: int, j: int)
    requires
        0 <= i <= j <= wraps.len(),
    ensures
        i <= rows_above(wraps, i),
        rows_above(wraps, i) + (j - i) <= rows_above(wraps, j),
    decreases j,
{
    if i < j {
        lemma_rows_above(wraps, i, j - 1);
    } else if j > 0 {
        lemma_rows_above(wraps, i - 1, j - 1);
    }
}

/// Every row of a text belongs to exactly one of its lines.
pub proof fn rows_are_shared_out(wraps: Seq<usize>, row: int)
    requires
        0 <= row < rows_above(wraps, wraps.len() as int),
    ensures
        exists|i: int|
            0 <= i < wraps.len() && #[trigger] rows_above(wraps, i) <= row < rows_above(
                wraps,
                i + 1,
            ),
        forall|i: int, j: int|
            0 <= i < wraps.len() && 0 <= j < wraps.len() && #[trigger] rows_above(wraps, i) <= row
                < rows_above(wraps, i + 1) && #[trigger] rows_above(wraps, j) <= row < rows_above(
                wraps,
                j + 1,
            ) ==> i == j,
{
    lemma_row_owner(wraps, row, wraps.len() as int);
    assert forall|i: int, j: int|
        0 <= i < wraps.len() && 0 <= j < wraps.len() && #[trigger] rows_above(wraps, i) <= row
            < rows_above(wraps, i + 1) && #[trigger] rows_above(wraps, j) <= row < rows_above(
            wraps,
            j + 1,
        ) implies i == j by {
        if i < j {
            lemma_rows_above(wraps, i + 1, j);
        } else if j < i {
            lemma_rows_above(wraps, j + 1, i);
        }
    }
}

proof fn lemma_row_owner(wraps: Seq<usize>, row: int, n: int)
    requires
        0 <= n <= wraps.len(),
        0 <= row < rows_above(wraps, n),
    ensures
        exists|i: int|
            0 <= i < n && #[trigger] rows_above(wraps, i) <= row < rows_above(wraps, i + 1),
    decreases n,
{
    if n > 0 {
        if row >= rows_above(wraps, n - 1) {
            assert(rows_above(wraps, n - 1) <= row < rows_above(wraps, n - 1 + 1));
        } else {
            lemma_row_owner(wraps, row, n - 1);
        }
    }
}

/// Where the lines of a text are drawn, in rows, given how often each of them
/// wraps.
pub fn row_layout(wraps: &Vec<usize>) -> (out: Vec<RowSpan>)
    requires
        rows_in_all(wraps@) <= usize::MAX,
    ensures
        out@.len() == wraps@.len(),
        forall|i: int|
            0 <= i < out@.len() ==> (#[trigger] out@[i]).top == rows_above(wraps@, i)
                && out@[i].rows == wraps@[i] + 1,
{
    let mut out: Vec<RowSpan> = Vec::new();
    let mut top: usize = 0;
    let mut i: usize = 0;
    while i < wraps.len()
        invariant
            i <= wraps@.len(),
            rows_in_all(wraps@) <= usize::MAX,
            top == rows_above(wraps@, i as int),
            out@.len() == i,
            forall|j: int|
                0 <= j < i ==> (#[trigger] out@[j]).top == rows_above(wraps@, j) && out@[j].rows
                    == wraps@[j] + 1,
        decreases wraps@.len() - i,
    {
        proof {
            lemma_rows_above(wraps@, i + 1, wraps@.len() as int);
            lemma_rows_above(wraps@, i as int, i + 1);
        }
        let rows: usize = wraps[i] + 1;
        out.push(RowSpan { top, rows });
        top = top + rows;
        i = i + 1;
    }
    out
}

/// How many rows a text takes.
pub fn total_rows(wraps: &Vec<usize>) -> (r: usize)
    requires
        rows_in_all(wraps@) <= usize::MAX,
    ensures
        r == rows_in_all(wraps@),
{
    let layout = row_layout(wraps);
    if layout.len() == 0 {
        return 1;
    }
    let last = layout[layout.len() - 1];
    last.top + last.rows
}

/// The line that the pointer is on, given the row that it is in, or `None` when
/// it is above the text: a pointer outside is on the nearest line. Without
/// lines there is none.
pub fn line_under(wraps: &Vec<usize>, row: Option<usize>) -> (r: Option<usize>)
    requires
        rows_in_all(wraps@) <= usize::MAX,
    ensures
        match r {
            None => wraps@.len() == 0,
            Some(i) => i < wraps@.len() && match row {
                None => i == 0,
                Some(k) => if k < rows_in_all(wraps@) {
                    rows_above(wraps@, i as int) <= k < rows_above(wraps@, i + 1)
                } else {
                    i == wraps@.len() - 1
                },
            },
        },
{
    if wraps.len() == 0 {
        return None;
    }
    let k: usize = match row {
        None => {
            return Some(0);
        },
        Some(k) => k,
    };
    let layout = row_layout(wraps);
    let last: usize = layout.len() - 1;
    proof {
        assert forall|j: int| 0 <= j < layout@.len() implies (#[trigger] layout@[j]).top
            + layout@[j].rows <= usize::MAX by {
            assert(layout@[j].top + layout@[j].rows == rows_above(wraps@, j + 1));
            lemma_rows_above(wraps@, j + 1, wraps@.len() as int);
        }
    }
    let mut i: usize = 0;
    while i < last && layout[i].top + layout[i].rows <= k
        invariant
            i <= last == wraps@.len() - 1,
            layout@.len() == wraps@.len(),
            forall|j: int|
                0 <= j < layout@.len() ==> (#[trigger] layout@[j]).top == rows_above(wraps@, j)
                    && layout@[j].rows == wraps@[j] + 1 && layout@[j].top + layout@[j].rows
                    <= usize::MAX,
            rows_above(wraps@, i as int) <= k,
        decreases last - i,
    {
        assert(layout@[i as int].top + layout@[i as int].rows == rows_above(wraps@, i + 1));
        i = i + 1;
    }
    proof {
        assert(layout@[i as int].top + layout@[i as int].rows == rows_above(wraps@, i + 1));
        lemma_rows_above(wraps@, i + 1, wraps@.len() as int);
    }
    Some(i)
}

/// The spans of a text are its lines: the first begins at `k`, each next one behind the line
/// break that ends the one before, the last one ends with the text, and no line break is in
/// any of them.
pub proof fn spans_are_the_lines(s: Seq<char>, k: int, i: int)
    requires
        0 <= k <= s.len(),
        0 <= i < spans_from(s, k).len(),
    ensures
        ({
            let spans = spans_from(s, k);
            let line = text::between(s, spans[i].0, spans[i].1);
            &&& spans[0].0 == text::offset_of(s, k)
            &&& spans.last().1 == text::width(s)
            &&& text::is_boundary(s, spans[i].0) && text::is_boundary(s, spans[i].1)
            &&& spans[i].0 <= spans[i].1
            &&& forall|j: int| 0 <= j < line.len() ==> line[j] != '\n'
            &&& i + 1 < spans.len() ==> {
                &&& spans[i + 1].0 == spans[i].1 + 1
                &&& spans[i].1 < text::width(s)
                &&& s[text::index_of(s, spans[i].1)] == '\n'
            }
        }),
    decreases s.len() - k,
{
    let end = lines::line_end_index(s, k);
    lines::lemma_line_end(s, k);
    let spans = spans_from(s, k);
    text::lemma_index_of_offset(s, k);
    text::lemma_index_of_offset(s, end);
    text::lemma_offset_monotone(s, k, end);
    if end < s.len() {
        let rest = spans_from(s, end + 1);
        text::lemma_offset_step(s, end);
        text::lemma_offset_monotone(s, end, s.len() as int);
        assert(s.take(s.len() as int) =~= s);
        assert(rest.len() > 0);
        spans_are_the_lines(s, end + 1, 0);
        assert(spans.last() == rest.last());
        if i > 0 {
            spans_are_the_lines(s, end + 1, i - 1);
            assert(spans[i] == rest[i - 1]);
            if i + 1 < spans.len() {
                assert(spans[i + 1] == rest[i]);
            }
        } else {
            assert(spans[1] == rest[0]);
            let line = text::between(s, spans[0].0, spans[0].1);
            assert forall|j: int| 0 <= j < line.len() implies line[j] != '\n' by {
                assert(line[j] == s[k + j]);
            }
        }
    } else {
        assert(s.take(s.len() as int) =~= s);
        let line = text::between(s, spans[0].0, spans[0].1);
        assert forall|j: int| 0 <= j < line.len() implies line[j] != '\n' by {
            assert(line[j] == s[k + j]);
        }
    }
}

/// A composition is underlined where it lies on the line, from the first byte of it to the
/// last, and nothing else is.
pub proof fn compositions_are_underlined(len: usize, byte_start: int, m: (int, int))
    ensures
        ({
            let runs = runs_of(len, byte_start, Some(m));
            let lo = super::max(m.0, byte_start);
            let hi = lines::min(m.1, byte_start + len);
            let plain = |n: int| Run { len: n as usize, underlined: false };
            let marked = Run { len: (hi - lo) as usize, underlined: true };
            &&& lo >= hi ==> runs == seq![Run { len, underlined: false }]
            &&& lo < hi && lo == byte_start && hi == byte_start + len ==> runs == seq![marked]
            &&& lo < hi && lo > byte_start && hi == byte_start + len ==> runs == seq![
                plain(lo - byte_start),
                marked,
            ]
            &&& lo < hi && lo == byte_start && hi < byte_start + len ==> runs == seq![
                marked,
                plain(byte_start + len - hi),
            ]
            &&& lo < hi && lo > byte_start && hi < byte_start + len ==> runs == seq![
                plain(lo - byte_start),
                marked,
                plain(byte_start + len - hi),
            ]
            &&& runs_of(len, byte_start, None) == seq![Run { len, underlined: false }]
        }),
{
    let runs = runs_of(len, byte_start, Some(m));
    let lo = super::max(m.0, byte_start);
    let hi = lines::min(m.1, byte_start + len);
    let a = local_offset(m.0, byte_start, len as int);
    let b = local_offset(m.1, byte_start, len as int);
    if lo < hi {
        assert(a == lo - byte_start && b == hi - byte_start);
        let marked = Run { len: (hi - lo) as usize, underlined: true };
        if lo == byte_start && hi == byte_start + len {
            assert(runs =~= seq![marked]);
        } else if lo > byte_start && hi == byte_start + len {
            assert(runs =~= seq![
                Run { len: (lo - byte_start) as usize, underlined: false },
                marked,
            ]);
        } else if lo == byte_start {
            assert(runs =~= seq![
                marked,
                Run { len: (byte_start + len - hi) as usize, underlined: false },
            ]);
        } else {
            assert(runs =~= seq![
                Run { len: (lo - byte_start) as usize, underlined: false },
                marked,
                Run { len: (byte_start + len - hi) as usize, underlined: false },
            ]);
        }
    }
}

/// A selection is shown on every line that it covers some of, on the bytes of the line that
/// are selected, and nowhere else.
pub proof fn selections_are_shown_on_their_lines(
    spans: Seq<(int, int)>,
    a: int,
    b: int,
    n: nat,
    h: (int, int, int),
)
    requires
        n <= spans.len(),
        a <= b,
    ensures
        highlights(spans, a, b, n).contains(h) <==> {
            &&& 0 <= h.0 < n
            &&& h.1 < h.2
            &&& h.1 == super::max(a, spans[h.0].0) - spans[h.0].0
            &&& h.2 == lines::min(b, spans[h.0].1) - spans[h.0].0
        },
    decreases n,
{
    if n > 0 {
        let m = (n - 1) as nat;
        selections_are_shown_on_their_lines(spans, a, b, m, h);
        let last = highlight_on(spans, a, b, n - 1);
        vstd::seq_lib::lemma_seq_concat_contains_all_elements(
            highlights(spans, a, b, m),
            last,
            h,
        );
        if last.len() > 0 {
            let first = super::max(a, spans[n - 1].0) - spans[n - 1].0;
            let end = lines::min(b, spans[n - 1].1) - spans[n - 1].0;
            assert(last[0] == (n - 1, first, end));
        }
    }
}

/// A line takes as many rows as it is wrapped, and one more; a text without lines takes one
/// row.
pub proof fn wrapped_lines_take_more_rows(wraps: Seq<usize>, i: int)
    requires
        0 <= i < wraps.len(),
    ensures
        rows_above(wraps, 0) == 0,
        rows_above(wraps, i + 1) - rows_above(wraps, i) == wraps[i] + 1,
        rows_in_all(wraps) == rows_above(wraps, wraps.len() as int),
        rows_in_all(seq![]) == 1,
{
}

/// A selection is shown once on a line, from the first line to the last.
pub proof fn selections_are_shown_in_order(
    spans: Seq<(int, int)>,
    a: int,
    b: int,
    n: nat,
    i: int,
    j: int,
)
    requires
        0 <= i < j < highlights(spans, a, b, n).len(),
    ensures
        highlights(spans, a, b, n)[i].0 < highlights(spans, a, b, n)[j].0,
    decreases n,
{
    if n > 0 {
        let m = (n - 1) as nat;
        let before = highlights(spans, a, b, m);
        if j < before.len() {
            selections_are_shown_in_order(spans, a, b, m, i, j);
        } else {
            lemma_lines_below(spans, a, b, m, i);
        }
    }
}

proof fn lemma_lines_below(spans: Seq<(int, int)>, a: int, b: int, n: nat, i: int)
    requires
        0 <= i < highlights(spans, a, b, n).len(),
    ensures
        highlights(spans, a, b, n)[i].0 < n,
    decreases n,
{
    if n > 0 && i < highlights(spans, a, b, (n - 1) as nat).len() {
        lemma_lines_below(spans, a, b, (n - 1) as nat, i);
    }
}

} // verus!
