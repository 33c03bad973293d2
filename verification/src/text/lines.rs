//! Logical lines, separated by `'\n'`.

use vstd::prelude::*;

use crate::text;
use crate::text::chars;
use crate::text::index;

verus! {

/// The index of the line break that closes the line of character `k`, or the
/// length of the text.
pub open spec fn line_end_index(s: Seq<char>, k: int) -> int
    decreases s.len() - k,
{
    if k >= s.len() {
        s.len() as int
    } else if s[k] == '\n' {
        k
    } else {
        line_end_index(s, k + 1)
    }
}

/// The index of the character that starts the line of character `k`.
pub open spec fn line_start_index(s: Seq<char>, k: int) -> int
    decreases k,
{
    if k <= 0 {
        0
    } else if s[k - 1] == '\n' {
        k
    } else {
        line_start_index(s, k - 1)
    }
}

pub open spec fn min(a: int, b: int) -> int {
    if a <= b {
        a
    } else {
        b
    }
}

/// The character reached by going one line up from `k` in the same column;
/// the start of the text on its first line, the end of a shorter line.
pub open spec fn line_up_index(s: Seq<char>, k: int) -> int {
    let start = line_start_index(s, k);
    if start == 0 {
        0
    } else {
        min(line_start_index(s, start - 1) + (k - start), start - 1)
    }
}

/// The character reached by going one line down from `k` in the same column;
/// the end of the text on its last line, the end of a shorter line.
pub open spec fn line_down_index(s: Seq<char>, k: int) -> int {
    let end = line_end_index(s, k);
    if end == s.len() {
        s.len() as int
    } else {
        min(end + 1 + (k - line_start_index(s, k)), line_end_index(s, end + 1))
    }
}

/// A line holds no line break before its end.
pub proof fn lemma_line_end(s: Seq<char>, k: int)
    requires
        0 <= k <= s.len(),
    ensures
        k <= line_end_index(s, k) <= s.len(),
        line_end_index(s, k) < s.len() ==> s[line_end_index(s, k)] == '\n',
        forall|j: int| k <= j < line_end_index(s, k) ==> s[j] != '\n',
    decreases s.len() - k,
{
    if k < s.len() && s[k] != '\n' {
        lemma_line_end(s, k + 1);
    }
}

/// The first line break from `k` on, or the end of the text, closes the line.
pub proof fn lemma_line_end_unique(s: Seq<char>, k: int, e: int)
    requires
        0 <= k <= e <= s.len(),
        forall|j: int| k <= j < e ==> s[j] != '\n',
        e < s.len() ==> s[e] == '\n',
    ensures
        line_end_index(s, k) == e,
    decreases e - k,
{
    if k < e {
        lemma_line_end_unique(s, k + 1, e);
    }
}

/// A line holds no line break after its start.
pub proof fn lemma_line_start(s: Seq<char>, k: int)
    requires
        0 <= k <= s.len(),
    ensures
        0 <= line_start_index(s, k) <= k,
        line_start_index(s, k) > 0 ==> s[line_start_index(s, k) - 1] == '\n',
        forall|j: int| line_start_index(s, k) <= j < k ==> s[j] != '\n',
    decreases k,
{
    if k > 0 && s[k - 1] != '\n' {
        lemma_line_start(s, k - 1);
    }
}

fn line_end_in(v: &Vec<char>, k: usize) -> (r: usize)
    requires
        k <= v@.len(),
    ensures
        r == line_end_index(v@, k as int),
        k <= r <= v@.len(),
{
    let mut i: usize = k;
    while i < v.len() && v[i] != '\n'
        invariant
            k <= i <= v@.len(),
            line_end_index(v@, i as int) == line_end_index(v@, k as int),
        decreases v@.len() - i,
    {
        i = i + 1;
    }
    i
}

fn line_start_in(v: &Vec<char>, k: usize) -> (r: usize)
    requires
        k <= v@.len(),
    ensures
        r == line_start_index(v@, k as int),
        r <= k,
{
    let mut i: usize = k;
    while i > 0 && v[i - 1] != '\n'
        invariant
            i <= k <= v@.len(),
            line_start_index(v@, i as int) == line_start_index(v@, k as int),
        decreases i,
    {
        i = i - 1;
    }
    i
}

/// The byte offset of the line break that closes the line containing
/// `offset`, or the end of the text.
pub fn line_end(s: &str, offset: usize) -> (r: usize)
    requires
        text::is_boundary(s@, offset as int),
    ensures
        r == text::offset_of(s@, line_end_index(s@, text::index_of(s@, offset as int))),
        text::is_boundary(s@, r as int),
        r <= text::width(s@),
{
    let v = chars::to_chars(s);
    let total: usize = text::byte_len(s);
    let k: usize = index::index_reaching(&v, offset);
    let e: usize = line_end_in(&v, k);
    proof {
        text::lemma_index_of_offset(s@, e as int);
        text::lemma_offset_monotone(s@, e as int, s@.len() as int);
    }
    index::offset_at(&v, e)
}

/// The byte offset of the character that starts the line containing `offset`.
pub fn line_start(s: &str, offset: usize) -> (r: usize)
    requires
        text::is_boundary(s@, offset as int),
    ensures
        r == text::offset_of(s@, line_start_index(s@, text::index_of(s@, offset as int))),
        text::is_boundary(s@, r as int),
        r <= offset,
{
    let v = chars::to_chars(s);
    let total: usize = text::byte_len(s);
    let k: usize = index::index_reaching(&v, offset);
    let b: usize = line_start_in(&v, k);
    proof {
        text::lemma_boundary(s@, offset as int);
        text::lemma_index_of_offset(s@, b as int);
        text::lemma_offset_monotone(s@, b as int, k as int);
    }
    index::offset_at(&v, b)
}

/// The byte offset one line up from `offset`, in the same column.
pub fn offset_one_line_up(s: &str, offset: usize) -> (r: usize)
    requires
        text::is_boundary(s@, offset as int),
    ensures
        r == text::offset_of(s@, line_up_index(s@, text::index_of(s@, offset as int))),
        text::is_boundary(s@, r as int),
        r <= text::width(s@),
{
    let v = chars::to_chars(s);
    let total: usize = text::byte_len(s);
    let k: usize = index::index_reaching(&v, offset);
    let start: usize = line_start_in(&v, k);
    proof {
        text::lemma_ends_are_boundaries(s@);
        text::lemma_index_of_offset(s@, 0);
        assert(s@.take(0) =~= Seq::<char>::empty());
    }
    if start == 0 {
        return 0;
    }
    let prev_end: usize = start - 1;
    let prev_start: usize = line_start_in(&v, prev_end);
    let target: usize = if k - start <= prev_end - prev_start {
        prev_start + (k - start)
    } else {
        prev_end
    };
    proof {
        text::lemma_index_of_offset(s@, target as int);
        text::lemma_offset_monotone(s@, target as int, s@.len() as int);
    }
    index::offset_at(&v, target)
}

/// The byte offset one line down from `offset`, in the same column.
pub fn offset_one_line_down(s: &str, offset: usize) -> (r: usize)
    requires
        text::is_boundary(s@, offset as int),
    ensures
        r == text::offset_of(s@, line_down_index(s@, text::index_of(s@, offset as int))),
        text::is_boundary(s@, r as int),
        r <= text::width(s@),
{
    let v = chars::to_chars(s);
    let total: usize = text::byte_len(s);
    let k: usize = index::index_reaching(&v, offset);
    let start: usize = line_start_in(&v, k);
    let end: usize = line_end_in(&v, k);
    let target: usize = if end == v.len() {
        end
    } else {
        let next_start: usize = end + 1;
        let next_end: usize = line_end_in(&v, next_start);
        if k - start <= next_end - next_start {
            next_start + (k - start)
        } else {
            next_end
        }
    };
    proof {
        text::lemma_index_of_offset(s@, target as int);
        text::lemma_offset_monotone(s@, target as int, s@.len() as int);
    }
    index::offset_at(&v, target)
}

/// One line of a text.
pub struct LineSlice<'a> {
    /// The line without its line break.
    pub text: &'a str,
    /// Whether a line break closes it.
    pub has_trailing_newline: bool,
}

impl<'a> LineSlice<'a> {
    /// The line together with its line break.
    pub open spec fn full(self) -> Seq<char> {
        if self.has_trailing_newline {
            self.text@.push('\n')
        } else {
            self.text@
        }
    }

    /// Bytes of the line without its line break.
    pub fn bytes_without_trailing_newline(&self) -> (n: usize)
        ensures
            n == text::width(self.text@),
    {
        text::byte_len(self.text)
    }

    /// Bytes of the line with its line break.
    pub fn full_len(&self) -> (n: usize)
        requires
            text::width(self.full()) <= usize::MAX,
        ensures
            n == text::width(self.full()),
    {
        assert(self.text@.push('\n').drop_last() =~= self.text@);
        text::byte_len(self.text) + if self.has_trailing_newline {
            1usize
        } else {
            0usize
        }
    }
}

/// The lines of `s`, each with whether a line break closes it. A text that
/// ends in a line break has no empty line after it.
pub open spec fn lines_of(s: Seq<char>) -> Seq<(Seq<char>, bool)>
    decreases s.len(),
{
    let end = line_end_index(s, 0);
    if s.len() == 0 {
        seq![]
    } else if end < 0 || end >= s.len() {
        seq![(s, false)]
    } else {
        seq![(s.take(end), true)] + lines_of(s.skip(end + 1))
    }
}

/// The text that a sequence of lines makes up.
pub open spec fn joined(lines: Seq<(Seq<char>, bool)>) -> Seq<char>
    decreases lines.len(),
{
    if lines.len() == 0 {
        seq![]
    } else {
        let line = lines[0];
        (if line.1 {
            line.0.push('\n')
        } else {
            line.0
        }) + joined(lines.drop_first())
    }
}

/// Splitting into lines loses nothing: the lines make up the text.
pub proof fn lines_make_up_the_text(s: Seq<char>)
    ensures
        joined(lines_of(s)) == s,
    decreases s.len(),
{
    if s.len() > 0 {
        let end = line_end_index(s, 0);
        lemma_line_end(s, 0);
        if end >= s.len() {
            let l = seq![(s, false)];
            assert(l.drop_first() =~= Seq::<(Seq<char>, bool)>::empty());
            assert(joined(l.drop_first()) =~= Seq::<char>::empty());
            assert(joined(l) =~= s);
        } else {
            let rest = lines_of(s.skip(end + 1));
            lines_make_up_the_text(s.skip(end + 1));
            assert((seq![(s.take(end), true)] + rest).drop_first() =~= rest);
            assert(s.take(end).push('\n') + s.skip(end + 1) =~= s);
        }
    }
}

/// What a list of lines says, line by line.
pub open spec fn line_views(lines: Seq<LineSlice<'_>>) -> Seq<(Seq<char>, bool)> {
    lines.map_values(|l: LineSlice<'_>| (l.text@, l.has_trailing_newline))
}

/// The lines of `s`.
pub fn split_keeping_newlines<'a>(s: &'a str) -> (out: Vec<LineSlice<'a>>)
    ensures
        line_views(out@) == lines_of(s@),
{
    let mut out: Vec<LineSlice<'a>> = Vec::new();
    let mut rest: &'a str = s;
    assert(line_views(out@) + lines_of(s@) =~= lines_of(s@));
    loop
        invariant_except_break
            line_views(out@) + lines_of(rest@) == lines_of(s@),
        ensures
            line_views(out@) == lines_of(s@),
        decreases rest@.len(),
    {
        let v = chars::to_chars(rest);
        if v.len() == 0 {
            assert(line_views(out@) + lines_of(rest@) =~= line_views(out@));
            break;
        }
        let end: usize = line_end_in(&v, 0);
        let ghost before_push = out@;
        if end == v.len() {
            out.push(LineSlice { text: rest, has_trailing_newline: false });
            assert(line_views(out@) =~= line_views(before_push) + seq![(rest@, false)]);
            break;
        }
        let total: usize = text::byte_len(rest);
        let at: usize = index::offset_at(&v, end);
        proof {
            lemma_line_end(v@, 0);
            text::lemma_index_of_offset(v@, end as int);
            text::lemma_index_of_offset(v@, end + 1);
            text::lemma_offset_step(v@, end as int);
            text::lemma_offset_monotone(v@, end + 1, v@.len() as int);
        }
        let line = text::split(rest, at).0;
        let tail = text::split(rest, at + 1).1;
        out.push(LineSlice { text: line, has_trailing_newline: true });
        proof {
            let item = (rest@.take(end as int), true);
            assert(line_views(out@) =~= line_views(before_push) + seq![item]);
            assert(lines_of(rest@) == seq![item] + lines_of(tail@));
            assert(line_views(out@) + lines_of(tail@) =~= line_views(before_push) + lines_of(
                rest@,
            ));
        }
        rest = tail;
    }
    out
}

/// Down leads to the next line. If that is long enough, the cursor has as many
/// characters of its line before it as it had; if not, it is at the end of the
/// line. The line of `k` is `a..e`, and the next one is `e + 1..f`.
pub proof fn down_keeps_the_column(s: Seq<char>, k: int, a: int, e: int, f: int)
    requires
        0 <= a <= k <= e < f <= s.len(),
        a == 0 || s[a - 1] == '\n',
        forall|j: int| a <= j < e ==> s[j] != '\n',
        s[e] == '\n',
        forall|j: int| e < j < f ==> s[j] != '\n',
        f == s.len() || s[f] == '\n',
    ensures
        e < line_down_index(s, k) <= f,
        k - a <= f - (e + 1) ==> line_down_index(s, k) - (e + 1) == k - a,
        k - a > f - (e + 1) ==> line_down_index(s, k) == f,
{
    lemma_line_end_unique(s, k, e);
    lemma_line_end_unique(s, e + 1, f);
    lemma_line_start_unique(s, k, a);
}

/// Down leads to the end of the text from its last line.
pub proof fn down_ends_at_the_end(s: Seq<char>, k: int)
    requires
        0 <= k <= s.len(),
        forall|j: int| k <= j < s.len() ==> s[j] != '\n',
    ensures
        line_down_index(s, k) == s.len(),
{
    lemma_line_end_unique(s, k, s.len() as int);
}

/// Up leads to the line before. If that is long enough, the cursor has as many
/// characters of its line before it as it had; if not, it is at the end of the
/// line. The line of `k` begins at `a`, and the one before it is `b..a - 1`.
pub proof fn up_keeps_the_column(s: Seq<char>, k: int, a: int, b: int)
    requires
        0 <= b < a <= k <= s.len(),
        forall|j: int| a <= j < k ==> s[j] != '\n',
        s[a - 1] == '\n',
        forall|j: int| b <= j < a - 1 ==> s[j] != '\n',
        b == 0 || s[b - 1] == '\n',
    ensures
        b <= line_up_index(s, k) < a,
        k - a <= (a - 1) - b ==> line_up_index(s, k) - b == k - a,
        k - a > (a - 1) - b ==> line_up_index(s, k) == a - 1,
{
    lemma_line_start_unique(s, k, a);
    lemma_line_start_unique(s, a - 1, b);
}

/// Up leads to the start of the text from its first line.
pub proof fn up_ends_at_the_start(s: Seq<char>, k: int)
    requires
        0 <= k <= s.len(),
        forall|j: int| 0 <= j < k ==> s[j] != '\n',
    ensures
        line_up_index(s, k) == 0,
{
    lemma_line_start_unique(s, k, 0);
}

/// The place after the last line break before `k`, or the start of the text,
/// starts the line.
pub proof fn lemma_line_start_unique(s: Seq<char>, k: int, a: int)
    requires
        0 <= a <= k <= s.len(),
        a == 0 || s[a - 1] == '\n',
        forall|j: int| a <= j < k ==> s[j] != '\n',
    ensures
        line_start_index(s, k) == a,
    decreases k - a,
{
    if a < k {
        lemma_line_start_unique(s, k - 1, a);
    }
}

/// No line holds a line break. Every line but the last is closed by one, and
/// the last one if and only if the text ends in one; an open line is not empty.
pub proof fn lines_hold_no_break(s: Seq<char>, i: int)
    requires
        0 <= i < lines_of(s).len(),
    ensures
        forall|j: int| 0 <= j < lines_of(s)[i].0.len() ==> lines_of(s)[i].0[j] != '\n',
        i < lines_of(s).len() - 1 ==> lines_of(s)[i].1,
        i == lines_of(s).len() - 1 ==> lines_of(s)[i].1 == (s.last() == '\n'),
        !lines_of(s)[i].1 ==> lines_of(s)[i].0.len() > 0,
        s.len() > 0,
    decreases s.len(),
{
    lemma_line_end(s, 0);
    let end = line_end_index(s, 0);
    if s.len() > 0 && end < s.len() {
        let rest = s.skip(end + 1);
        assert(lines_of(s) == seq![(s.take(end), true)] + lines_of(rest));
        if i > 0 {
            assert(lines_of(s)[i] == lines_of(rest)[i - 1]);
            lines_hold_no_break(rest, i - 1);
            assert(rest.last() == s.last());
        } else if rest.len() == 0 {
            assert(s.last() == s[end]);
        } else {
            lemma_line_end(rest, 0);
            assert(lines_of(rest).len() > 0);
        }
    }
}

} // verus!
