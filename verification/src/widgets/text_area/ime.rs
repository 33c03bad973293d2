//! A text area as the platform's text input service sees it: ranges count
//! UTF-16 code units.

use core::ops::Range;

use vstd::prelude::*;

use super::AreaState;
use super::Outcome;
use super::TextArea;
use crate::text;
use crate::text::chars;
use crate::text::grapheme;
use crate::text::index;
use crate::text::lines;
use crate::text::utf16;

verus! {

impl AreaState {
    /// The byte range that the UTF-16 range `r` stands for: each end is moved
    /// back to the start of a cluster, and the smaller comes first.
    pub open spec fn from_utf16(self, r: (int, int)) -> (int, int) {
        let a = self.snapped(utf16::from_units(self.text, r.0) as int);
        let b = self.snapped(utf16::from_units(self.text, r.1) as int);
        (lines::min(a, b), super::max(a, b))
    }

    /// The UTF-16 range that the byte range `r` stands for.
    pub open spec fn to_utf16(self, r: (int, int)) -> (int, int) {
        (utf16::to_units(self.text, r.0) as int, utf16::to_units(self.text, r.1) as int)
    }

    /// The byte range that new text goes in the place of. During a
    /// composition a given range counts from its start, and without one the
    /// whole composition goes. Otherwise it is the given range, or else the
    /// selection.
    pub open spec fn replacement_range(self, r: Option<(int, int)>) -> (int, int) {
        match (self.marked, r) {
            (Some(m), Some(u)) => {
                let composed = text::between(self.text, m.0, m.1);
                (
                    m.0 + utf16::from_units(composed, u.0) as int,
                    m.0 + utf16::from_units(composed, u.1) as int,
                )
            },
            (None, Some(u)) => self.from_utf16(u),
            (Some(m), None) => m,
            (None, None) => (self.start, self.end),
        }
    }
}

/// A range as a pair of mathematical integers.
pub open spec fn pair(r: Range<usize>) -> (int, int) {
    (r.start as int, r.end as int)
}

/// An optional range as a pair of mathematical integers.
pub open spec fn pair_option(r: Option<Range<usize>>) -> Option<(int, int)> {
    match r {
        Some(r) => Some(pair(r)),
        None => None,
    }
}

/// The line breaks in `s`.
pub open spec fn breaks(s: Seq<char>) -> nat
    decreases s.len(),
{
    if s.len() == 0 {
        0
    } else {
        breaks(s.drop_last()) + if s.last() == '\n' {
            1nat
        } else {
            0nat
        }
    }
}

/// The index of the character that starts line `row`, when there is one.
pub open spec fn row_start(s: Seq<char>, row: nat) -> Option<int>
    decreases row,
{
    if row == 0 {
        Some(0)
    } else {
        match row_start(s, (row - 1) as nat) {
            Some(k) => if lines::line_end_index(s, k) < s.len() {
                Some(lines::line_end_index(s, k) + 1)
            } else {
                None
            },
            None => None,
        }
    }
}

impl TextArea {
    /// The UTF-16 range that the byte range `range` stands for.
    fn range_to_utf16(&self, range: &Range<usize>) -> (r: Range<usize>)
        ensures
            pair(r) == self@.to_utf16(pair(*range)),
    {
        let start: usize = utf16::utf16_offset_in_text(self.content(), range.start);
        let end: usize = utf16::utf16_offset_in_text(self.content(), range.end);
        start..end
    }

    /// The byte range that the UTF-16 range `range_utf16` stands for.
    fn range_from_utf16(&self, range_utf16: &Range<usize>) -> (r: Range<usize>)
        ensures
            pair(r) == self@.from_utf16(pair(*range_utf16)),
            super::range_of(self@.text, r.start as int, r.end as int),
    {
        let first: usize = utf16::byte_offset_from_utf16_in_text(self.content(), range_utf16.start);
        let last: usize = utf16::byte_offset_from_utf16_in_text(self.content(), range_utf16.end);
        let a: usize = grapheme::clamp_to_grapheme(self.content(), first);
        let b: usize = grapheme::clamp_to_grapheme(self.content(), last);
        if a <= b {
            a..b
        } else {
            b..a
        }
    }

    /// The byte range that new text goes in the place of.
    fn replacement_range_from_utf16(&self, range_utf16: &Option<Range<usize>>) -> (r: Range<usize>)
        requires
            self@.inv(),
        ensures
            pair(r) == self@.replacement_range(pair_option(*range_utf16)),
    {
        match (self.marked(), range_utf16) {
            (Some(m), Some(u)) => {
                let composed = text::slice(self.content(), m.start, m.end);
                proof {
                    text::lemma_boundary_order(self@.text, m.start as int, m.end as int);
                    text::lemma_boundary(self@.text, m.end as int);
                    utf16::from_units_is_boundary(composed@, u.start as int);
                    utf16::from_units_is_boundary(composed@, u.end as int);
                }
                let relative = utf16::byte_range_from_utf16_in_text(composed, u);
                m.start + relative.start..m.start + relative.end
            },
            (None, Some(u)) => self.range_from_utf16(u),
            (Some(m), None) => m,
            (None, None) => self.selection(),
        }
    }

    /// The text that a UTF-16 range stands for, and the range it was taken
    /// from.
    pub fn text_for_range(&self, range_utf16: Range<usize>) -> (r: (String, Range<usize>))
        ensures
            ({
                let bytes = self@.from_utf16(pair(range_utf16));
                &&& r.0@ == text::between(self@.text, bytes.0, bytes.1)
                &&& pair(r.1) == self@.to_utf16(bytes)
            }),
    {
        let range = self.range_from_utf16(&range_utf16);
        let actual = self.range_to_utf16(&range);
        (text::slice(self.content(), range.start, range.end).to_string(), actual)
    }

    /// The selection in UTF-16, and whether it grew leftward.
    pub fn selected_text_range(&self) -> (r: (Range<usize>, bool))
        ensures
            pair(r.0) == self@.to_utf16((self@.start, self@.end)),
            r.1 == self@.reversed,
    {
        let sel = self.selection();
        let reversed = self.selection_is_reversed();
        (self.range_to_utf16(&sel), reversed)
    }

    /// The composition in UTF-16.
    pub fn marked_text_range(&self) -> (r: Option<Range<usize>>)
        ensures
            match r {
                Some(u) => self@.marked matches Some(m) && pair(u) == self@.to_utf16(m),
                None => self@.marked is None,
            },
    {
        match self.marked() {
            Some(m) => Some(self.range_to_utf16(&m)),
            None => None,
        }
    }

    /// Puts `new_text` where the input service asks, and ends the composition.
    pub fn replace_text_in_range(&mut self, range_utf16: Option<Range<usize>>, new_text: &str) -> (o:
        Outcome)
        requires
            old(self)@.inv(),
        ensures
            super::heard(old(self)@, final(self)@, o),
            o == Outcome::Changed,
            ({
                let at = old(self)@.replacement_range(pair_option(range_utf16));
                final(self)@ == old(self)@.composed(at.0, at.1, new_text@, false, None)
            }),
            final(self)@.inv(),
            final(self)@.selection_ok(),
            old(self)@.chips_aligned() ==> final(self)@.chips_aligned(),
    {
        let range = self.replacement_range_from_utf16(&range_utf16);
        self.replace_range_inner(range, new_text, false, None)
    }

    /// Puts `new_text` where the input service asks, and makes it the
    /// composition. The new selection counts from the start of that place.
    pub fn replace_and_mark_text_in_range(
        &mut self,
        range_utf16: Option<Range<usize>>,
        new_text: &str,
        new_selected_range_utf16: Option<Range<usize>>,
    ) -> (o: Outcome)
        requires
            old(self)@.inv(),
            new_selected_range_utf16 is Some ==> old(self)@.replacement_range(
                pair_option(range_utf16),
            ).0 + text::width(new_text@) <= usize::MAX,
        ensures
            super::heard(old(self)@, final(self)@, o),
            o == Outcome::Changed,
            ({
                let at = old(self)@.replacement_range(pair_option(range_utf16));
                let selected = match new_selected_range_utf16 {
                    Some(u) => Some(
                        (
                            at.0 + utf16::from_units(new_text@, u.start as int) as int,
                            at.0 + utf16::from_units(new_text@, u.end as int) as int,
                        ),
                    ),
                    None => None,
                };
                final(self)@ == old(self)@.composed(at.0, at.1, new_text@, true, selected)
            }),
            final(self)@.inv(),
            final(self)@.selection_ok(),
            old(self)@.chips_aligned() ==> final(self)@.chips_aligned(),
    {
        let range = self.replacement_range_from_utf16(&range_utf16);
        let start: usize = range.start;
        let selected: Option<Range<usize>> = match &new_selected_range_utf16 {
            Some(u) => {
                proof {
                    utf16::from_units_is_boundary(new_text@, u.start as int);
                    utf16::from_units_is_boundary(new_text@, u.end as int);
                }
                let relative = utf16::byte_range_from_utf16_in_text(new_text, u);
                Some(start + relative.start..start + relative.end)
            },
            None => None,
        };
        self.replace_range_inner(range, new_text, true, selected)
    }

    /// The row and the column, in characters, at which the UTF-16 range
    /// `range_utf16` begins.
    pub fn cell_for_range(&self, range_utf16: Range<usize>) -> (r: (usize, usize))
        ensures
            ({
                let at = self@.from_utf16(pair(range_utf16)).0;
                let k = text::index_of(self@.text, at);
                &&& r.0 == breaks(text::before(self@.text, at))
                &&& r.1 == k - lines::line_start_index(self@.text, k)
            }),
    {
        let range = self.range_from_utf16(&range_utf16);
        let at: usize = range.start;
        let v = chars::to_chars(self.content());
        let total: usize = text::byte_len(self.content());
        let k: usize = index::index_reaching(&v, at);
        let mut row: usize = 0;
        let mut start: usize = 0;
        let mut i: usize = 0;
        assert(v@.take(0) =~= Seq::<char>::empty());
        while i < k
            invariant
                i <= k <= v@.len(),
                row <= i,
                row == breaks(v@.take(i as int)),
                start <= i,
                start == lines::line_start_index(v@, i as int),
            decreases k - i,
        {
            assert(v@.take(i + 1).drop_last() =~= v@.take(i as int));
            if v[i] == '\n' {
                row = row + 1;
                start = i + 1;
            }
            i = i + 1;
        }
        (row, k - start)
    }

    /// The UTF-16 offset of the character in line `row` at column `col`,
    /// counted in characters. A column past the end of the line stands for its
    /// end, a row past the last line for the end of the text.
    pub fn character_index_for_cell(&self, row: usize, col: usize) -> (r: usize)
        ensures
            r == (match row_start(self@.text, row as nat) {
                Some(k) => utf16::to_units(
                    self@.text,
                    text::offset_of(
                        self@.text,
                        lines::min(k + col, lines::line_end_index(self@.text, k)),
                    ) as int,
                ),
                None => utf16::to_units(self@.text, self@.len()),
            }),
    {
        let v = chars::to_chars(self.content());
        let total: usize = text::byte_len(self.content());
        let mut k: usize = 0;
        let mut i: usize = 0;
        while i < row
            invariant
                i <= row,
                k <= v@.len(),
                v@ == self@.text,
                total == self@.len(),
                row_start(v@, i as nat) == Some(k as int),
            decreases row - i,
        {
            let end: usize = chars::find_char(&v, k, '\n');
            proof {
                lines::lemma_line_end_unique(v@, k as int, end as int);
            }
            if end == v.len() {
                proof {
                    lemma_row_start_none(v@, (i + 1) as nat, row as nat);
                }
                return utf16::utf16_offset_in_text(self.content(), total);
            }
            k = end + 1;
            i = i + 1;
        }
        let end: usize = chars::find_char(&v, k, '\n');
        proof {
            lines::lemma_line_end_unique(v@, k as int, end as int);
        }
        let target: usize = if col <= end - k {
            k + col
        } else {
            end
        };
        let at: usize = index::offset_at(&v, target);
        utf16::utf16_offset_in_text(self.content(), at)
    }
}

proof fn lemma_row_start_none(s: Seq<char>, i: nat, row: nat)
    requires
        i <= row,
        row_start(s, i) is None,
    ensures
        row_start(s, row) is None,
    decreases row - i,
{
    if i < row {
        lemma_row_start_none(s, i, (row - 1) as nat);
    }
}

/// A range in UTF-16 units is the range of the characters that take them, taken back to
/// where steps begin, its ends in order whichever came first; and back.
pub proof fn unit_ranges_are_character_ranges(st: AreaState, i: int, j: int)
    requires
        0 <= i <= j <= st.text.len(),
        st.snapped(text::offset_of(st.text, i) as int) == text::offset_of(st.text, i),
        st.snapped(text::offset_of(st.text, j) as int) == text::offset_of(st.text, j),
    ensures
        ({
            let bytes = (text::offset_of(st.text, i) as int, text::offset_of(st.text, j) as int);
            let units = (
                utf16::units(st.text.take(i)) as int,
                utf16::units(st.text.take(j)) as int,
            );
            &&& st.from_utf16(units) == bytes
            &&& st.from_utf16((units.1, units.0)) == bytes
            &&& st.to_utf16(bytes) == units
        }),
{
    text::lemma_offset_monotone(st.text, i, j);
    utf16::utf16_round_trip_from_units(st.text, i);
    utf16::utf16_round_trip_from_units(st.text, j);
    utf16::lemma_covering_units_at(st.text, i);
    utf16::lemma_covering_units_at(st.text, j);
    utf16::bytes_are_counted_in_units(st.text, i, 0);
    utf16::bytes_are_counted_in_units(st.text, j, 0);
}

/// What is replaced is what the input method asks for: inside the composition, if there is
/// one, and otherwise in the text. Where it does not ask, it is the composition, and without
/// one the selection.
pub proof fn compositions_are_replaced_first(st: AreaState, m: (int, int), u: (int, int))
    ensures
        st.marked is None ==> st.replacement_range(None) == (st.start, st.end),
        st.marked == Some(m) ==> st.replacement_range(None) == m,
        st.marked is None ==> st.replacement_range(Some(u)) == st.from_utf16(u),
        st.marked == Some(m) ==> {
            let composed = text::between(st.text, m.0, m.1);
            st.replacement_range(Some(u)) == (
                m.0 + utf16::from_units(composed, u.0),
                m.0 + utf16::from_units(composed, u.1),
            )
        },
{
}

/// Line breaks are counted one by one.
pub proof fn breaks_are_counted(s: Seq<char>, c: char)
    ensures
        breaks(seq![]) == 0,
        c == '\n' ==> breaks(s.push(c)) == breaks(s) + 1,
        c != '\n' ==> breaks(s.push(c)) == breaks(s),
{
    assert(s.push(c).drop_last() =~= s);
}

/// The row of a place is the number of line breaks before it, and begins where the line of
/// the place does.
pub proof fn rows_begin_where_lines_do(s: Seq<char>, k: int)
    requires
        0 <= k <= s.len(),
    ensures
        row_start(s, breaks(s.take(k))) == Some(lines::line_start_index(s, k)),
    decreases k,
{
    if k == 0 {
        assert(s.take(0) =~= seq![]);
    } else {
        rows_begin_where_lines_do(s, k - 1);
        assert(s.take(k).drop_last() =~= s.take(k - 1));
        if s[k - 1] == '\n' {
            lines::lemma_line_start(s, k - 1);
            let a = lines::line_start_index(s, k - 1);
            lines::lemma_line_end_unique(s, a, k - 1);
        }
    }
}

/// There are as many rows as line breaks, and one more.
pub proof fn there_is_one_row_more_than_breaks(s: Seq<char>, row: nat)
    ensures
        row_start(s, row) is Some <==> row <= breaks(s),
        row_start(s, row) matches Some(k) ==> 0 <= k <= s.len() && breaks(s.take(k)) == row,
    decreases row,
{
    if row > 0 {
        let before = (row - 1) as nat;
        there_is_one_row_more_than_breaks(s, before);
        if row_start(s, before) is Some {
            let k = row_start(s, before)->0;
            lines::lemma_line_end(s, k);
            let e = lines::line_end_index(s, k);
            lemma_no_breaks_between(s, k, e);
            if e < s.len() {
                assert(s.take(e + 1).drop_last() =~= s.take(e));
                lemma_breaks_grow(s, e + 1);
            } else {
                assert(s.take(e) =~= s);
            }
        }
    } else {
        assert(s.take(0) =~= seq![]);
    }
}

proof fn lemma_no_breaks_between(s: Seq<char>, k: int, e: int)
    requires
        0 <= k <= e <= s.len(),
        forall|j: int| k <= j < e ==> s[j] != '\n',
    ensures
        breaks(s.take(e)) == breaks(s.take(k)),
    decreases e - k,
{
    if k < e {
        lemma_no_breaks_between(s, k, e - 1);
        assert(s.take(e).drop_last() =~= s.take(e - 1));
    }
}

proof fn lemma_breaks_grow(s: Seq<char>, k: int)
    requires
        0 <= k <= s.len(),
    ensures
        breaks(s.take(k)) <= breaks(s),
    decreases s.len(),
{
    if k < s.len() {
        assert(s.drop_last().take(k) =~= s.take(k));
        lemma_breaks_grow(s.drop_last(), k);
    } else {
        assert(s.take(k) =~= s);
    }
}

} // verus!
