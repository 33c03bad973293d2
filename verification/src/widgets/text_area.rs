//! A multi-line text area.
//!
//! The area holds its text with `'\n'` separators, a selection and an IME
//! composition as byte ranges, and chips: labelled byte ranges that the cursor
//! treats as one unit. Every operation says in its result whether the area has
//! to be redrawn and whether its change listener has to hear of it.

pub mod ime;
pub mod keys;
pub mod laws;
pub mod paint;

use core::ops::Range;

use vstd::prelude::*;

use crate::text;
use crate::text::chars;
use crate::text::classes;
use crate::text::grapheme;
use crate::text::index;
use crate::text::lines;
use crate::text::utf16;

verus! {

/// The longest delay, in nanoseconds, between two clicks of a multi-click.
pub const MULTI_CLICK_INTERVAL: u64 = 400_000_000;

/// The largest byte distance between two clicks of a multi-click.
pub const MULTI_CLICK_RADIUS: usize = 2;

/// What an operation asks of the surroundings of the widget.
#[derive(Clone, Copy, Debug, PartialEq, Eq, Structural)]
pub enum Outcome {
    /// Nothing changed.
    Unchanged,
    /// The widget has to be redrawn.
    Redraw,
    /// The widget has to be redrawn, and its change listener hears of the
    /// text and the cursor.
    Changed,
}

/// Whether an operation that led from `before` to `after` is reported as it has
/// to be: the change listener hears of every change of the text and of every
/// movement of the cursor.
pub open spec fn heard(before: AreaState, after: AreaState, o: Outcome) -> bool {
    after.text != before.text || after.cursor() != before.cursor() ==> o == Outcome::Changed
}

/// An inline chip over a byte range of the text.
#[derive(Debug)]
pub struct Decoration {
    pub byte_range: Range<usize>,
    pub label: String,
}

/// The most recent left click: when, where, and which click in a row.
#[derive(Debug)]
pub struct Click {
    pub at: u64,
    pub offset: usize,
    pub count: u8,
}

/// A chip as a mathematical value.
pub struct Chip {
    pub start: int,
    pub end: int,
    pub label: Seq<char>,
}

impl View for Decoration {
    type V = Chip;

    open spec fn view(&self) -> Chip {
        Chip {
            start: self.byte_range.start as int,
            end: self.byte_range.end as int,
            label: self.label@,
        }
    }
}

/// The chips of a list of decorations.
pub open spec fn chips_of(decorations: Seq<Decoration>) -> Seq<Chip> {
    decorations.map_values(|d: Decoration| d@)
}

/// Whether two half-open ranges share an offset.
pub open spec fn overlap(a_start: int, a_end: int, b_start: int, b_end: int) -> bool {
    a_start < b_end && b_start < a_end
}

/// The chips after an edit that put `inserted` bytes in the place of
/// `start..end`: those before the edit stay, those after it move along, those
/// that the edit touches go.
pub open spec fn chips_after_edit(chips: Seq<Chip>, start: int, end: int, inserted: int) -> Seq<
    Chip,
>
    decreases chips.len(),
{
    if chips.len() == 0 {
        chips
    } else {
        let rest = chips_after_edit(chips.drop_last(), start, end, inserted);
        let c = chips.last();
        if c.end <= start {
            rest.push(c)
        } else if c.start >= end {
            rest.push(
                Chip {
                    start: c.start - (end - start) + inserted,
                    end: c.end - (end - start) + inserted,
                    label: c.label,
                },
            )
        } else {
            rest
        }
    }
}

/// The first chip for which `hit` holds.
pub open spec fn first_chip(chips: Seq<Chip>, hit: spec_fn(Chip) -> bool) -> Option<Chip>
    decreases chips.len(),
{
    if chips.len() == 0 {
        None
    } else if hit(chips[0]) {
        Some(chips[0])
    } else {
        first_chip(chips.drop_first(), hit)
    }
}

/// The first chip that holds `offset`: from its start up to, not including,
/// its end.
pub open spec fn chip_containing(chips: Seq<Chip>, offset: int) -> Option<Chip> {
    first_chip(chips, |c: Chip| c.start <= offset < c.end)
}

/// The first chip that ends at `offset`.
pub open spec fn chip_ending_at(chips: Seq<Chip>, offset: int) -> Option<Chip> {
    first_chip(chips, |c: Chip| c.end == offset)
}

/// The first chip that starts at `offset`.
pub open spec fn chip_starting_at(chips: Seq<Chip>, offset: int) -> Option<Chip> {
    first_chip(chips, |c: Chip| c.start == offset)
}

/// What a text area holds, as a mathematical value.
#[verifier::ext_equal]
pub struct AreaState {
    pub text: Seq<char>,
    /// The selection; its two ends are equal when it is a mere cursor.
    pub start: int,
    pub end: int,
    /// Whether the selection grew leftward, so that its start is the cursor.
    pub reversed: bool,
    /// The IME composition.
    pub marked: Option<(int, int)>,
    /// Where the mouse drag began.
    pub anchor: Option<int>,
    /// The last click: when, where, and which in a row.
    pub click: Option<(int, int, int)>,
    pub placeholder: Seq<char>,
    pub submit_on_empty: bool,
    pub chips: Seq<Chip>,
}

/// The larger of two offsets.
pub open spec fn max(a: int, b: int) -> int {
    if a >= b {
        a
    } else {
        b
    }
}

/// Whether `a..b` is a range of `s` between boundaries.
pub open spec fn range_of(s: Seq<char>, a: int, b: int) -> bool {
    a <= b && text::is_boundary(s, a) && text::is_boundary(s, b)
}

impl AreaState {
    /// The end of the selection that moves.
    pub open spec fn cursor(self) -> int {
        if self.reversed {
            self.start
        } else {
            self.end
        }
    }

    /// Bytes of the text.
    pub open spec fn len(self) -> int {
        text::width(self.text) as int
    }

    /// `offset` moved back to the start of the grapheme cluster that holds it.
    pub open spec fn snapped(self, offset: int) -> int {
        grapheme::snap(grapheme::grapheme_starts(self.text), self.len(), offset)
    }

    /// The grapheme cluster start before `offset`.
    pub open spec fn step_back(self, offset: int) -> int {
        grapheme::prev_start(grapheme::grapheme_starts(self.text), offset)
    }

    /// The grapheme cluster start after `offset`.
    pub open spec fn step_forward(self, offset: int) -> int {
        grapheme::next_start(grapheme::grapheme_starts(self.text), self.len(), offset)
    }

    /// What holds of every area: chips are non-empty, lie inside the text and
    /// do not overlap, and the composition is a range of the text.
    pub open spec fn inv(self) -> bool {
        &&& forall|i: int|
            0 <= i < self.chips.len() ==> 0 <= (#[trigger] self.chips[i]).start
                < self.chips[i].end <= self.len()
        &&& forall|i: int, j: int|
            0 <= i < j < self.chips.len() ==> !overlap(
                (#[trigger] self.chips[i]).start,
                self.chips[i].end,
                (#[trigger] self.chips[j]).start,
                self.chips[j].end,
            )
        &&& self.marked matches Some(m) ==> range_of(self.text, m.0, m.1)
    }

    /// Whether the selection is a range of the text. It is, unless it was
    /// made from a chip that does not begin and end on boundaries, or from a
    /// drag that outlived the text in which it began.
    pub open spec fn selection_ok(self) -> bool {
        range_of(self.text, self.start, self.end)
    }

    /// Whether every chip begins and ends on a boundary of the text.
    pub open spec fn chips_aligned(self) -> bool {
        forall|i: int|
            0 <= i < self.chips.len() ==> text::is_boundary(
                self.text,
                (#[trigger] self.chips[i]).start,
            ) && text::is_boundary(self.text, self.chips[i].end)
    }

    /// Whether a drag in progress began on a boundary of the text.
    pub open spec fn anchor_ok(self) -> bool {
        self.anchor matches Some(a) ==> text::is_boundary(self.text, a)
    }

    /// The cursor alone, at the cluster that holds `offset`.
    pub open spec fn moved_to(self, offset: int) -> AreaState {
        AreaState {
            start: self.snapped(offset),
            end: self.snapped(offset),
            reversed: false,
            marked: None,
            ..self
        }
    }

    /// The selection with its moving end at the cluster that holds `offset`.
    pub open spec fn selecting_to(self, offset: int) -> AreaState {
        let fixed = if self.reversed {
            self.end
        } else {
            self.start
        };
        let moving = self.snapped(offset);
        AreaState {
            start: if moving < fixed {
                moving
            } else {
                fixed
            },
            end: if moving < fixed {
                fixed
            } else {
                moving
            },
            reversed: moving < fixed || (moving == fixed && self.reversed),
            marked: None,
            ..self
        }
    }

    /// The selection from where the drag began, or else the cursor, to the
    /// cluster that holds `offset`.
    pub open spec fn extended_to(self, offset: int) -> AreaState {
        let fixed = match self.anchor {
            Some(a) => a,
            None => self.cursor(),
        };
        let moving = self.snapped(offset);
        AreaState {
            start: lines::min(fixed, moving),
            end: max(fixed, moving),
            reversed: moving < fixed,
            marked: None,
            anchor: Some(fixed),
            ..self
        }
    }

    /// `a..b` selected, with a drag that began at its start.
    pub open spec fn grabbed(self, a: int, b: int) -> AreaState {
        AreaState { start: a, end: b, reversed: false, marked: None, anchor: Some(a), ..self }
    }

    /// Which click in a row a click at `offset` is when the clock reads `now`:
    /// a click close to the last one in time and place counts on, up to three.
    pub open spec fn click_count(self, now: int, offset: int) -> int {
        match self.click {
            Some(c) => if now - c.0 < MULTI_CLICK_INTERVAL && -MULTI_CLICK_RADIUS <= offset - c.1
                <= MULTI_CLICK_RADIUS && c.2 < 3 {
                c.2 + 1
            } else {
                1
            },
            None => 1,
        }
    }

    /// The area with a click recorded.
    pub open spec fn clicked(self, now: int, offset: int) -> AreaState {
        AreaState { click: Some((now, offset, self.click_count(now, offset))), ..self }
    }

    /// The start of the line that holds the boundary `offset`.
    pub open spec fn line_start_of(self, offset: int) -> int {
        text::offset_of(
            self.text,
            lines::line_start_index(self.text, text::index_of(self.text, offset)),
        ) as int
    }

    /// The end of the line that holds the boundary `offset`.
    pub open spec fn line_end_of(self, offset: int) -> int {
        text::offset_of(
            self.text,
            lines::line_end_index(self.text, text::index_of(self.text, offset)),
        ) as int
    }

    /// The text and the chips with `new` in the place of `a..b`.
    pub open spec fn spliced(self, a: int, b: int, new: Seq<char>) -> AreaState {
        AreaState {
            text: text::before(self.text, a) + new + text::after(self.text, b),
            chips: chips_after_edit(self.chips, a, b, text::width(new) as int),
            ..self
        }
    }

    /// `new` in the place of `a..b`, with the cursor behind it.
    pub open spec fn replaced(self, a: int, b: int, new: Seq<char>) -> AreaState {
        let at = a + text::width(new);
        AreaState {
            start: at,
            end: at,
            reversed: false,
            marked: None,
            ..self.spliced(a, b, new)
        }
    }

    /// `new` in the place of `from..to`, whose ends are moved back to cluster
    /// starts. `new` becomes the composition where `mark` says so; the
    /// selection becomes `selected`, or the end of `new`.
    pub open spec fn composed(
        self,
        from: int,
        to: int,
        new: Seq<char>,
        mark: bool,
        selected: Option<(int, int)>,
    ) -> AreaState {
        let a = self.snapped(from);
        let b = self.snapped(max(to, a));
        let edited = self.spliced(a, b, new);
        let tail = a + text::width(new);
        let wanted = match selected {
            Some(s) => s,
            None => (tail, tail),
        };
        let first = edited.snapped(wanted.0);
        AreaState {
            start: first,
            end: edited.snapped(max(wanted.1, first)),
            reversed: false,
            marked: if mark && new.len() > 0 {
                Some((a, tail))
            } else {
                None
            },
            ..edited
        }
    }

    /// `new` in the place of the selection.
    pub open spec fn selection_replaced(self, new: Seq<char>) -> AreaState {
        self.replaced(self.start, self.end, new)
    }

    /// `offset`, moved out of a chip that holds it strictly inside.
    pub open spec fn outside_chips(self, offset: int, toward_start: bool) -> int {
        match chip_containing(self.chips, offset) {
            Some(c) => if offset > c.start {
                if toward_start {
                    c.start
                } else {
                    c.end
                }
            } else {
                offset
            },
            None => offset,
        }
    }

    /// The byte offset of the character that `f` finds from the cursor's.
    pub open spec fn from_cursor(self, f: spec_fn(Seq<char>, int) -> int) -> int {
        text::offset_of(self.text, f(self.text, text::index_of(self.text, self.cursor()))) as int
    }
}

/// Edits keep chips non-empty, inside the text and apart; what the chips were
/// aligned with, they stay aligned with.
pub proof fn lemma_spliced(st: AreaState, a: int, b: int, new: Seq<char>)
    requires
        st.inv(),
        range_of(st.text, a, b),
    ensures
        ({
            let r = st.spliced(a, b, new);
            &&& r.len() == st.len() - (b - a) + text::width(new)
            &&& text::is_boundary(r.text, a)
            &&& text::is_boundary(r.text, a + text::width(new))
            &&& AreaState { marked: None, ..r }.inv()
            &&& st.chips_aligned() ==> r.chips_aligned()
            &&& forall|i: int|
                i <= a && text::is_boundary(st.text, i) ==> #[trigger] text::is_boundary(r.text, i)
        }),
{
    let r = st.spliced(a, b, new);
    let x = text::before(st.text, a);
    let y = text::after(st.text, b);
    let n = text::width(new) as int;
    text::lemma_boundary(st.text, a);
    text::lemma_boundary(st.text, b);
    text::lemma_boundary_order(st.text, a, b);
    text::lemma_width_concat(x + new, y);
    text::lemma_width_concat(x, new);
    text::lemma_boundary_concat(x, new);
    text::lemma_boundary_concat(x + new, y);
    assert(x + new + y =~= x + (new + y));
    text::lemma_boundary_concat(x, new + y);
    assert forall|i: int| i <= a && text::is_boundary(st.text, i) implies
        #[trigger] text::is_boundary(r.text, i) by {
        lemma_boundary_before(st.text, a, i);
    }
    assert forall|i: int| b <= i && text::is_boundary(st.text, i) implies
        #[trigger] text::is_boundary(r.text, i - (b - a) + n) by {
        lemma_boundary_after(st.text, b, i);
        assert(text::is_boundary(y, i - b));
    }
    lemma_chips_after_edit(st.chips, a, b, n, st.len());
    if st.chips_aligned() {
        assert forall|i: int| 0 <= i < r.chips.len() implies text::is_boundary(
            r.text,
            (#[trigger] r.chips[i]).start,
        ) && text::is_boundary(r.text, r.chips[i].end) by {
            let j = lemma_chip_origin(st.chips, a, b, n, i);
            assert(text::is_boundary(st.text, st.chips[j].start));
            assert(text::is_boundary(st.text, st.chips[j].end));
            if st.chips[j].end > a {
                assert(text::is_boundary(r.text, st.chips[j].start - (b - a) + n));
                assert(text::is_boundary(r.text, st.chips[j].end - (b - a) + n));
            } else {
                assert(text::is_boundary(r.text, st.chips[j].start));
                assert(text::is_boundary(r.text, st.chips[j].end));
            }
        }
    }
}

proof fn lemma_boundary_before(s: Seq<char>, a: int, i: int)
    requires
        text::is_boundary(s, a),
        text::is_boundary(s, i),
        i <= a,
    ensures
        text::is_boundary(text::before(s, a), i),
{
    text::lemma_boundary(s, a);
    text::lemma_boundary(s, i);
    text::lemma_boundary_order(s, i, a);
    let k = text::index_of(s, i);
    let x = text::before(s, a);
    assert(x.take(k) =~= s.take(k));
    assert(text::offset_of(x, k) == i);
}

proof fn lemma_boundary_after(s: Seq<char>, b: int, i: int)
    requires
        text::is_boundary(s, b),
        text::is_boundary(s, i),
        b <= i,
    ensures
        text::is_boundary(text::after(s, b), i - b),
{
    text::lemma_boundary(s, b);
    text::lemma_boundary(s, i);
    text::lemma_boundary_order(s, b, i);
    let j = text::index_of(s, b);
    let k = text::index_of(s, i);
    let y = text::after(s, b);
    assert(y.take(k - j) =~= text::between(s, b, i));
    assert(text::offset_of(y, k - j) == i - b);
}

/// Every chip left after an edit comes from one before it.
proof fn lemma_chip_origin(chips: Seq<Chip>, a: int, b: int, n: int, i: int) -> (j: int)
    requires
        a <= b,
        0 <= i < chips_after_edit(chips, a, b, n).len(),
    ensures
        0 <= j < chips.len(),
        i <= j,
        ({
            let c = chips[j];
            let d = chips_after_edit(chips, a, b, n)[i];
            ||| c.end <= a && d == c
            ||| c.end > a && c.start >= b && d.start == c.start - (b - a) + n && d.end == c.end - (b
                - a) + n && d.label == c.label
        }),
    decreases chips.len(),
{
    let rest = chips_after_edit(chips.drop_last(), a, b, n);
    lemma_chips_shrink(chips.drop_last(), a, b, n);
    if i < rest.len() {
        lemma_chip_origin(chips.drop_last(), a, b, n, i)
    } else {
        chips.len() - 1
    }
}

proof fn lemma_chips_shrink(chips: Seq<Chip>, a: int, b: int, n: int)
    ensures
        chips_after_edit(chips, a, b, n).len() <= chips.len(),
    decreases chips.len(),
{
    if chips.len() > 0 {
        lemma_chips_shrink(chips.drop_last(), a, b, n);
    }
}

proof fn lemma_chips_after_edit(chips: Seq<Chip>, a: int, b: int, n: int, len: int)
    requires
        0 <= a <= b <= len,
        0 <= n,
        forall|i: int|
            0 <= i < chips.len() ==> 0 <= (#[trigger] chips[i]).start < chips[i].end <= len,
        forall|i: int, j: int|
            0 <= i < j < chips.len() ==> !overlap(
                (#[trigger] chips[i]).start,
                chips[i].end,
                (#[trigger] chips[j]).start,
                chips[j].end,
            ),
    ensures
        ({
            let r = chips_after_edit(chips, a, b, n);
            &&& forall|i: int|
                0 <= i < r.len() ==> 0 <= (#[trigger] r[i]).start < r[i].end <= len - (b - a) + n
            &&& forall|i: int, j: int|
                0 <= i < j < r.len() ==> !overlap(
                    (#[trigger] r[i]).start,
                    r[i].end,
                    (#[trigger] r[j]).start,
                    r[j].end,
                )
        }),
    decreases chips.len(),
{
    if chips.len() > 0 {
        let init = chips.drop_last();
        let rest = chips_after_edit(init, a, b, n);
        let r = chips_after_edit(chips, a, b, n);
        assert forall|i: int| 0 <= i < init.len() implies #[trigger] init[i] == chips[i] by {}
        lemma_chips_after_edit(init, a, b, n, len);
        assert forall|i: int, j: int| 0 <= i < j < r.len() implies !overlap(
            (#[trigger] r[i]).start,
            r[i].end,
            (#[trigger] r[j]).start,
            r[j].end,
        ) by {
            assert(r[i] == rest[i]);
            if j < rest.len() {
                assert(r[j] == rest[j]);
            } else {
                let k = lemma_chip_origin(init, a, b, n, i);
                assert(init[k] == chips[k]);
                assert(!overlap(
                    chips[k].start,
                    chips[k].end,
                    chips[chips.len() - 1].start,
                    chips[chips.len() - 1].end,
                ));
            }
        }
    }
}


/// Whether two byte ranges share an offset.
pub fn ranges_overlap(a: &Range<usize>, b: &Range<usize>) -> (r: bool)
    ensures
        r == overlap(a.start as int, a.end as int, b.start as int, b.end as int),
{
    a.start < b.end && b.start < a.end
}

/// Where the selection `sel` meets the line `line_start..line_end`, as
/// offsets local to the line; `None` when they share nothing.
pub fn sel_overlap_local(sel: &Range<usize>, line_start: usize, line_end: usize) -> (r: Option<
    (usize, usize),
>)
    ensures
        match r {
            Some(o) => overlap(sel.start as int, sel.end as int, line_start as int, line_end as int)
                && sel.start < sel.end && line_start < line_end && line_start + o.0 == (if sel.start
                >= line_start {
                sel.start
            } else {
                line_start
            }) && line_start + o.1 == (if sel.end <= line_end {
                sel.end
            } else {
                line_end
            }),
            None => !(overlap(
                sel.start as int,
                sel.end as int,
                line_start as int,
                line_end as int,
            ) && sel.start < sel.end && line_start < line_end),
        },
{
    if sel.start >= sel.end {
        return None;
    }
    let a: usize = if sel.start >= line_start {
        sel.start
    } else {
        line_start
    };
    let b: usize = if sel.end <= line_end {
        sel.end
    } else {
        line_end
    };
    if a >= b {
        return None;
    }
    Some((a - line_start, b - line_start))
}

/// The byte range of a chip, where there is one.
pub open spec fn is_range_of(r: Option<Range<usize>>, c: Option<Chip>) -> bool {
    match r {
        Some(range) => c matches Some(chip) && range.start == chip.start && range.end == chip.end,
        None => c is None,
    }
}

/// The byte range of the first decoration that holds `offset`.
pub fn find_decoration_containing(decorations: &Vec<Decoration>, offset: usize) -> (r: Option<
    Range<usize>,
>)
    ensures
        is_range_of(r, chip_containing(chips_of(decorations@), offset as int)),
{
    let ghost hit = |c: Chip| c.start <= offset < c.end;
    let ghost all = chips_of(decorations@);
    let mut i: usize = 0;
    assert(all.skip(0) =~= all);
    while i < decorations.len()
        invariant
            i <= decorations@.len(),
            all == chips_of(decorations@),
            hit == (|c: Chip| c.start <= offset < c.end),
            first_chip(all, hit) == first_chip(all.skip(i as int), hit),
        decreases decorations@.len() - i,
    {
        let d = &decorations[i];
        assert(all.skip(i as int)[0] == d@);
        if d.byte_range.start <= offset && offset < d.byte_range.end {
            return Some(d.byte_range.start..d.byte_range.end);
        }
        assert(all.skip(i as int).drop_first() =~= all.skip(i + 1));
        i = i + 1;
    }
    None
}

/// The byte range of the first decoration that ends at `offset`.
pub fn find_decoration_ending_at(decorations: &Vec<Decoration>, offset: usize) -> (r: Option<
    Range<usize>,
>)
    ensures
        is_range_of(r, chip_ending_at(chips_of(decorations@), offset as int)),
{
    let ghost hit = |c: Chip| c.end == offset;
    let ghost all = chips_of(decorations@);
    let mut i: usize = 0;
    assert(all.skip(0) =~= all);
    while i < decorations.len()
        invariant
            i <= decorations@.len(),
            all == chips_of(decorations@),
            hit == (|c: Chip| c.end == offset),
            first_chip(all, hit) == first_chip(all.skip(i as int), hit),
        decreases decorations@.len() - i,
    {
        let d = &decorations[i];
        assert(all.skip(i as int)[0] == d@);
        if d.byte_range.end == offset {
            return Some(d.byte_range.start..d.byte_range.end);
        }
        assert(all.skip(i as int).drop_first() =~= all.skip(i + 1));
        i = i + 1;
    }
    None
}

/// The byte range of the first decoration that starts at `offset`.
pub fn find_decoration_starting_at(decorations: &Vec<Decoration>, offset: usize) -> (r: Option<
    Range<usize>,
>)
    ensures
        is_range_of(r, chip_starting_at(chips_of(decorations@), offset as int)),
{
    let ghost hit = |c: Chip| c.start == offset;
    let ghost all = chips_of(decorations@);
    let mut i: usize = 0;
    assert(all.skip(0) =~= all);
    while i < decorations.len()
        invariant
            i <= decorations@.len(),
            all == chips_of(decorations@),
            hit == (|c: Chip| c.start == offset),
            first_chip(all, hit) == first_chip(all.skip(i as int), hit),
        decreases decorations@.len() - i,
    {
        let d = &decorations[i];
        assert(all.skip(i as int)[0] == d@);
        if d.byte_range.start == offset {
            return Some(d.byte_range.start..d.byte_range.end);
        }
        assert(all.skip(i as int).drop_first() =~= all.skip(i + 1));
        i = i + 1;
    }
    None
}

/// The chip that [`first_chip`] finds is one of the chips, and is a hit.
pub proof fn lemma_first_chip(chips: Seq<Chip>, hit: spec_fn(Chip) -> bool)
    ensures
        match first_chip(chips, hit) {
            Some(c) => hit(c) && exists|i: int| 0 <= i < chips.len() && #[trigger] chips[i] == c,
            None => forall|i: int| 0 <= i < chips.len() ==> !hit(#[trigger] chips[i]),
        },
    decreases chips.len(),
{
    if chips.len() > 0 && !hit(chips[0]) {
        let rest = chips.drop_first();
        lemma_first_chip(rest, hit);
        match first_chip(chips, hit) {
            Some(c) => {
                let i = choose|i: int| 0 <= i < rest.len() && #[trigger] rest[i] == c;
                assert(chips[i + 1] == c);
            },
            None => {
                assert forall|i: int| 0 <= i < chips.len() implies !hit(#[trigger] chips[i]) by {
                    if i > 0 {
                        assert(rest[i - 1] == chips[i]);
                    }
                }
            },
        }
    } else if chips.len() > 0 {
        assert(chips[0] == chips[0]);
    }
}

/// A multi-line text area.
pub struct TextArea {
    content: String,
    selected_range: Range<usize>,
    selection_reversed: bool,
    marked_range: Option<Range<usize>>,
    drag_anchor: Option<usize>,
    last_click: Option<Click>,
    placeholder: String,
    submit_on_empty: bool,
    decorations: Vec<Decoration>,
}

impl View for TextArea {
    type V = AreaState;

    closed spec fn view(&self) -> AreaState {
        AreaState {
            text: self.content@,
            start: self.selected_range.start as int,
            end: self.selected_range.end as int,
            reversed: self.selection_reversed,
            marked: match self.marked_range {
                Some(m) => Some((m.start as int, m.end as int)),
                None => None,
            },
            anchor: match self.drag_anchor {
                Some(a) => Some(a as int),
                None => None,
            },
            click: match self.last_click {
                Some(c) => Some((c.at as int, c.offset as int, c.count as int)),
                None => None,
            },
            placeholder: self.placeholder@,
            submit_on_empty: self.submit_on_empty,
            chips: chips_of(self.decorations@),
        }
    }
}

impl TextArea {
    /// An empty area that shows `placeholder` while it is empty.
    pub fn new(placeholder: String) -> (r: TextArea)
        ensures
            r@ == (AreaState {
                text: seq![],
                start: 0,
                end: 0,
                reversed: false,
                marked: None,
                anchor: None,
                click: None,
                placeholder: placeholder@,
                submit_on_empty: false,
                chips: seq![],
            }),
            r@.inv(),
            r@.selection_ok(),
            r@.chips_aligned(),
            r@.anchor_ok(),
    {
        let r = TextArea {
            content: String::new(),
            selected_range: 0..0,
            selection_reversed: false,
            marked_range: None,
            drag_anchor: None,
            last_click: None,
            placeholder,
            submit_on_empty: false,
            decorations: Vec::new(),
        };
        proof {
            text::lemma_ends_are_boundaries(r.content@);
            assert(chips_of(r.decorations@) =~= seq![]);
        }
        r
    }

    /// Sets whether Enter submits an empty area.
    pub fn set_submit_on_empty(&mut self, value: bool)
        ensures
            final(self)@ == (AreaState { submit_on_empty: value, ..old(self)@ }),
    {
        self.submit_on_empty = value;
    }

    /// The text.
    pub fn value(&self) -> (r: String)
        ensures
            r@ == self@.text,
    {
        self.content.clone()
    }

    /// The text shown while the area is empty.
    pub fn placeholder(&self) -> (r: &str)
        ensures
            r@ == self@.placeholder,
    {
        self.placeholder.as_str()
    }

    /// Whether the area holds no text.
    pub fn is_empty(&self) -> (r: bool)
        ensures
            r == (self@.text.len() == 0),
    {
        self.content.as_str().is_empty()
    }

    /// The byte offset of the cursor.
    pub fn cursor_offset(&self) -> (r: usize)
        ensures
            r == self@.cursor(),
    {
        if self.selection_reversed {
            self.selected_range.start
        } else {
            self.selected_range.end
        }
    }

    /// The selected byte range.
    pub fn selection(&self) -> (r: Range<usize>)
        ensures
            r.start == self@.start,
            r.end == self@.end,
    {
        self.selected_range.start..self.selected_range.end
    }

    /// Whether the selection grew leftward.
    pub fn selection_is_reversed(&self) -> (r: bool)
        ensures
            r == self@.reversed,
    {
        self.selection_reversed
    }

    /// The byte range of the IME composition.
    pub fn marked(&self) -> (r: Option<Range<usize>>)
        ensures
            match r {
                Some(m) => self@.marked == Some((m.start as int, m.end as int)),
                None => self@.marked is None,
            },
    {
        match &self.marked_range {
            Some(m) => Some(m.start..m.end),
            None => None,
        }
    }

    /// A copy of the decorations.
    pub fn decorations(&self) -> (r: Vec<Decoration>)
        ensures
            chips_of(r@) == self@.chips,
    {
        let mut r: Vec<Decoration> = Vec::new();
        let mut i: usize = 0;
        while i < self.decorations.len()
            invariant
                i <= self.decorations@.len(),
                chips_of(r@) == chips_of(self.decorations@).take(i as int),
            decreases self.decorations@.len() - i,
        {
            let d = &self.decorations[i];
            let copy = Decoration {
                byte_range: d.byte_range.start..d.byte_range.end,
                label: d.label.clone(),
            };
            let ghost so_far = r@;
            r.push(copy);
            proof {
                assert(copy@ == d@);
                assert(chips_of(r@) =~= chips_of(so_far).push(copy@));
                assert(chips_of(self.decorations@).take(i + 1) =~= chips_of(
                    self.decorations@,
                ).take(i as int).push(d@));
            }
            i = i + 1;
        }
        assert(chips_of(self.decorations@).take(i as int) =~= chips_of(self.decorations@));
        r
    }

    /// Adds a chip over `byte_range`. A range that is empty, reaches past the
    /// text or overlaps a chip is ignored.
    pub fn insert_decoration(&mut self, byte_range: Range<usize>, label: String)
        requires
            old(self)@.inv(),
        ensures
            final(self)@.inv(),
            ({
                let st = old(self)@;
                let a = byte_range.start as int;
                let b = byte_range.end as int;
                let fits = a < b <= st.len() && forall|i: int|
                    0 <= i < st.chips.len() ==> !overlap(
                        (#[trigger] st.chips[i]).start,
                        st.chips[i].end,
                        a,
                        b,
                    );
                final(self)@ == if fits {
                    AreaState {
                        chips: st.chips.push(Chip { start: a, end: b, label: label@ }),
                        ..st
                    }
                } else {
                    st
                }
            }),
            old(self)@.selection_ok() ==> final(self)@.selection_ok(),
            old(self)@.chips_aligned() && text::is_boundary(
                old(self)@.text,
                byte_range.start as int,
            ) && text::is_boundary(old(self)@.text, byte_range.end as int)
                ==> final(self)@.chips_aligned(),
    {
        let len: usize = text::byte_len(self.content.as_str());
        if byte_range.start >= byte_range.end || byte_range.end > len {
            return ;
        }
        let mut i: usize = 0;
        while i < self.decorations.len()
            invariant
                i <= self.decorations@.len(),
                *self == *old(self),
                old(self)@.inv(),
                forall|j: int|
                    0 <= j < i ==> !overlap(
                        (#[trigger] old(self)@.chips[j]).start,
                        old(self)@.chips[j].end,
                        byte_range.start as int,
                        byte_range.end as int,
                    ),
            decreases self.decorations@.len() - i,
        {
            assert(old(self)@.chips[i as int] == self.decorations@[i as int]@);
            if ranges_overlap(&self.decorations[i].byte_range, &byte_range) {
                return ;
            }
            i = i + 1;
        }
        let ghost new = Chip {
            start: byte_range.start as int,
            end: byte_range.end as int,
            label: label@,
        };
        self.decorations.push(Decoration { byte_range, label });
        assert(chips_of(self.decorations@) =~= old(self)@.chips.push(new));
    }

    /// Removes every chip.
    pub fn clear_decorations(&mut self)
        requires
            old(self)@.inv(),
        ensures
            final(self)@ == (AreaState { chips: seq![], ..old(self)@ }),
            final(self)@.inv(),
            final(self)@.chips_aligned(),
            old(self)@.selection_ok() ==> final(self)@.selection_ok(),
    {
        self.decorations = Vec::new();
        assert(chips_of(self.decorations@) =~= seq![]);
    }

    /// Puts the cursor at `offset` and begins a drag there.
    pub fn place_cursor_at(&mut self, offset: usize) -> (o: Outcome)
        requires
            old(self)@.inv(),
        ensures
            heard(old(self)@, final(self)@, o),
            o == Outcome::Changed,
            final(self)@ == old(self)@.grabbed(
                old(self)@.snapped(offset as int),
                old(self)@.snapped(offset as int),
            ),
            final(self)@.inv(),
            final(self)@.selection_ok(),
            final(self)@.anchor_ok(),
            old(self)@.chips_aligned() ==> final(self)@.chips_aligned(),
    {
        let clamped: usize = grapheme::clamp_to_grapheme(self.content.as_str(), offset);
        self.selected_range = clamped..clamped;
        self.selection_reversed = false;
        self.marked_range = None;
        self.drag_anchor = Some(clamped);
        Outcome::Changed
    }

    /// Extends the selection from where the drag began to `offset`. Without a
    /// drag, the cursor becomes its beginning.
    pub fn extend_selection_to(&mut self, offset: usize) -> (o: Outcome)
        requires
            old(self)@.inv(),
        ensures
            heard(old(self)@, final(self)@, o),
            o == Outcome::Changed,
            final(self)@ == old(self)@.extended_to(offset as int),
            final(self)@.inv(),
            old(self)@.selection_ok() && old(self)@.anchor_ok() ==> final(self)@.selection_ok()
                && final(self)@.anchor_ok(),
            old(self)@.chips_aligned() ==> final(self)@.chips_aligned(),
    {
        let clamped: usize = grapheme::clamp_to_grapheme(self.content.as_str(), offset);
        let anchor: usize = match self.drag_anchor {
            Some(a) => a,
            None => self.cursor_offset(),
        };
        self.drag_anchor = Some(anchor);
        if clamped >= anchor {
            self.selected_range = anchor..clamped;
            self.selection_reversed = false;
        } else {
            self.selected_range = clamped..anchor;
            self.selection_reversed = true;
        }
        self.marked_range = None;
        Outcome::Changed
    }

    /// Selects the word around `offset`.
    pub fn select_word_at(&mut self, offset: usize) -> (o: Outcome)
        requires
            old(self)@.inv(),
        ensures
            heard(old(self)@, final(self)@, o),
            o == Outcome::Changed,
            final(self)@ == old(self)@.grabbed(final(self)@.start, final(self)@.end),
            grapheme::word_around(
                grapheme::grapheme_starts(old(self)@.text),
                old(self)@.text,
                old(self)@.snapped(offset as int),
                final(self)@.start,
                final(self)@.end,
            ),
            final(self)@.inv(),
            final(self)@.selection_ok(),
            final(self)@.anchor_ok(),
            old(self)@.chips_aligned() ==> final(self)@.chips_aligned(),
    {
        let (start, end): (usize, usize) = grapheme::word_bounds(self.content.as_str(), offset);
        self.selected_range = start..end;
        self.selection_reversed = false;
        self.marked_range = None;
        self.drag_anchor = Some(start);
        Outcome::Changed
    }

    /// Selects the line around `offset`, without its line break.
    pub fn select_line_at(&mut self, offset: usize) -> (o: Outcome)
        requires
            old(self)@.inv(),
            text::is_boundary(old(self)@.text, offset as int),
        ensures
            heard(old(self)@, final(self)@, o),
            o == Outcome::Changed,
            final(self)@ == old(self)@.grabbed(
                old(self)@.line_start_of(offset as int),
                old(self)@.line_end_of(offset as int),
            ),
            final(self)@.inv(),
            final(self)@.selection_ok(),
            final(self)@.anchor_ok(),
            old(self)@.chips_aligned() ==> final(self)@.chips_aligned(),
    {
        let start: usize = lines::line_start(self.content.as_str(), offset);
        let end: usize = lines::line_end(self.content.as_str(), offset);
        proof {
            let k = text::index_of(self.content@, offset as int);
            text::lemma_boundary(self.content@, offset as int);
            lines::lemma_line_start(self.content@, k);
            lines::lemma_line_end(self.content@, k);
            text::lemma_offset_monotone(
                self.content@,
                lines::line_start_index(self.content@, k),
                lines::line_end_index(self.content@, k),
            );
        }
        self.selected_range = start..end;
        self.selection_reversed = false;
        self.marked_range = None;
        self.drag_anchor = Some(start);
        Outcome::Changed
    }

    /// Ends the drag.
    pub fn end_drag(&mut self)
        ensures
            final(self)@ == (AreaState { anchor: None, ..old(self)@ }),
            old(self)@.inv() ==> final(self)@.inv(),
            old(self)@.selection_ok() ==> final(self)@.selection_ok(),
            old(self)@.chips_aligned() ==> final(self)@.chips_aligned(),
            final(self)@.anchor_ok(),
    {
        self.drag_anchor = None;
    }

    /// Records a click at `offset` when a monotonic clock reads `now`
    /// nanoseconds, and says which click in a row it is: a click close to the
    /// last one in time and place counts on, up to three.
    pub fn register_click(&mut self, now: u64, offset: usize) -> (count: u8)
        ensures
            count == old(self)@.click_count(now as int, offset as int),
            final(self)@ == old(self)@.clicked(now as int, offset as int),
            old(self)@.inv() ==> final(self)@.inv(),
            old(self)@.selection_ok() ==> final(self)@.selection_ok(),
            old(self)@.chips_aligned() ==> final(self)@.chips_aligned(),
            old(self)@.anchor_ok() ==> final(self)@.anchor_ok(),
    {
        let count: u8 = match &self.last_click {
            Some(c) => {
                let elapsed: u64 = if now >= c.at {
                    now - c.at
                } else {
                    0
                };
                let distance: usize = if offset >= c.offset {
                    offset - c.offset
                } else {
                    c.offset - offset
                };
                if elapsed < MULTI_CLICK_INTERVAL && distance <= MULTI_CLICK_RADIUS && c.count < 3 {
                    c.count + 1
                } else {
                    1
                }
            },
            None => 1,
        };
        self.last_click = Some(Click { at: now, offset, count });
        count
    }

    /// Rebuilds the chips for an edit that puts `inserted` bytes in the place
    /// of `start..end`.
    fn invalidate_decorations_after_edit(&mut self, start: usize, end: usize, inserted: usize)
        requires
            old(self)@.inv(),
            start <= end <= old(self)@.len(),
            old(self)@.len() - (end - start) + inserted <= usize::MAX,
        ensures
            final(self)@ == (AreaState {
                chips: chips_after_edit(
                    old(self)@.chips,
                    start as int,
                    end as int,
                    inserted as int,
                ),
                ..old(self)@
            }),
    {
        let len: usize = text::byte_len(self.content.as_str());
        let mut kept: Vec<Decoration> = Vec::new();
        let ghost all = old(self)@.chips;
        let mut i: usize = 0;
        assert(all.take(0) =~= seq![]);
        assert(chips_of(kept@) =~= seq![]);
        while i < self.decorations.len()
            invariant
                i <= self.decorations@.len(),
                *self == *old(self),
                self@.inv(),
                len == self@.len(),
                all == self@.chips,
                start <= end <= len,
                len - (end - start) + inserted <= usize::MAX,
                chips_of(kept@) == chips_after_edit(
                    all.take(i as int),
                    start as int,
                    end as int,
                    inserted as int,
                ),
            decreases self.decorations@.len() - i,
        {
            let d = &self.decorations[i];
            let ghost so_far = kept@;
            proof {
                assert(all[i as int] == d@);
                assert(all.take(i + 1).drop_last() =~= all.take(i as int));
                assert(all.take(i + 1).last() == d@);
            }
            if d.byte_range.end <= start {
                let moved = Decoration {
                    byte_range: d.byte_range.start..d.byte_range.end,
                    label: d.label.clone(),
                };
                kept.push(moved);
                assert(chips_of(kept@) =~= chips_of(so_far).push(moved@));
            } else if d.byte_range.start >= end {
                let moved = Decoration {
                    byte_range: (d.byte_range.start - (end - start)) + inserted..(
                    d.byte_range.end - (end - start)) + inserted,
                    label: d.label.clone(),
                };
                kept.push(moved);
                assert(chips_of(kept@) =~= chips_of(so_far).push(moved@));
            }
            i = i + 1;
        }
        assert(all.take(i as int) =~= all);
        self.decorations = kept;
    }

    /// Puts `replacement` in the place of `start..end`.
    fn splice(&mut self, start: usize, end: usize, replacement: &str) -> (inserted_end: usize)
        requires
            old(self)@.inv(),
            range_of(old(self)@.text, start as int, end as int),
        ensures
            final(self)@ == old(self)@.spliced(start as int, end as int, replacement@),
            inserted_end == start + text::width(replacement@),
            inserted_end <= final(self)@.len(),
    {
        proof {
            lemma_spliced(self@, start as int, end as int, replacement@);
            text::lemma_boundary(self.content@, start as int);
            text::lemma_boundary(self.content@, end as int);
        }
        let (head, _) = text::split(self.content.as_str(), start);
        let (_, tail) = text::split(self.content.as_str(), end);
        let content = chars::concat3(head, replacement, tail);
        let inserted: usize = text::byte_len(replacement);
        let total: usize = text::byte_len(content.as_str());
        self.invalidate_decorations_after_edit(start, end, inserted);
        self.content = content;
        start + inserted
    }

    /// Puts `replacement` in the place of the selection, with the cursor
    /// behind it.
    pub fn replace_selection(&mut self, replacement: &str) -> (o: Outcome)
        requires
            old(self)@.inv(),
            old(self)@.selection_ok(),
        ensures
            heard(old(self)@, final(self)@, o),
            o == Outcome::Changed,
            final(self)@ == old(self)@.selection_replaced(replacement@),
            final(self)@.inv(),
            final(self)@.selection_ok(),
            old(self)@.chips_aligned() ==> final(self)@.chips_aligned(),
    {
        proof {
            lemma_spliced(self@, self@.start, self@.end, replacement@);
        }
        let start: usize = self.selected_range.start;
        let end: usize = self.selected_range.end;
        let at: usize = self.splice(start, end, replacement);
        self.selected_range = at..at;
        self.selection_reversed = false;
        self.marked_range = None;
        proof {
            let q = AreaState {
                marked: None,
                ..old(self)@.spliced(start as int, end as int, replacement@)
            };
            assert(self@.text == q.text && self@.chips == q.chips);
            assert(q.inv());
        }
        Outcome::Changed
    }

    /// Puts `replacement` in the place of `range`, with the cursor behind it.
    /// Both ends of the range are moved back to the start of a grapheme
    /// cluster.
    pub fn replace_range(&mut self, range: Range<usize>, replacement: &str) -> (o: Outcome)
        requires
            old(self)@.inv(),
        ensures
            heard(old(self)@, final(self)@, o),
            o == Outcome::Changed,
            ({
                let st = old(self)@;
                let a = st.snapped(range.start as int);
                let b = st.snapped(max(range.end as int, a));
                final(self)@ == st.replaced(a, b, replacement@)
            }),
            final(self)@.inv(),
            final(self)@.selection_ok(),
            old(self)@.chips_aligned() ==> final(self)@.chips_aligned(),
    {
        let start: usize = grapheme::clamp_to_grapheme(self.content.as_str(), range.start);
        let upper: usize = if range.end >= start {
            range.end
        } else {
            start
        };
        let end: usize = grapheme::clamp_to_grapheme(self.content.as_str(), upper);
        proof {
            grapheme::lemma_snap_monotone(
                grapheme::grapheme_starts(self.content@),
                self.content@,
                start as int,
                upper as int,
            );
        }
        self.selected_range = start..end;
        self.selection_reversed = false;
        self.marked_range = None;
        self.replace_selection(replacement)
    }

    /// Removes the text and the chips.
    pub fn clear(&mut self) -> (o: Outcome)
        ensures
            heard(old(self)@, final(self)@, o),
            o == Outcome::Changed,
            final(self)@ == (AreaState {
                text: seq![],
                start: 0,
                end: 0,
                reversed: false,
                marked: None,
                chips: seq![],
                ..old(self)@
            }),
            final(self)@.inv(),
            final(self)@.selection_ok(),
            final(self)@.chips_aligned(),
    {
        self.content = String::new();
        self.selected_range = 0..0;
        self.selection_reversed = false;
        self.marked_range = None;
        self.decorations = Vec::new();
        proof {
            text::lemma_ends_are_boundaries(self.content@);
            assert(chips_of(self.decorations@) =~= seq![]);
        }
        Outcome::Changed
    }

    /// Puts `value` in the place of the text, with the cursor at its end.
    pub fn set_value(&mut self, value: String) -> (o: Outcome)
        ensures
            heard(old(self)@, final(self)@, o),
            o == Outcome::Changed,
            final(self)@ == (AreaState {
                text: value@,
                start: text::width(value@) as int,
                end: text::width(value@) as int,
                reversed: false,
                marked: None,
                chips: seq![],
                ..old(self)@
            }),
            final(self)@.inv(),
            final(self)@.selection_ok(),
            final(self)@.chips_aligned(),
    {
        let end: usize = text::byte_len(value.as_str());
        self.content = value;
        self.selected_range = end..end;
        self.selection_reversed = false;
        self.marked_range = None;
        self.decorations = Vec::new();
        proof {
            text::lemma_ends_are_boundaries(self.content@);
            assert(chips_of(self.decorations@) =~= seq![]);
        }
        Outcome::Changed
    }

    /// Selects all of the text and ends the composition.
    pub fn select_all_text(&mut self) -> (o: Outcome)
        requires
            old(self)@.inv(),
        ensures
            heard(old(self)@, final(self)@, o),
            o == (if old(self)@.cursor() != old(self)@.len() {
                Outcome::Changed
            } else {
                Outcome::Redraw
            }),
            final(self)@ == (AreaState {
                start: 0,
                end: old(self)@.len(),
                reversed: false,
                marked: None,
                ..old(self)@
            }),
            final(self)@.inv(),
            final(self)@.selection_ok(),
            old(self)@.chips_aligned() ==> final(self)@.chips_aligned(),
    {
        proof {
            text::lemma_ends_are_boundaries(self.content@);
        }
        let end: usize = text::byte_len(self.content.as_str());
        let moved: bool = self.cursor_offset() != end;
        self.selected_range = 0..end;
        self.selection_reversed = false;
        self.marked_range = None;
        if moved {
            Outcome::Changed
        } else {
            Outcome::Redraw
        }
    }

    /// Selects all of the text.
    pub fn select_all(&mut self) -> (o: Outcome)
        requires
            old(self)@.inv(),
        ensures
            heard(old(self)@, final(self)@, o),
            o == (if old(self)@.cursor() != old(self)@.len() {
                Outcome::Changed
            } else {
                Outcome::Redraw
            }),
            final(self)@ == (AreaState {
                start: 0,
                end: old(self)@.len(),
                reversed: false,
                ..old(self)@
            }),
            final(self)@.inv(),
            final(self)@.selection_ok(),
            old(self)@.chips_aligned() ==> final(self)@.chips_aligned(),
    {
        proof {
            text::lemma_ends_are_boundaries(self.content@);
        }
        let end: usize = text::byte_len(self.content.as_str());
        let moved: bool = self.cursor_offset() != end;
        self.selected_range = 0..end;
        self.selection_reversed = false;
        if moved {
            Outcome::Changed
        } else {
            Outcome::Redraw
        }
    }

    /// Puts the cursor at the cluster that holds `offset`.
    pub fn move_to(&mut self, offset: usize) -> (o: Outcome)
        requires
            old(self)@.inv(),
        ensures
            heard(old(self)@, final(self)@, o),
            o == Outcome::Changed,
            final(self)@ == old(self)@.moved_to(offset as int),
            final(self)@.inv(),
            final(self)@.selection_ok(),
            old(self)@.chips_aligned() ==> final(self)@.chips_aligned(),
    {
        let clamped: usize = grapheme::clamp_to_grapheme(self.content.as_str(), offset);
        self.selected_range = clamped..clamped;
        self.selection_reversed = false;
        self.marked_range = None;
        Outcome::Changed
    }

    /// Moves the cursor to the cluster that holds `offset`, with the other
    /// end of the selection where it is.
    pub fn select_to(&mut self, offset: usize) -> (o: Outcome)
        requires
            old(self)@.inv(),
        ensures
            heard(old(self)@, final(self)@, o),
            o == Outcome::Changed,
            final(self)@ == old(self)@.selecting_to(offset as int),
            final(self)@.inv(),
            old(self)@.selection_ok() ==> final(self)@.selection_ok(),
            old(self)@.chips_aligned() ==> final(self)@.chips_aligned(),
    {
        let clamped: usize = grapheme::clamp_to_grapheme(self.content.as_str(), offset);
        let mut start: usize = self.selected_range.start;
        let mut end: usize = self.selected_range.end;
        if self.selection_reversed {
            start = clamped;
        } else {
            end = clamped;
        }
        if end < start {
            self.selection_reversed = !self.selection_reversed;
            self.selected_range = end..start;
        } else {
            self.selected_range = start..end;
        }
        self.marked_range = None;
        Outcome::Changed
    }

    /// Selects `start..end` as it stands.
    fn select_range(&mut self, start: usize, end: usize)
        ensures
            final(self)@ == (AreaState { start: start as int, end: end as int, ..old(self)@ }),
    {
        self.selected_range = start..end;
    }

    /// Puts `replacement` in the place of `range`, both of whose ends are
    /// moved back to the start of a cluster. The inserted text becomes the
    /// composition where `mark_inserted` says so. The selection becomes
    /// `selected_range`, or the end of the inserted text.
    fn replace_range_inner(
        &mut self,
        range: Range<usize>,
        replacement: &str,
        mark_inserted: bool,
        selected_range: Option<Range<usize>>,
    ) -> (o: Outcome)
        requires
            old(self)@.inv(),
        ensures
            o == Outcome::Changed,
            final(self)@ == old(self)@.composed(
                range.start as int,
                range.end as int,
                replacement@,
                mark_inserted,
                match selected_range {
                    Some(r) => Some((r.start as int, r.end as int)),
                    None => None,
                },
            ),
            final(self)@.inv(),
            final(self)@.selection_ok(),
            old(self)@.chips_aligned() ==> final(self)@.chips_aligned(),
    {
        let start: usize = grapheme::clamp_to_grapheme(self.content.as_str(), range.start);
        let upper: usize = if range.end >= start {
            range.end
        } else {
            start
        };
        let end: usize = grapheme::clamp_to_grapheme(self.content.as_str(), upper);
        proof {
            grapheme::lemma_snap_monotone(
                grapheme::grapheme_starts(self.content@),
                self.content@,
                start as int,
                upper as int,
            );
            lemma_spliced(self@, start as int, end as int, replacement@);
        }
        let inserted_end: usize = self.splice(start, end, replacement);
        self.marked_range = if mark_inserted && !replacement.is_empty() {
            Some(start..inserted_end)
        } else {
            None
        };
        let (first, last): (usize, usize) = match selected_range {
            Some(r) => (r.start, r.end),
            None => (inserted_end, inserted_end),
        };
        let selected_start: usize = grapheme::clamp_to_grapheme(self.content.as_str(), first);
        let selected_upper: usize = if last >= selected_start {
            last
        } else {
            selected_start
        };
        let selected_end: usize = grapheme::clamp_to_grapheme(
            self.content.as_str(),
            selected_upper,
        );
        proof {
            grapheme::lemma_snap_monotone(
                grapheme::grapheme_starts(self.content@),
                self.content@,
                selected_start as int,
                selected_upper as int,
            );
        }
        self.selected_range = selected_start..selected_end;
        self.selection_reversed = false;
        proof {
            let q = AreaState {
                marked: None,
                ..old(self)@.spliced(start as int, end as int, replacement@)
            };
            assert(q.inv());
            assert(self@.text == q.text && self@.chips == q.chips);
        }
        Outcome::Changed
    }

    /// Ends the composition.
    pub fn unmark_text(&mut self) -> (o: Outcome)
        ensures
            heard(old(self)@, final(self)@, o),
            o == Outcome::Redraw,
            final(self)@ == (AreaState { marked: None, ..old(self)@ }),
            old(self)@.inv() ==> final(self)@.inv(),
            old(self)@.selection_ok() ==> final(self)@.selection_ok(),
            old(self)@.chips_aligned() ==> final(self)@.chips_aligned(),
    {
        self.marked_range = None;
        Outcome::Redraw
    }

    /// The text, without a copy.
    fn content(&self) -> (r: &str)
        ensures
            r@ == self@.text,
    {
        self.content.as_str()
    }

    /// The byte range of the first chip that holds `offset`.
    fn decoration_containing(&self, offset: usize) -> (r: Option<Range<usize>>)
        ensures
            is_range_of(r, chip_containing(self@.chips, offset as int)),
    {
        find_decoration_containing(&self.decorations, offset)
    }

    /// The byte range of the first chip that ends at `offset`.
    fn decoration_ending_at(&self, offset: usize) -> (r: Option<Range<usize>>)
        ensures
            is_range_of(r, chip_ending_at(self@.chips, offset as int)),
    {
        find_decoration_ending_at(&self.decorations, offset)
    }

    /// The byte range of the first chip that starts at `offset`.
    fn decoration_starting_at(&self, offset: usize) -> (r: Option<Range<usize>>)
        ensures
            is_range_of(r, chip_starting_at(self@.chips, offset as int)),
    {
        find_decoration_starting_at(&self.decorations, offset)
    }

    /// Whether a drag is in progress.
    pub fn dragging(&self) -> (r: bool)
        ensures
            r == (self@.anchor is Some),
    {
        self.drag_anchor.is_some()
    }

    /// Whether Enter submits an empty area.
    pub fn submits_empty(&self) -> (r: bool)
        ensures
            r == self@.submit_on_empty,
    {
        self.submit_on_empty
    }
}

/// The greater of two places is neither before the one nor before the other.
pub proof fn the_greater_is_one_of_both(a: int, b: int)
    ensures
        max(a, b) >= a && max(a, b) >= b,
        max(a, b) == a || max(a, b) == b,
        lines::min(a, b) <= a && lines::min(a, b) <= b,
        lines::min(a, b) == a || lines::min(a, b) == b,
{
}

} // verus!
