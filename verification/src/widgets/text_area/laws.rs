//! What holds of a text area across several operations.

use vstd::prelude::*;

use super::AreaState;
use super::Chip;
use crate::text;
use crate::text::grapheme;
use crate::text::lines;

verus! {

/// A chip that an edit leaves standing still covers the text it covered
/// before, under the same label.
pub proof fn chips_keep_their_text(st: AreaState, a: int, b: int, new: Seq<char>, i: int)
    requires
        st.inv(),
        st.chips_aligned(),
        super::range_of(st.text, a, b),
        0 <= i < st.spliced(a, b, new).chips.len(),
    ensures
        ({
            let r = st.spliced(a, b, new);
            exists|j: int|
                0 <= j < st.chips.len() && r.chips[i].label == (#[trigger] st.chips[j]).label
                    && text::between(r.text, r.chips[i].start, r.chips[i].end) == text::between(
                    st.text,
                    st.chips[j].start,
                    st.chips[j].end,
                )
        }),
{
    let r = st.spliced(a, b, new);
    let n = text::width(new) as int;
    let j = super::lemma_chip_origin(st.chips, a, b, n, i);
    let c = st.chips[j];
    let d = r.chips[i];
    assert(text::is_boundary(st.text, c.start) && text::is_boundary(st.text, c.end));
    text::lemma_boundary(st.text, a);
    let x = text::before(st.text, a);
    if c.end <= a {
        assert(r.text =~= x + (new + text::after(st.text, b)));
        lemma_text_kept_before(st.text, a, new + text::after(st.text, b), c.start, c.end);
    } else {
        text::lemma_width_concat(x, new);
        lemma_text_kept_after(st.text, b, x + new, c.start, c.end);
    }
    assert(text::between(r.text, d.start, d.end) == text::between(st.text, c.start, c.end));
}

proof fn lemma_text_kept_before(s: Seq<char>, a: int, rest: Seq<char>, p: int, q: int)
    requires
        text::is_boundary(s, a),
        super::range_of(s, p, q),
        q <= a,
    ensures
        text::between(text::before(s, a) + rest, p, q) == text::between(s, p, q),
{
    let x = text::before(s, a);
    super::lemma_boundary_before(s, a, p);
    super::lemma_boundary_before(s, a, q);
    text::lemma_between_first(x, rest, p, q);
    text::lemma_between_first(x, text::after(s, a), p, q);
    text::lemma_boundary(s, a);
}

proof fn lemma_text_kept_after(s: Seq<char>, b: int, head: Seq<char>, p: int, q: int)
    requires
        text::is_boundary(s, b),
        super::range_of(s, p, q),
        b <= p,
    ensures
        text::between(
            head + text::after(s, b),
            text::width(head) + (p - b),
            text::width(head) + (q - b),
        ) == text::between(s, p, q),
{
    let y = text::after(s, b);
    super::lemma_boundary_after(s, b, p);
    super::lemma_boundary_after(s, b, q);
    text::lemma_between_second(head, y, p - b, q - b);
    text::lemma_between_second(text::before(s, b), y, p - b, q - b);
    text::lemma_boundary(s, b);
}

/// Putting the replaced text back in the place of its replacement restores
/// the text.
pub proof fn edit_can_be_undone(st: AreaState, a: int, b: int, new: Seq<char>)
    requires
        super::range_of(st.text, a, b),
    ensures
        st.spliced(a, b, new).spliced(
            a,
            a + text::width(new),
            text::between(st.text, a, b),
        ).text == st.text,
{
    let x = text::before(st.text, a);
    let y = text::after(st.text, b);
    let r = st.spliced(a, b, new).text;
    text::lemma_boundary(st.text, a);
    text::lemma_boundary(st.text, b);
    text::lemma_boundary_order(st.text, a, b);
    assert(r =~= x + (new + y));
    text::lemma_boundary_concat(x, new + y);
    assert(r =~= (x + new) + y);
    text::lemma_width_concat(x, new);
    text::lemma_boundary_concat(x + new, y);
    assert(text::before(r, a) =~= x);
    assert(text::after(r, a + text::width(new)) =~= y);
    assert(x + text::between(st.text, a, b) + y =~= st.text);
}

/// Pasting what was cut, with the cursor where the cut left it, restores the
/// text.
pub proof fn cut_then_paste_restores(st: AreaState)
    requires
        st.selection_ok(),
    ensures
        st.selection_replaced(seq![]).selection_replaced(
            text::between(st.text, st.start, st.end),
        ).text == st.text,
{
    edit_can_be_undone(st, st.start, st.end, seq![]);
}

/// With the cursor right behind a chip, two Backspaces remove the text of the
/// chip and nothing else.
pub proof fn backspace_twice_removes_the_chip(st: AreaState)
    requires
        st.inv(),
        st.start == st.end,
        super::chip_ending_at(st.chips, st.cursor()) is Some,
    ensures
        ({
            let c = super::chip_ending_at(st.chips, st.cursor())->0;
            st.backspaced().backspaced() == st.replaced(c.start, c.end, seq![])
        }),
{
    let c = super::chip_ending_at(st.chips, st.cursor())->0;
    super::lemma_first_chip(st.chips, |d: Chip| d.end == st.cursor());
    assert(c.start < c.end);
    assert(st.backspaced().backspaced() =~= st.replaced(c.start, c.end, seq![]));
}

/// With the cursor right before a chip, two Deletes remove the text of the
/// chip and nothing else.
pub proof fn delete_twice_removes_the_chip(st: AreaState)
    requires
        st.inv(),
        st.start == st.end,
        super::chip_starting_at(st.chips, st.cursor()) is Some,
    ensures
        ({
            let c = super::chip_starting_at(st.chips, st.cursor())->0;
            st.deleted().deleted() == st.replaced(c.start, c.end, seq![])
        }),
{
    let c = super::chip_starting_at(st.chips, st.cursor())->0;
    super::lemma_first_chip(st.chips, |d: Chip| d.start == st.cursor());
    assert(c.start < c.end);
    assert(st.deleted().deleted() =~= st.replaced(c.start, c.end, seq![]));
}

/// Replacing exactly a chip's range drops that chip.
pub proof fn replacing_a_chip_drops_it(st: AreaState, i: int, new: Seq<char>)
    requires
        st.inv(),
        0 <= i < st.chips.len(),
    ensures
        st.replaced(st.chips[i].start, st.chips[i].end, new).chips.len() == st.chips.len() - 1,
{
    let c = st.chips[i];
    lemma_drop_one(st.chips, i, text::width(new) as int);
}

proof fn lemma_drop_one(chips: Seq<Chip>, i: int, n: int)
    requires
        0 <= i < chips.len(),
        forall|k: int| 0 <= k < chips.len() ==> (#[trigger] chips[k]).start < chips[k].end,
        forall|j: int, k: int|
            0 <= j < k < chips.len() ==> !super::overlap(
                (#[trigger] chips[j]).start,
                chips[j].end,
                (#[trigger] chips[k]).start,
                chips[k].end,
            ),
    ensures
        super::chips_after_edit(chips, chips[i].start, chips[i].end, n).len() == chips.len() - 1,
    decreases chips.len(),
{
    let init = chips.drop_last();
    let c = chips[i];
    assert forall|k: int| 0 <= k < init.len() implies #[trigger] init[k] == chips[k] by {}
    if i < init.len() {
        lemma_drop_one(init, i, n);
        let last = chips[chips.len() - 1];
        assert(!super::overlap(c.start, c.end, last.start, last.end));
    } else {
        lemma_keep_all(init, c.start, c.end, n);
    }
}

proof fn lemma_keep_all(chips: Seq<Chip>, a: int, b: int, n: int)
    requires
        forall|k: int| 0 <= k < chips.len() ==> !super::overlap(
                (#[trigger] chips[k]).start,
                chips[k].end,
                a,
                b,
            ),
    ensures
        super::chips_after_edit(chips, a, b, n).len() == chips.len(),
    decreases chips.len(),
{
    if chips.len() > 0 {
        let init = chips.drop_last();
        assert forall|k: int| 0 <= k < init.len() implies #[trigger] init[k] == chips[k] by {}
        lemma_keep_all(init, a, b, n);
        assert(!super::overlap(chips[chips.len() - 1].start, chips[chips.len() - 1].end, a, b));
    }
}

/// Whether `offset` lies strictly inside no chip.
pub open spec fn clear_of_chips(st: AreaState, offset: int) -> bool {
    forall|i: int|
        0 <= i < st.chips.len() ==> !((#[trigger] st.chips[i]).start < offset < st.chips[i].end)
}

/// Up, Down, Home and End never lead strictly inside a chip, and neither does
/// Left without a selection.
pub proof fn keys_lead_outside_chips(st: AreaState)
    requires
        st.inv(),
    ensures
        clear_of_chips(st, st.up_target()),
        clear_of_chips(st, st.down_target()),
        clear_of_chips(st, st.home_target()),
        clear_of_chips(st, st.end_target()),
        st.start >= st.end ==> clear_of_chips(st, st.left_target()),
{
    lemma_outside(
        st,
        st.from_cursor(|s: Seq<char>, k: int| lines::line_up_index(s, k)),
        true,
    );
    lemma_outside(
        st,
        st.from_cursor(|s: Seq<char>, k: int| lines::line_down_index(s, k)),
        false,
    );
    lemma_outside(
        st,
        st.from_cursor(|s: Seq<char>, k: int| lines::line_start_index(s, k)),
        true,
    );
    lemma_outside(
        st,
        st.from_cursor(|s: Seq<char>, k: int| lines::line_end_index(s, k)),
        false,
    );
    let prev = st.step_back(st.cursor());
    lemma_ends_are_clear(st);
    super::lemma_first_chip(st.chips, |c: Chip| c.start <= prev < c.end);
}

/// Right without a selection never leads strictly inside a chip, when chips
/// start on cluster starts.
pub proof fn right_leads_outside_chips(st: AreaState)
    requires
        st.inv(),
        st.start >= st.end,
        0 <= st.cursor() <= st.len(),
    ensures
        grapheme::cuts(grapheme::grapheme_starts(st.text), st.text) && (forall|i: int|
            0 <= i < st.chips.len() ==> grapheme::on_cluster(
                grapheme::grapheme_starts(st.text),
                st.len(),
                (#[trigger] st.chips[i]).start,
            )) ==> clear_of_chips(st, st.right_target()),
{
    let starts = grapheme::grapheme_starts(st.text);
    let here = st.cursor();
    lemma_ends_are_clear(st);
    super::lemma_first_chip(st.chips, |c: Chip| c.start <= here < c.end);
    if grapheme::cuts(starts, st.text) && (forall|i: int|
        0 <= i < st.chips.len() ==> grapheme::on_cluster(
            starts,
            st.len(),
            (#[trigger] st.chips[i]).start,
        )) && super::chip_containing(st.chips, here) is None {
        let next = st.step_forward(here);
        grapheme::lemma_next_start(starts, st.text, here);
        assert forall|i: int| 0 <= i < st.chips.len() implies !((#[trigger] st.chips[i]).start
            < next < st.chips[i].end) by {
            let c = st.chips[i];
            if c.start < next && next < c.end {
                assert(grapheme::on_cluster(starts, st.len(), c.start));
                let k = choose|k: int| 0 <= k < starts.len() && #[trigger] starts[k] == c.start;
                assert(starts[k] <= here);
            }
        }
    }
}

proof fn lemma_ends_are_clear(st: AreaState)
    requires
        st.inv(),
    ensures
        forall|i: int|
            0 <= i < st.chips.len() ==> clear_of_chips(st, (#[trigger] st.chips[i]).start)
                && clear_of_chips(st, st.chips[i].end),
{
    assert forall|i: int, k: int| 0 <= i < st.chips.len() && 0 <= k < st.chips.len() implies !((
    #[trigger] st.chips[k]).start < (#[trigger] st.chips[i]).start < st.chips[k].end) && !(
    st.chips[k].start < st.chips[i].end < st.chips[k].end) by {
        if i < k {
            assert(!super::overlap(
                st.chips[i].start,
                st.chips[i].end,
                st.chips[k].start,
                st.chips[k].end,
            ));
        } else if k < i {
            assert(!super::overlap(
                st.chips[k].start,
                st.chips[k].end,
                st.chips[i].start,
                st.chips[i].end,
            ));
        }
    }
}

proof fn lemma_outside(st: AreaState, offset: int, toward_start: bool)
    requires
        st.inv(),
    ensures
        clear_of_chips(st, st.outside_chips(offset, toward_start)),
{
    lemma_ends_are_clear(st);
    super::lemma_first_chip(st.chips, |c: Chip| c.start <= offset < c.end);
    match super::chip_containing(st.chips, offset) {
        Some(c) => {
            let i = choose|i: int| 0 <= i < st.chips.len() && #[trigger] st.chips[i] == c;
            assert(st.chips[i] == c);
        },
        None => {},
    }
}

/// Replacing puts the new text where the old one was, between what stands before it and
/// what stands behind it, and the cursor behind the new text, with nothing selected.
pub proof fn replacing_puts_the_text_between(
    st: AreaState,
    x: Seq<char>,
    m: Seq<char>,
    y: Seq<char>,
    new: Seq<char>,
)
    requires
        st.text == x + m + y,
    ensures
        ({
            let (a, b) = (text::width(x) as int, text::width(x + m) as int);
            let r = st.replaced(a, b, new);
            &&& st.spliced(a, b, new).text == x + new + y
            &&& r.text == x + new + y
            &&& r.start == text::width(x + new) && r.end == r.start && r.cursor() == r.start
            &&& !r.reversed && r.marked is None
            &&& r.anchor == st.anchor && r.click == st.click && r.placeholder == st.placeholder
            &&& r.submit_on_empty == st.submit_on_empty
            &&& st.start == a && st.end == b ==> st.selection_replaced(new).text == x + new + y
                && st.selection_replaced(new).cursor() == text::width(x + new)
        }),
{
    text::parts_are_cut_where_they_meet(x, m, y);
    text::lemma_width_concat(x, new);
}

/// An edit treats each chip on its own: one before it stays, one behind it moves along with
/// the text, and one that it touches goes.
pub proof fn edits_treat_chips_one_by_one(
    before: Seq<Chip>,
    c: Chip,
    after: Seq<Chip>,
    start: int,
    end: int,
    inserted: int,
)
    requires
        start <= end,
        c.start < c.end,
    ensures
        ({
            let f = |chips: Seq<Chip>| super::chips_after_edit(chips, start, end, inserted);
            let by = inserted - (end - start);
            &&& c.end <= start ==> f(before.push(c) + after) == f(before).push(c) + f(after)
            &&& c.start >= end ==> f(before.push(c) + after) == f(before).push(
                Chip { start: c.start + by, end: c.end + by, label: c.label },
            ) + f(after)
            &&& c.start < end && c.end > start ==> f(before.push(c) + after) == f(before) + f(after)
            &&& f(seq![]).len() == 0
        }),
    decreases after.len(),
{
    let all = before.push(c) + after;
    if after.len() == 0 {
        assert(all =~= before.push(c));
        assert(all.drop_last() =~= before);
        let none = super::chips_after_edit(after, start, end, inserted);
        assert(none =~= seq![]);
        assert(super::chips_after_edit(before, start, end, inserted) + none
            =~= super::chips_after_edit(before, start, end, inserted));
        let r = super::chips_after_edit(all, start, end, inserted);
        assert(r + none =~= r);
    } else {
        let init = after.drop_last();
        edits_treat_chips_one_by_one(before, c, init, start, end, inserted);
        assert(all.drop_last() =~= before.push(c) + init);
        assert(all.last() == after.last());
        let by = inserted - (end - start);
        let f0 = super::chips_after_edit(before, start, end, inserted);
        let f1 = super::chips_after_edit(init, start, end, inserted);
        let f2 = super::chips_after_edit(after, start, end, inserted);
        let r = super::chips_after_edit(all, start, end, inserted);
        if c.end <= start {
            assert(r =~= f0.push(c) + f2);
        } else if c.start >= end {
            assert(r =~= f0.push(
                Chip { start: c.start + by, end: c.end + by, label: c.label },
            ) + f2);
        } else {
            assert(r =~= f0 + f2);
        }
    }
}

/// A chip holds a place from its start up to before its end. The chip that holds, starts or
/// ends at a place is found if there is one.
pub proof fn chips_are_found_by_place(st: AreaState, i: int, offset: int)
    requires
        st.inv(),
        0 <= i < st.chips.len(),
    ensures
        ({
            let c = st.chips[i];
            &&& c.start <= offset < c.end ==> super::chip_containing(st.chips, offset) == Some(c)
            &&& c.start == offset ==> super::chip_starting_at(st.chips, offset) == Some(c)
            &&& c.end == offset ==> super::chip_ending_at(st.chips, offset) == Some(c)
            &&& super::chip_containing(st.chips, offset) matches Some(d) ==> d.start <= offset
                < d.end && st.chips.contains(d)
            &&& super::chip_starting_at(st.chips, offset) matches Some(d) ==> d.start == offset
                && st.chips.contains(d)
            &&& super::chip_ending_at(st.chips, offset) matches Some(d) ==> d.end == offset
                && st.chips.contains(d)
        }),
{
    let c = st.chips[i];
    super::lemma_first_chip(st.chips, |d: Chip| d.start <= offset < d.end);
    super::lemma_first_chip(st.chips, |d: Chip| d.start == offset);
    super::lemma_first_chip(st.chips, |d: Chip| d.end == offset);
    if c.start <= offset < c.end {
        let d = super::chip_containing(st.chips, offset)->0;
        let j = choose|j: int| 0 <= j < st.chips.len() && #[trigger] st.chips[j] == d;
        assert(i == j);
    }
    if c.start == offset {
        let d = super::chip_starting_at(st.chips, offset)->0;
        let j = choose|j: int| 0 <= j < st.chips.len() && #[trigger] st.chips[j] == d;
        assert(i == j);
    }
    if c.end == offset {
        let d = super::chip_ending_at(st.chips, offset)->0;
        let j = choose|j: int| 0 <= j < st.chips.len() && #[trigger] st.chips[j] == d;
        assert(i == j);
    }
}

/// Moving puts the cursor at a place and selects nothing; the text and its chips are as they
/// were.
pub proof fn moving_selects_nothing(st: AreaState, offset: int)
    ensures
        ({
            let r = st.moved_to(offset);
            &&& r.start == st.snapped(offset) && r.end == r.start && r.cursor() == r.start
            &&& !r.reversed && r.marked is None
            &&& r.text == st.text && r.chips == st.chips && r.anchor == st.anchor
            &&& r.click == st.click && r.placeholder == st.placeholder
            &&& r.submit_on_empty == st.submit_on_empty
        }),
{
}

/// Selecting moves the cursor and holds the other end of the selection where it is, also
/// when the one passes the other.
pub proof fn selecting_holds_the_other_end(st: AreaState, offset: int)
    requires
        st.start <= st.end,
    ensures
        ({
            let r = st.selecting_to(offset);
            let fixed = if st.cursor() == st.start {
                st.end
            } else {
                st.start
            };
            let other = if r.reversed {
                r.end
            } else {
                r.start
            };
            &&& r.cursor() == st.snapped(offset)
            &&& other == fixed
            &&& r.reversed <==> r.cursor() < fixed || (r.cursor() == fixed && st.reversed)
            &&& r.start <= r.end
            &&& r.marked is None && r.text == st.text && r.chips == st.chips
            &&& r.anchor == st.anchor && r.click == st.click
        }),
{
}

/// Dragging moves the cursor and holds the place where the drag began; where none is under
/// way it begins at the cursor.
pub proof fn dragging_holds_its_beginning(st: AreaState, offset: int)
    ensures
        ({
            let r = st.extended_to(offset);
            let fixed = match st.anchor {
                Some(a) => a,
                None => st.cursor(),
            };
            let other = if r.reversed {
                r.end
            } else {
                r.start
            };
            &&& r.cursor() == st.snapped(offset)
            &&& other == fixed
            &&& r.start <= r.end
            &&& r.reversed <==> st.snapped(offset) < fixed
            &&& r.anchor == Some(fixed)
            &&& r.marked is None && r.text == st.text && r.chips == st.chips
            &&& r.click == st.click
        }),
{
}

/// What is grabbed is selected, with the cursor at its end, and dragging goes on from its
/// beginning.
pub proof fn grabbing_selects(st: AreaState, a: int, b: int)
    ensures
        ({
            let r = st.grabbed(a, b);
            &&& r.start == a && r.end == b && r.cursor() == b && !r.reversed
            &&& r.anchor == Some(a) && r.marked is None
            &&& r.text == st.text && r.chips == st.chips && r.click == st.click
        }),
{
}

/// A click counts as another one of the same if it comes within four tenths of a second and
/// at most two bytes away, up to the third; then it counts as a first one again.
pub proof fn clicks_count_to_three(st: AreaState, now: int, offset: int)
    ensures
        st.click is None ==> st.click_count(now, offset) == 1,
        st.click matches Some(c) ==> {
            let near = now - c.0 < 400_000_000 && offset - c.1 <= 2 && c.1 - offset <= 2;
            &&& near && c.2 < 3 ==> st.click_count(now, offset) == c.2 + 1
            &&& !near || c.2 >= 3 ==> st.click_count(now, offset) == 1
        },
        st.clicked(now, offset).click == Some((now, offset, st.click_count(now, offset))),
        st.clicked(now, offset).text == st.text,
        st.clicked(now, offset).cursor() == st.cursor(),
        st.clicked(now, offset).chips == st.chips,
{
}

/// The line at a place goes from behind the line break before it to before the one behind
/// it.
pub proof fn lines_lie_between_breaks(st: AreaState, k: int, a: int, e: int)
    requires
        0 <= a <= k <= e <= st.text.len(),
        a == 0 || st.text[a - 1] == '\n',
        forall|j: int| a <= j < e ==> st.text[j] != '\n',
        e == st.text.len() || st.text[e] == '\n',
    ensures
        ({
            let at = text::offset_of(st.text, k) as int;
            &&& st.line_start_of(at) == text::offset_of(st.text, a)
            &&& st.line_end_of(at) == text::offset_of(st.text, e)
        }),
{
    text::lemma_index_of_offset(st.text, k);
    lines::lemma_line_start_unique(st.text, k, a);
    lines::lemma_line_end_unique(st.text, k, e);
}

/// A place strictly inside a chip leads out of it, to its start or to its end as asked; any
/// other place stays.
pub proof fn places_inside_chips_lead_out(st: AreaState, i: int, offset: int, toward_start: bool)
    requires
        st.inv(),
        0 <= i < st.chips.len(),
    ensures
        st.chips[i].start < offset < st.chips[i].end ==> st.outside_chips(offset, true)
            == st.chips[i].start && st.outside_chips(offset, false) == st.chips[i].end,
        clear_of_chips(st, offset) ==> st.outside_chips(offset, toward_start) == offset,
{
    chips_are_found_by_place(st, i, offset);
    if clear_of_chips(st, offset) && super::chip_containing(st.chips, offset) is Some {
        let d = super::chip_containing(st.chips, offset)->0;
        let j = choose|j: int| 0 <= j < st.chips.len() && #[trigger] st.chips[j] == d;
        assert(!(st.chips[j].start < offset < st.chips[j].end));
    }
}

proof fn lemma_stays(st: AreaState, offset: int, toward_start: bool)
    requires
        st.inv(),
        clear_of_chips(st, offset),
    ensures
        st.outside_chips(offset, toward_start) == offset,
{
    if st.chips.len() > 0 {
        places_inside_chips_lead_out(st, 0, offset, toward_start);
    }
}

/// Home leads to the start of the cursor's line and End to its end, where no chip lies
/// across. The line of the cursor, which is before character `k`, is `a..e`.
pub proof fn home_and_end_stay_on_the_line(st: AreaState, k: int, a: int, e: int)
    requires
        st.inv(),
        0 <= a <= k <= e <= st.text.len(),
        st.cursor() == text::offset_of(st.text, k),
        a == 0 || st.text[a - 1] == '\n',
        forall|j: int| a <= j < e ==> st.text[j] != '\n',
        e == st.text.len() || st.text[e] == '\n',
    ensures
        clear_of_chips(st, text::offset_of(st.text, a) as int) ==> st.home_target()
            == text::offset_of(st.text, a),
        clear_of_chips(st, text::offset_of(st.text, e) as int) ==> st.end_target()
            == text::offset_of(st.text, e),
{
    text::lemma_index_of_offset(st.text, k);
    lines::lemma_line_start_unique(st.text, k, a);
    lines::lemma_line_end_unique(st.text, k, e);
    if clear_of_chips(st, text::offset_of(st.text, a) as int) {
        lemma_stays(st, text::offset_of(st.text, a) as int, true);
    }
    if clear_of_chips(st, text::offset_of(st.text, e) as int) {
        lemma_stays(st, text::offset_of(st.text, e) as int, false);
    }
}

/// Down keeps the column on the next line as far as that line goes, where no chip lies
/// across. The line of the cursor, which is before character `k`, is `a..e`, and the next
/// one is `e + 1..f`.
pub proof fn down_keeps_the_cursors_column(st: AreaState, k: int, a: int, e: int, f: int)
    requires
        st.inv(),
        0 <= a <= k <= e < f <= st.text.len(),
        st.cursor() == text::offset_of(st.text, k),
        a == 0 || st.text[a - 1] == '\n',
        forall|j: int| a <= j < e ==> st.text[j] != '\n',
        st.text[e] == '\n',
        forall|j: int| e < j < f ==> st.text[j] != '\n',
        f == st.text.len() || st.text[f] == '\n',
    ensures
        ({
            let to = if k - a <= f - (e + 1) {
                e + 1 + (k - a)
            } else {
                f
            };
            clear_of_chips(st, text::offset_of(st.text, to) as int) ==> st.down_target()
                == text::offset_of(st.text, to)
        }),
{
    text::lemma_index_of_offset(st.text, k);
    lines::down_keeps_the_column(st.text, k, a, e, f);
    let to = lines::line_down_index(st.text, k);
    if clear_of_chips(st, text::offset_of(st.text, to) as int) {
        lemma_stays(st, text::offset_of(st.text, to) as int, false);
    }
}

/// Up keeps the column on the line before as far as that line goes, where no chip lies
/// across. The line of the cursor, which is before character `k`, begins at `a`, and the one
/// before it is `b..a - 1`.
pub proof fn up_keeps_the_cursors_column(st: AreaState, k: int, a: int, b: int)
    requires
        st.inv(),
        0 <= b < a <= k <= st.text.len(),
        st.cursor() == text::offset_of(st.text, k),
        forall|j: int| a <= j < k ==> st.text[j] != '\n',
        st.text[a - 1] == '\n',
        forall|j: int| b <= j < a - 1 ==> st.text[j] != '\n',
        b == 0 || st.text[b - 1] == '\n',
    ensures
        ({
            let to = if k - a <= (a - 1) - b {
                b + (k - a)
            } else {
                a - 1
            };
            clear_of_chips(st, text::offset_of(st.text, to) as int) ==> st.up_target()
                == text::offset_of(st.text, to)
        }),
{
    text::lemma_index_of_offset(st.text, k);
    lines::up_keeps_the_column(st.text, k, a, b);
    let to = lines::line_up_index(st.text, k);
    if clear_of_chips(st, text::offset_of(st.text, to) as int) {
        lemma_stays(st, text::offset_of(st.text, to) as int, true);
    }
}

/// Backspace takes away what is selected. Without a selection it takes away the step before
/// the cursor, unless a chip ends there, which it selects; at the start of the text it does
/// nothing. The text is made of `x`, what goes, and `y`.
pub proof fn backspace_takes_what_stands_before(
    st: AreaState,
    x: Seq<char>,
    m: Seq<char>,
    y: Seq<char>,
)
    requires
        st.text == x + m + y,
        m.len() > 0,
    ensures
        ({
            let (a, b) = (text::width(x) as int, text::width(x + m) as int);
            let r = st.backspaced();
            &&& st.start == a && st.end == b ==> r.text == x + y && r.start == a && r.end == a
            &&& st.start == b && st.end == b && st.step_back(b) == a && super::chip_ending_at(
                st.chips,
                b,
            ) is None ==> r.text == x + y && r.start == a && r.end == a
            &&& st.start == st.end && super::chip_ending_at(st.chips, st.cursor()) is Some ==> {
                let c = super::chip_ending_at(st.chips, st.cursor())->0;
                r.text == st.text && r.chips == st.chips && r.start == c.start && r.end == c.end
            }
            &&& st.start == st.end && st.step_back(st.cursor()) == st.cursor()
                && super::chip_ending_at(st.chips, st.cursor()) is None ==> r == st
        }),
{
    let none = Seq::<char>::empty();
    text::lemma_width_concat(x, m);
    assert(text::width(m) > 0);
    replacing_puts_the_text_between(st, x, m, y, none);
    assert(x + none + y =~= x + y);
    assert(x + none =~= x);
}

/// Delete takes away what is selected. Without a selection it takes away the step behind the
/// cursor, unless a chip starts there, which it selects; at the end of the text it does
/// nothing. The text is made of `x`, what goes, and `y`.
pub proof fn delete_takes_what_stands_behind(
    st: AreaState,
    x: Seq<char>,
    m: Seq<char>,
    y: Seq<char>,
)
    requires
        st.text == x + m + y,
        m.len() > 0,
    ensures
        ({
            let (a, b) = (text::width(x) as int, text::width(x + m) as int);
            let r = st.deleted();
            &&& st.start == a && st.end == b ==> r.text == x + y && r.start == a && r.end == a
            &&& st.start == a && st.end == a && st.step_forward(a) == b && super::chip_starting_at(
                st.chips,
                a,
            ) is None ==> r.text == x + y && r.start == a && r.end == a
            &&& st.start == st.end && super::chip_starting_at(st.chips, st.cursor()) is Some ==> {
                let c = super::chip_starting_at(st.chips, st.cursor())->0;
                r.text == st.text && r.chips == st.chips && r.start == c.start && r.end == c.end
            }
            &&& st.start == st.end && st.step_forward(st.cursor()) == st.cursor()
                && super::chip_starting_at(st.chips, st.cursor()) is None ==> r == st
        }),
{
    let none = Seq::<char>::empty();
    text::lemma_width_concat(x, m);
    assert(text::width(m) > 0);
    replacing_puts_the_text_between(st, x, m, y, none);
    assert(x + none + y =~= x + y);
    assert(x + none =~= x);
}

/// Left and Right leave a selection at its start and at its end. Without one they take one
/// step, and a chip in the way is one step.
pub proof fn left_and_right_take_one_step(st: AreaState)
    ensures
        st.start < st.end ==> st.left_target() == st.start && st.right_target() == st.end,
        st.start >= st.end ==> {
            let back = st.step_back(st.cursor());
            let behind = super::chip_containing(st.chips, back);
            let ahead = super::chip_containing(st.chips, st.cursor());
            &&& behind is None ==> st.left_target() == back
            &&& behind is Some ==> st.left_target() == behind->0.start
            &&& ahead is None ==> st.right_target() == st.step_forward(st.cursor())
            &&& ahead is Some ==> st.right_target() == ahead->0.end
        },
{
}

/// The steps of a text area are those of its text: from the start of a cluster back to the
/// start of the one before, and forward to the start of the next or to the end; a place in
/// between belongs to the start of its cluster.
pub proof fn steps_are_those_of_the_text(st: AreaState, i: int, offset: int)
    requires
        grapheme::cuts(grapheme::grapheme_starts(st.text), st.text),
        0 <= i < grapheme::grapheme_starts(st.text).len(),
    ensures
        ({
            let starts = grapheme::grapheme_starts(st.text);
            let next = if i + 1 < starts.len() {
                starts[i + 1] as int
            } else {
                text::width(st.text) as int
            };
            &&& starts[i] < offset <= next ==> st.step_back(offset) == starts[i]
            &&& starts[i] <= offset < next ==> st.step_forward(offset) == next
            &&& starts[i] <= offset < next ==> st.snapped(offset) == starts[i]
            &&& offset >= text::width(st.text) ==> st.snapped(offset) == text::width(st.text)
        }),
{
    grapheme::steps_lead_to_neighbours(
        grapheme::grapheme_starts(st.text),
        st.text,
        offset,
        i,
    );
}

/// What an input method composes goes where the old text was, and is marked if it is a
/// composition and not empty. The cursor is behind it, or where the method wants it. The
/// text is made of `x`, what goes, and `y`, cut where steps begin.
pub proof fn compositions_go_between(
    st: AreaState,
    x: Seq<char>,
    m: Seq<char>,
    y: Seq<char>,
    new: Seq<char>,
    mark: bool,
    p: int,
    q: int,
)
    requires
        st.text == x + m + y,
        st.snapped(text::width(x) as int) == text::width(x),
        st.snapped(text::width(x + m) as int) == text::width(x + m),
        p <= q,
    ensures
        ({
            let (a, b) = (text::width(x) as int, text::width(x + m) as int);
            let tail = text::width(x + new) as int;
            let r = st.composed(a, b, new, mark, None);
            let s = st.composed(a, b, new, mark, Some((p, q)));
            &&& r.text == x + new + y && s.text == r.text
            &&& r.marked == (if mark && new.len() > 0 {
                Some((a, tail))
            } else {
                None
            })
            &&& s.marked == r.marked
            &&& !r.reversed && !s.reversed
            &&& r.snapped(tail) == tail ==> r.start == tail && r.end == tail
            &&& s.snapped(p) == p && s.snapped(q) == q ==> s.start == p && s.end == q
            &&& r.anchor == st.anchor && r.placeholder == st.placeholder && r.click == st.click
        }),
{
    text::parts_are_cut_where_they_meet(x, m, y);
    text::lemma_width_concat(x, new);
    let (a, b) = (text::width(x) as int, text::width(x + m) as int);
    assert(super::max(b, a) == b);
    replacing_puts_the_text_between(st, x, m, y, new);
}

} // verus!
