//! A single-line text input.

use core::ops::Range;

use vstd::prelude::*;

use crate::text;
use crate::text::chars;
use crate::text::grapheme;
use crate::text::utf16;
use crate::text::words;
use crate::text_sanitize;
use crate::widgets::text_area::ime;
use crate::widgets::text_area::paint;
use crate::widgets::text_area::paint::Run;

verus! {

/// What an operation asks of the surroundings of the widget.
#[derive(Clone, Copy, Debug, PartialEq, Eq, Structural)]
pub enum InputOutcome {
    /// Nothing.
    Quiet,
    /// The widget has to be redrawn.
    Redraw,
    /// There was nothing to delete: the system bell rings.
    Bell,
}

/// What a text input holds, as a mathematical value.
#[verifier::ext_equal]
pub struct InputState {
    pub text: Seq<char>,
    pub placeholder: Seq<char>,
    /// The selection; its two ends are equal when it is a mere cursor.
    pub start: int,
    pub end: int,
    /// Whether the selection grew leftward, so that its start is the cursor.
    pub reversed: bool,
    /// The IME composition.
    pub marked: Option<(int, int)>,
    /// Whether the mouse is selecting.
    pub selecting: bool,
}

impl InputState {
    /// The end of the selection that moves.
    pub open spec fn cursor(self) -> int {
        if self.reversed {
            self.start
        } else {
            self.end
        }
    }

    /// Bytes of the text.
    pub open spec fn len(self) -> int {
        text::width(self.text) as int
    }

    /// What holds of every input: the composition is a part of the text, and not
    /// an empty one.
    pub open spec fn inv(self) -> bool {
        self.marked matches Some(m) ==> m.0 < m.1 && text::is_boundary(self.text, m.0)
            && text::is_boundary(self.text, m.1)
    }

    /// What is shown: the text, or the placeholder while it is empty.
    pub open spec fn shown(self) -> Seq<char> {
        if self.text.len() == 0 {
            self.placeholder
        } else {
            self.text
        }
    }

    /// Whether the selection is a range of the text.
    pub open spec fn selection_ok(self) -> bool {
        self.start <= self.end && text::is_boundary(self.text, self.start) && text::is_boundary(
            self.text,
            self.end,
        )
    }

    /// The cursor alone, at `offset`.
    pub open spec fn moved_to(self, offset: int) -> InputState {
        InputState { start: offset, end: offset, ..self }
    }

    /// The selection with its moving end at `offset`.
    pub open spec fn selecting_to(self, offset: int) -> InputState {
        let fixed = if self.reversed {
            self.end
        } else {
            self.start
        };
        InputState {
            start: if offset < fixed {
                offset
            } else {
                fixed
            },
            end: if offset < fixed {
                fixed
            } else {
                offset
            },
            reversed: offset < fixed || (offset == fixed && self.reversed),
            ..self
        }
    }

    /// The grapheme cluster start before `offset`.
    pub open spec fn step_back(self, offset: int) -> int {
        grapheme::prev_start(grapheme::grapheme_starts(self.text), offset)
    }

    /// The grapheme cluster start after `offset`.
    pub open spec fn step_forward(self, offset: int) -> int {
        grapheme::next_start(grapheme::grapheme_starts(self.text), self.len(), offset)
    }

    /// The start of the word before the cursor.
    pub open spec fn word_back(self) -> int {
        text::offset_of(
            self.text,
            words::previous_word(
                self.text,
                text::index_of(self.text, words::capped(self.text, self.cursor())),
            ),
        ) as int
    }

    /// The end of the word after the cursor.
    pub open spec fn word_forward(self) -> int {
        text::offset_of(
            self.text,
            words::next_word(
                self.text,
                text::index_of(self.text, words::capped(self.text, self.cursor())),
            ),
        ) as int
    }

    /// Whether the cursor, moved into the text when it lies beyond, is a
    /// boundary.
    pub open spec fn cursor_ok(self) -> bool {
        text::is_boundary(self.text, words::capped(self.text, self.cursor()))
    }

    /// The byte range that new text goes in the place of. During a
    /// composition a given range counts from its start, and without one the
    /// whole composition goes. Otherwise it is the given range, or else the
    /// selection.
    pub open spec fn replacement_range(self, r: Option<(int, int)>) -> (int, int) {
        match (self.marked, r) {
            (Some(m), Some(u)) => {
                let composed = text::between(self.text, m.0, m.1);
                (
                    m.0 + utf16::from_units(composed, u.0) as int,
                    m.0 + utf16::from_units(composed, u.1) as int,
                )
            },
            (None, Some(u)) => (
                utf16::from_units(self.text, u.0) as int,
                utf16::from_units(self.text, u.1) as int,
            ),
            (Some(m), None) => m,
            (None, None) => (self.start, self.end),
        }
    }

    /// The text before `a`, then `new`, then the text from `b` on, with the
    /// cursor behind `new`.
    pub open spec fn replaced(self, a: int, b: int, new: Seq<char>) -> InputState {
        let at = a + text::width(new);
        InputState {
            text: text::before(self.text, a) + new + text::after(self.text, b),
            start: at,
            end: at,
            reversed: false,
            marked: None,
            ..self
        }
    }

    /// Whether both ends of what new text goes in the place of are boundaries.
    pub open spec fn replaceable(self, r: Option<(int, int)>) -> bool {
        let at = self.replacement_range(r);
        text::is_boundary(self.text, at.0) && text::is_boundary(self.text, at.1)
    }

    /// `new` in the place of the composition or the selection.
    pub open spec fn typed(self, new: Seq<char>) -> InputState {
        let at = self.replacement_range(None);
        self.replaced(at.0, at.1, new)
    }
}

/// Splicing keeps the seams on boundaries.
proof fn lemma_replaced(st: InputState, a: int, b: int, new: Seq<char>)
    requires
        text::is_boundary(st.text, a),
        text::is_boundary(st.text, b),
    ensures
        ({
            let r = st.replaced(a, b, new);
            &&& text::is_boundary(r.text, a)
            &&& text::is_boundary(r.text, a + text::width(new))
            &&& r.inv()
            &&& r.selection_ok()
            &&& a + text::width(new) <= text::width(r.text)
            &&& forall|i: int| #[trigger]
                text::is_boundary(new, i) ==> text::is_boundary(r.text, a + i)
        }),
{
    let x = text::before(st.text, a);
    let y = text::after(st.text, b);
    let r = st.replaced(a, b, new);
    text::lemma_boundary(st.text, a);
    text::lemma_width_concat(x, new);
    text::lemma_width_concat(x + new, y);
    text::lemma_boundary_concat(x, new);
    text::lemma_boundary_concat(x + new, y);
    assert(r.text =~= x + (new + y));
    text::lemma_boundary_concat(x, new + y);
    text::lemma_boundary_concat(new, y);
    assert forall|i: int| #[trigger] text::is_boundary(new, i) implies text::is_boundary(
        r.text,
        a + i,
    ) by {
        assert(text::is_boundary(new + y, i));
    }
}

/// A single-line text input.
pub struct TextInput {
    content: String,
    placeholder: String,
    selected_range: Range<usize>,
    selection_reversed: bool,
    marked_range: Option<Range<usize>>,
    is_selecting: bool,
}

impl View for TextInput {
    type V = InputState;

    closed spec fn view(&self) -> InputState {
        InputState {
            text: self.content@,
            placeholder: self.placeholder@,
            start: self.selected_range.start as int,
            end: self.selected_range.end as int,
            reversed: self.selection_reversed,
            marked: ime::pair_option(self.marked_range),
            selecting: self.is_selecting,
        }
    }
}

impl TextInput {
    /// An input that holds `initial`, with the cursor at its end.
    pub fn new(initial: String, placeholder: String) -> (r: TextInput)
        ensures
            r@ == (InputState {
                text: initial@,
                placeholder: placeholder@,
                start: text::width(initial@) as int,
                end: text::width(initial@) as int,
                reversed: false,
                marked: None,
                selecting: false,
            }),
            r@.inv(),
            r@.selection_ok(),
    {
        proof {
            text::lemma_ends_are_boundaries(initial@);
        }
        let cursor: usize = text::byte_len(initial.as_str());
        TextInput {
            content: initial,
            placeholder,
            selected_range: cursor..cursor,
            selection_reversed: false,
            marked_range: None,
            is_selecting: false,
        }
    }

    /// The start of the word before `offset`.
    pub fn previous_word_boundary(text: &str, offset: usize) -> (r: usize)
        requires
            text::is_boundary(text@, words::capped(text@, offset as int)),
        ensures
            r == text::offset_of(
                text@,
                words::previous_word(
                    text@,
                    text::index_of(text@, words::capped(text@, offset as int)),
                ),
            ),
    {
        words::previous_word_boundary(text, offset)
    }

    /// The end of the word after `offset`.
    pub fn next_word_boundary(text: &str, offset: usize) -> (r: usize)
        requires
            text::is_boundary(text@, words::capped(text@, offset as int)),
        ensures
            r == text::offset_of(
                text@,
                words::next_word(text@, text::index_of(text@, words::capped(text@, offset as int))),
            ),
    {
        words::next_word_boundary(text, offset)
    }

    /// The byte range that a UTF-16 range of `text` stands for.
    pub fn byte_range_from_utf16_in_text(text: &str, range_utf16: &Range<usize>) -> (r: Range<usize>)
        ensures
            r.start == utf16::from_units(text@, range_utf16.start as int),
            r.end == utf16::from_units(text@, range_utf16.end as int),
    {
        utf16::byte_range_from_utf16_in_text(text, range_utf16)
    }

    /// The text.
    pub fn value(&self) -> (r: String)
        ensures
            r@ == self@.text,
    {
        self.content.clone()
    }

    /// What the input shows: its text, or the placeholder while it is empty.
    pub fn display_text(&self) -> (r: &str)
        ensures
            r@ == self@.shown(),
    {
        if self.content.as_str().is_empty() {
            self.placeholder.as_str()
        } else {
            self.content.as_str()
        }
    }

    /// The runs of what the input shows: the composition is underlined.
    pub fn runs(&self) -> (r: Vec<Run>)
        requires
            self@.inv(),
        ensures
            r@ == paint::runs_of(text::width(self@.shown()) as usize, 0, self@.marked),
            paint::covered(r@) == text::width(self@.shown()),
    {
        let len: usize = text::byte_len(self.display_text());
        proof {
            paint::runs_cover_the_line(len, 0, self@.marked);
        }
        paint::text_runs_for_segment(len, 0, self.marked_range.as_ref())
    }

    /// Puts `value` in the place of the text, with the cursor at its end, and
    /// ends the composition and the selecting.
    pub fn set_value(&mut self, value: String) -> (o: InputOutcome)
        ensures
            o == InputOutcome::Redraw,
            final(self)@ == (InputState {
                text: value@,
                start: text::width(value@) as int,
                end: text::width(value@) as int,
                reversed: false,
                marked: None,
                selecting: false,
                ..old(self)@
            }),
            final(self)@.inv(),
            final(self)@.selection_ok(),
    {
        proof {
            text::lemma_ends_are_boundaries(value@);
        }
        let cursor: usize = text::byte_len(value.as_str());
        self.content = value;
        self.selected_range = cursor..cursor;
        self.selection_reversed = false;
        self.marked_range = None;
        self.is_selecting = false;
        InputOutcome::Redraw
    }

    /// Removes the text.
    pub fn clear(&mut self) -> (o: InputOutcome)
        ensures
            o == InputOutcome::Redraw,
            final(self)@ == (InputState {
                text: seq![],
                start: 0,
                end: 0,
                reversed: false,
                marked: None,
                selecting: false,
                ..old(self)@
            }),
            final(self)@.inv(),
            final(self)@.selection_ok(),
    {
        self.set_value(String::new())
    }

    /// The byte offset of the cursor.
    pub fn cursor_offset(&self) -> (r: usize)
        ensures
            r == self@.cursor(),
    {
        if self.selection_reversed {
            self.selected_range.start
        } else {
            self.selected_range.end
        }
    }

    /// The selected byte range.
    pub fn selection(&self) -> (r: Range<usize>)
        ensures
            r.start == self@.start,
            r.end == self@.end,
    {
        self.selected_range.start..self.selected_range.end
    }

    /// The byte range of the IME composition.
    pub fn marked(&self) -> (r: Option<Range<usize>>)
        ensures
            ime::pair_option(r) == self@.marked,
    {
        match &self.marked_range {
            Some(m) => Some(m.start..m.end),
            None => None,
        }
    }

    fn content(&self) -> (r: &str)
        ensures
            r@ == self@.text,
    {
        self.content.as_str()
    }

    /// Puts the cursor at `offset`.
    pub fn move_to(&mut self, offset: usize) -> (o: InputOutcome)
        ensures
            o == InputOutcome::Redraw,
            final(self)@ == old(self)@.moved_to(offset as int),
            old(self)@.inv() ==> final(self)@.inv(),
            text::is_boundary(old(self)@.text, offset as int) ==> final(self)@.selection_ok(),
    {
        self.selected_range = offset..offset;
        InputOutcome::Redraw
    }

    /// Moves the cursor to `offset`, with the other end of the selection where
    /// it is.
    pub fn select_to(&mut self, offset: usize) -> (o: InputOutcome)
        ensures
            o == InputOutcome::Redraw,
            final(self)@ == old(self)@.selecting_to(offset as int),
            old(self)@.inv() ==> final(self)@.inv(),
            old(self)@.selection_ok() && text::is_boundary(old(self)@.text, offset as int)
                ==> final(self)@.selection_ok(),
    {
        let mut start: usize = self.selected_range.start;
        let mut end: usize = self.selected_range.end;
        if self.selection_reversed {
            start = offset;
        } else {
            end = offset;
        }
        if end < start {
            self.selection_reversed = !self.selection_reversed;
            self.selected_range = end..start;
        } else {
            self.selected_range = start..end;
        }
        InputOutcome::Redraw
    }

    /// Left: to the start of the selection; without one, a cluster back.
    pub fn left(&mut self) -> (o: InputOutcome)
        ensures
            o == InputOutcome::Redraw,
            final(self)@ == old(self)@.moved_to(
                if old(self)@.start < old(self)@.end {
                    old(self)@.start
                } else {
                    old(self)@.step_back(old(self)@.cursor())
                },
            ),
            old(self)@.inv() ==> final(self)@.inv(),
            old(self)@.selection_ok() ==> final(self)@.selection_ok(),
    {
        let sel = self.selection();
        if sel.start < sel.end {
            self.move_to(sel.start)
        } else {
            let at: usize = self.cursor_offset();
            let prev: usize = grapheme::prev_grapheme(self.content(), at);
            self.move_to(prev)
        }
    }

    /// Right: to the end of the selection; without one, a cluster forward.
    pub fn right(&mut self) -> (o: InputOutcome)
        ensures
            o == InputOutcome::Redraw,
            final(self)@ == old(self)@.moved_to(
                if old(self)@.start < old(self)@.end {
                    old(self)@.end
                } else {
                    old(self)@.step_forward(old(self)@.end)
                },
            ),
            old(self)@.inv() ==> final(self)@.inv(),
            old(self)@.selection_ok() ==> final(self)@.selection_ok(),
    {
        let sel = self.selection();
        if sel.start < sel.end {
            self.move_to(sel.end)
        } else {
            let next: usize = grapheme::next_grapheme(self.content(), sel.end);
            self.move_to(next)
        }
    }

    /// Shift+Left.
    pub fn select_left(&mut self) -> (o: InputOutcome)
        ensures
            o == InputOutcome::Redraw,
            final(self)@ == old(self)@.selecting_to(old(self)@.step_back(old(self)@.cursor())),
            old(self)@.inv() ==> final(self)@.inv(),
            old(self)@.selection_ok() ==> final(self)@.selection_ok(),
    {
        let at: usize = self.cursor_offset();
        let prev: usize = grapheme::prev_grapheme(self.content(), at);
        self.select_to(prev)
    }

    /// Shift+Right.
    pub fn select_right(&mut self) -> (o: InputOutcome)
        ensures
            o == InputOutcome::Redraw,
            final(self)@ == old(self)@.selecting_to(old(self)@.step_forward(old(self)@.cursor())),
            old(self)@.inv() ==> final(self)@.inv(),
            old(self)@.selection_ok() ==> final(self)@.selection_ok(),
    {
        let at: usize = self.cursor_offset();
        let next: usize = grapheme::next_grapheme(self.content(), at);
        self.select_to(next)
    }

    /// Option+Left: to the start of the selection; without one, a word back.
    pub fn word_left(&mut self) -> (o: InputOutcome)
        requires
            old(self)@.start >= old(self)@.end ==> old(self)@.cursor_ok(),
        ensures
            o == InputOutcome::Redraw,
            final(self)@ == old(self)@.moved_to(
                if old(self)@.start < old(self)@.end {
                    old(self)@.start
                } else {
                    old(self)@.word_back()
                },
            ),
            old(self)@.inv() ==> final(self)@.inv(),
            old(self)@.selection_ok() ==> final(self)@.selection_ok(),
    {
        let sel = self.selection();
        if sel.start < sel.end {
            self.move_to(sel.start)
        } else {
            let at: usize = self.cursor_offset();
            let prev: usize = words::previous_word_boundary(self.content(), at);
            self.move_to(prev)
        }
    }

    /// Option+Right: to the end of the selection; without one, a word forward.
    pub fn word_right(&mut self) -> (o: InputOutcome)
        requires
            old(self)@.start >= old(self)@.end ==> old(self)@.cursor_ok(),
        ensures
            o == InputOutcome::Redraw,
            final(self)@ == old(self)@.moved_to(
                if old(self)@.start < old(self)@.end {
                    old(self)@.end
                } else {
                    old(self)@.word_forward()
                },
            ),
            old(self)@.inv() ==> final(self)@.inv(),
            old(self)@.selection_ok() ==> final(self)@.selection_ok(),
    {
        let sel = self.selection();
        if sel.start < sel.end {
            self.move_to(sel.end)
        } else {
            let at: usize = self.cursor_offset();
            let next: usize = words::next_word_boundary(self.content(), at);
            self.move_to(next)
        }
    }

    /// Option+Shift+Left.
    pub fn select_word_left(&mut self) -> (o: InputOutcome)
        requires
            old(self)@.cursor_ok(),
        ensures
            o == InputOutcome::Redraw,
            final(self)@ == old(self)@.selecting_to(old(self)@.word_back()),
            old(self)@.inv() ==> final(self)@.inv(),
            old(self)@.selection_ok() ==> final(self)@.selection_ok(),
    {
        let at: usize = self.cursor_offset();
        let prev: usize = words::previous_word_boundary(self.content(), at);
        self.select_to(prev)
    }

    /// Option+Shift+Right.
    pub fn select_word_right(&mut self) -> (o: InputOutcome)
        requires
            old(self)@.cursor_ok(),
        ensures
            o == InputOutcome::Redraw,
            final(self)@ == old(self)@.selecting_to(old(self)@.word_forward()),
            old(self)@.inv() ==> final(self)@.inv(),
            old(self)@.selection_ok() ==> final(self)@.selection_ok(),
    {
        let at: usize = self.cursor_offset();
        let next: usize = words::next_word_boundary(self.content(), at);
        self.select_to(next)
    }

    /// Selects all of the text.
    pub fn select_all(&mut self) -> (o: InputOutcome)
        ensures
            o == InputOutcome::Redraw,
            final(self)@ == old(self)@.moved_to(0).selecting_to(old(self)@.len()),
            final(self)@.start == 0,
            final(self)@.end == old(self)@.len(),
            old(self)@.inv() ==> final(self)@.inv(),
            final(self)@.selection_ok(),
    {
        proof {
            text::lemma_ends_are_boundaries(self.content@);
        }
        self.move_to(0);
        let end: usize = text::byte_len(self.content());
        self.select_to(end)
    }

    /// Home.
    pub fn home(&mut self) -> (o: InputOutcome)
        ensures
            o == InputOutcome::Redraw,
            final(self)@ == old(self)@.moved_to(0),
            old(self)@.inv() ==> final(self)@.inv(),
            final(self)@.selection_ok(),
    {
        proof {
            text::lemma_ends_are_boundaries(self.content@);
        }
        self.move_to(0)
    }

    /// End.
    pub fn end(&mut self) -> (o: InputOutcome)
        ensures
            o == InputOutcome::Redraw,
            final(self)@ == old(self)@.moved_to(old(self)@.len()),
            old(self)@.inv() ==> final(self)@.inv(),
            final(self)@.selection_ok(),
    {
        proof {
            text::lemma_ends_are_boundaries(self.content@);
        }
        let end: usize = text::byte_len(self.content());
        self.move_to(end)
    }

    /// Shift+Home.
    pub fn select_home(&mut self) -> (o: InputOutcome)
        ensures
            o == InputOutcome::Redraw,
            final(self)@ == old(self)@.selecting_to(0),
            old(self)@.inv() ==> final(self)@.inv(),
            old(self)@.selection_ok() ==> final(self)@.selection_ok(),
    {
        proof {
            text::lemma_ends_are_boundaries(self.content@);
        }
        self.select_to(0)
    }

    /// Shift+End.
    pub fn select_end(&mut self) -> (o: InputOutcome)
        ensures
            o == InputOutcome::Redraw,
            final(self)@ == old(self)@.selecting_to(old(self)@.len()),
            old(self)@.inv() ==> final(self)@.inv(),
            old(self)@.selection_ok() ==> final(self)@.selection_ok(),
    {
        proof {
            text::lemma_ends_are_boundaries(self.content@);
        }
        let end: usize = text::byte_len(self.content());
        self.select_to(end)
    }

    /// The byte range that new text goes in the place of.
    fn replacement_range_from_utf16(&self, range_utf16: &Option<Range<usize>>) -> (r: Range<usize>)
        requires
            self@.inv(),
        ensures
            ime::pair(r) == self@.replacement_range(ime::pair_option(*range_utf16)),
    {
        match (self.marked(), range_utf16) {
            (Some(m), Some(u)) => {
                let composed = text::slice(self.content(), m.start, m.end);
                proof {
                    text::lemma_boundary_order(self@.text, m.start as int, m.end as int);
                    text::lemma_boundary(self@.text, m.end as int);
                    utf16::from_units_is_boundary(composed@, u.start as int);
                    utf16::from_units_is_boundary(composed@, u.end as int);
                }
                let relative = utf16::byte_range_from_utf16_in_text(composed, u);
                m.start + relative.start..m.start + relative.end
            },
            (None, Some(u)) => utf16::byte_range_from_utf16_in_text(self.content(), u),
            (Some(m), None) => m,
            (None, None) => self.selection(),
        }
    }

    /// Puts `new_text` where the input service asks, or else in the place of
    /// the composition or the selection, and ends the composition.
    pub fn replace_text_in_range(&mut self, range_utf16: Option<Range<usize>>, new_text: &str) -> (o:
        InputOutcome)
        requires
            old(self)@.inv(),
            old(self)@.replaceable(ime::pair_option(range_utf16)),
        ensures
            o == InputOutcome::Redraw,
            ({
                let at = old(self)@.replacement_range(ime::pair_option(range_utf16));
                final(self)@ == old(self)@.replaced(at.0, at.1, new_text@)
            }),
            final(self)@.inv(),
            final(self)@.selection_ok(),
    {
        let range = self.replacement_range_from_utf16(&range_utf16);
        proof {
            lemma_replaced(self@, range.start as int, range.end as int, new_text@);
        }
        let (head, _) = text::split(self.content(), range.start);
        let (_, tail) = text::split(self.content(), range.end);
        let content = chars::concat3(head, new_text, tail);
        let total: usize = text::byte_len(content.as_str());
        self.content = content;
        let at: usize = range.start + text::byte_len(new_text);
        self.selected_range = at..at;
        self.selection_reversed = false;
        self.marked_range = None;
        InputOutcome::Redraw
    }

    /// Puts `new_text` where the input service asks, and makes it the
    /// composition. The new selection counts from the start of that place.
    pub fn replace_and_mark_text_in_range(
        &mut self,
        range_utf16: Option<Range<usize>>,
        new_text: &str,
        new_selected_range_utf16: Option<Range<usize>>,
    ) -> (o: InputOutcome)
        requires
            old(self)@.inv(),
            old(self)@.replaceable(ime::pair_option(range_utf16)),
        ensures
            o == InputOutcome::Redraw,
            ({
                let at = old(self)@.replacement_range(ime::pair_option(range_utf16));
                let tail = at.0 + text::width(new_text@);
                final(self)@ == InputState {
                    marked: if new_text@.len() > 0 {
                        Some((at.0, tail))
                    } else {
                        None
                    },
                    start: match new_selected_range_utf16 {
                        Some(u) => at.0 + utf16::from_units(new_text@, u.start as int) as int,
                        None => tail,
                    },
                    end: match new_selected_range_utf16 {
                        Some(u) => at.0 + utf16::from_units(new_text@, u.end as int) as int,
                        None => tail,
                    },
                    ..old(self)@.replaced(at.0, at.1, new_text@)
                }
            }),
            final(self)@.inv(),
            (new_selected_range_utf16 matches Some(u) ==> u.start <= u.end)
                ==> final(self)@.selection_ok(),
    {
        let range = self.replacement_range_from_utf16(&range_utf16);
        proof {
            lemma_replaced(self@, range.start as int, range.end as int, new_text@);
        }
        let (head, _) = text::split(self.content(), range.start);
        let (_, tail) = text::split(self.content(), range.end);
        let content = chars::concat3(head, new_text, tail);
        let total: usize = text::byte_len(content.as_str());
        self.content = content;
        let at: usize = range.start + text::byte_len(new_text);
        self.marked_range = if !new_text.is_empty() {
            Some(range.start..at)
        } else {
            None
        };
        self.selected_range = match &new_selected_range_utf16 {
            Some(u) => {
                proof {
                    utf16::from_units_is_boundary(new_text@, u.start as int);
                    utf16::from_units_is_boundary(new_text@, u.end as int);
                }
                let relative = utf16::byte_range_from_utf16_in_text(new_text, u);
                range.start + relative.start..range.start + relative.end
            },
            None => at..at,
        };
        self.selection_reversed = false;
        InputOutcome::Redraw
    }

    /// Backspace: the selection goes; without one, the cluster before the
    /// cursor goes, or the bell rings when there is none.
    pub fn backspace(&mut self) -> (o: InputOutcome)
        requires
            old(self)@.inv(),
            old(self)@.selection_ok(),
        ensures
            ({
                let st = old(self)@;
                let at = st.cursor();
                if st.start < st.end {
                    o == InputOutcome::Redraw && final(self)@ == st.typed(seq![])
                } else if st.step_back(at) == at {
                    o == InputOutcome::Bell && final(self)@ == st
                } else {
                    o == InputOutcome::Redraw && final(self)@ == st.selecting_to(
                        st.step_back(at),
                    ).typed(seq![])
                }
            }),
            final(self)@.inv(),
            final(self)@.selection_ok(),
    {
        assert(""@ =~= Seq::<char>::empty()) by {
            reveal_strlit("");
        }
        let sel = self.selection();
        if sel.start >= sel.end {
            let at: usize = self.cursor_offset();
            let prev: usize = grapheme::prev_grapheme(self.content(), at);
            if at == prev {
                return InputOutcome::Bell;
            }
            self.select_to(prev);
        }
        self.replace_text_in_range(None, "")
    }

    /// Option+Backspace: the selection goes; without one, the word before the
    /// cursor goes, or the bell rings when there is none.
    pub fn delete_word_left(&mut self) -> (o: InputOutcome)
        requires
            old(self)@.inv(),
            old(self)@.selection_ok(),
        ensures
            ({
                let st = old(self)@;
                if st.start < st.end {
                    o == InputOutcome::Redraw && final(self)@ == st.typed(seq![])
                } else if st.word_back() == st.cursor() {
                    o == InputOutcome::Bell && final(self)@ == st
                } else {
                    o == InputOutcome::Redraw && final(self)@ == st.selecting_to(
                        st.word_back(),
                    ).typed(seq![])
                }
            }),
            final(self)@.inv(),
            final(self)@.selection_ok(),
    {
        assert(""@ =~= Seq::<char>::empty()) by {
            reveal_strlit("");
        }
        let sel = self.selection();
        if sel.start >= sel.end {
            let at: usize = self.cursor_offset();
            proof {
                text::lemma_boundary(self@.text, at as int);
            }
            let prev: usize = words::previous_word_boundary(self.content(), at);
            if at == prev {
                return InputOutcome::Bell;
            }
            self.select_to(prev);
        }
        self.replace_text_in_range(None, "")
    }

    /// Delete: the selection goes; without one, the cluster after the cursor
    /// goes, or the bell rings when there is none.
    pub fn delete(&mut self) -> (o: InputOutcome)
        requires
            old(self)@.inv(),
            old(self)@.selection_ok(),
        ensures
            ({
                let st = old(self)@;
                let at = st.cursor();
                if st.start < st.end {
                    o == InputOutcome::Redraw && final(self)@ == st.typed(seq![])
                } else if st.step_forward(at) == at {
                    o == InputOutcome::Bell && final(self)@ == st
                } else {
                    o == InputOutcome::Redraw && final(self)@ == st.selecting_to(
                        st.step_forward(at),
                    ).typed(seq![])
                }
            }),
            final(self)@.inv(),
            final(self)@.selection_ok(),
    {
        assert(""@ =~= Seq::<char>::empty()) by {
            reveal_strlit("");
        }
        let sel = self.selection();
        if sel.start >= sel.end {
            let at: usize = self.cursor_offset();
            let next: usize = grapheme::next_grapheme(self.content(), at);
            if at == next {
                return InputOutcome::Bell;
            }
            self.select_to(next);
        }
        self.replace_text_in_range(None, "")
    }

    /// The left button goes down over the character at `index`: the cursor
    /// goes there, or with Shift the selection extends there.
    pub fn on_mouse_down(&mut self, index: usize, shift: bool) -> (o: InputOutcome)
        ensures
            o == InputOutcome::Redraw,
            ({
                let st = InputState { selecting: true, ..old(self)@ };
                final(self)@ == if shift {
                    st.selecting_to(index as int)
                } else {
                    st.moved_to(index as int)
                }
            }),
            old(self)@.inv() ==> final(self)@.inv(),
            old(self)@.selection_ok() && text::is_boundary(old(self)@.text, index as int)
                ==> final(self)@.selection_ok(),
    {
        self.is_selecting = true;
        if shift {
            self.select_to(index)
        } else {
            self.move_to(index)
        }
    }

    /// The left button goes up.
    pub fn on_mouse_up(&mut self)
        ensures
            final(self)@ == (InputState { selecting: false, ..old(self)@ }),
            old(self)@.inv() ==> final(self)@.inv(),
            old(self)@.selection_ok() ==> final(self)@.selection_ok(),
    {
        self.is_selecting = false;
    }

    /// The mouse moves over the character at `index`.
    pub fn on_mouse_move(&mut self, index: usize) -> (o: InputOutcome)
        ensures
            if old(self)@.selecting {
                o == InputOutcome::Redraw && final(self)@ == old(self)@.selecting_to(index as int)
            } else {
                o == InputOutcome::Quiet && final(self)@ == old(self)@
            },
            old(self)@.inv() ==> final(self)@.inv(),
            old(self)@.selection_ok() && text::is_boundary(old(self)@.text, index as int)
                ==> final(self)@.selection_ok(),
    {
        if self.is_selecting {
            self.select_to(index)
        } else {
            InputOutcome::Quiet
        }
    }

    /// Paste: `clipboard`, with each of its line breaks as a space, goes in the
    /// place of the composition or the selection; an empty clipboard, `None`,
    /// changes nothing.
    pub fn paste(&mut self, clipboard: Option<&str>) -> (o: InputOutcome)
        requires
            old(self)@.inv(),
            clipboard is Some ==> old(self)@.replaceable(None),
        ensures
            match clipboard {
                Some(s) => o == InputOutcome::Redraw && final(self)@ == old(self)@.typed(
                    text_sanitize::breaks_as(s@, ' '),
                ) && final(self)@.selection_ok(),
                None => o == InputOutcome::Quiet && final(self)@ == old(self)@,
            },
            final(self)@.inv(),
    {
        match clipboard {
            Some(s) => {
                let sanitized = text_sanitize::replace_breaks(s, ' ');
                self.replace_text_in_range(None, sanitized.as_str())
            },
            None => InputOutcome::Quiet,
        }
    }

    /// What Copy puts on the clipboard: the selected text, when there is any.
    pub fn copy(&self) -> (r: Option<String>)
        requires
            self@.start < self@.end ==> self@.selection_ok(),
        ensures
            match r {
                Some(s) => self@.start < self@.end && s@ == text::between(
                    self@.text,
                    self@.start,
                    self@.end,
                ),
                None => self@.start >= self@.end,
            },
    {
        let sel = self.selection();
        if sel.start < sel.end {
            Some(text::slice(self.content(), sel.start, sel.end).to_string())
        } else {
            None
        }
    }

    /// Cut: what it puts on the clipboard, and what becomes of the input.
    pub fn cut(&mut self) -> (r: (Option<String>, InputOutcome))
        requires
            old(self)@.inv(),
            old(self)@.start < old(self)@.end ==> old(self)@.selection_ok(),
        ensures
            match r.0 {
                Some(s) => old(self)@.start < old(self)@.end && s@ == text::between(
                    old(self)@.text,
                    old(self)@.start,
                    old(self)@.end,
                ) && r.1 == InputOutcome::Redraw && final(self)@ == old(self)@.typed(seq![])
                    && final(self)@.selection_ok(),
                None => old(self)@.start >= old(self)@.end && r.1 == InputOutcome::Quiet
                    && final(self)@ == old(self)@,
            },
            final(self)@.inv(),
    {
        let taken = self.copy();
        if taken.is_none() {
            return (None, InputOutcome::Quiet);
        }
        assert(""@ =~= Seq::<char>::empty()) by {
            reveal_strlit("");
        }
        let o = self.replace_text_in_range(None, "");
        (taken, o)
    }

    /// The text that a UTF-16 range stands for, and the range it was taken
    /// from.
    pub fn text_for_range(&self, range_utf16: Range<usize>) -> (r: (String, Range<usize>))
        requires
            utf16::from_units(self@.text, range_utf16.start as int) <= utf16::from_units(
                self@.text,
                range_utf16.end as int,
            ),
        ensures
            ({
                let a = utf16::from_units(self@.text, range_utf16.start as int) as int;
                let b = utf16::from_units(self@.text, range_utf16.end as int) as int;
                &&& r.0@ == text::between(self@.text, a, b)
                &&& r.1.start == utf16::to_units(self@.text, a)
                &&& r.1.end == utf16::to_units(self@.text, b)
            }),
    {
        let range = utf16::byte_range_from_utf16_in_text(self.content(), &range_utf16);
        proof {
            utf16::from_units_is_boundary(self@.text, range_utf16.start as int);
            utf16::from_units_is_boundary(self@.text, range_utf16.end as int);
        }
        let start: usize = utf16::utf16_offset_in_text(self.content(), range.start);
        let end: usize = utf16::utf16_offset_in_text(self.content(), range.end);
        (text::slice(self.content(), range.start, range.end).to_string(), start..end)
    }

    /// The selection in UTF-16, and whether it grew leftward.
    pub fn selected_text_range(&self) -> (r: (Range<usize>, bool))
        ensures
            r.0.start == utf16::to_units(self@.text, self@.start),
            r.0.end == utf16::to_units(self@.text, self@.end),
            r.1 == self@.reversed,
    {
        let start: usize = utf16::utf16_offset_in_text(self.content(), self.selected_range.start);
        let end: usize = utf16::utf16_offset_in_text(self.content(), self.selected_range.end);
        (start..end, self.selection_reversed)
    }

    /// The composition in UTF-16.
    pub fn marked_text_range(&self) -> (r: Option<Range<usize>>)
        ensures
            match r {
                Some(u) => self@.marked matches Some(m) && u.start == utf16::to_units(
                    self@.text,
                    m.0,
                ) && u.end == utf16::to_units(self@.text, m.1),
                None => self@.marked is None,
            },
    {
        match &self.marked_range {
            Some(m) => {
                let start: usize = utf16::utf16_offset_in_text(self.content(), m.start);
                let end: usize = utf16::utf16_offset_in_text(self.content(), m.end);
                Some(start..end)
            },
            None => None,
        }
    }

    /// Ends the composition.
    pub fn unmark_text(&mut self)
        ensures
            final(self)@ == (InputState { marked: None, ..old(self)@ }),
            final(self)@.inv(),
            old(self)@.selection_ok() ==> final(self)@.selection_ok(),
    {
        self.marked_range = None;
    }
}

/// Pasting never puts a line break into the input.
pub proof fn pasted_text_has_one_line(st: InputState, s: Seq<char>)
    requires
        st.replaceable(None),
        forall|i: int| 0 <= i < st.text.len() ==> st.text[i] != '\n' && st.text[i] != '\r',
    ensures
        ({
            let r = st.typed(text_sanitize::breaks_as(s, ' ')).text;
            forall|i: int| 0 <= i < r.len() ==> #[trigger] r[i] != '\n' && r[i] != '\r'
        }),
{
    text_sanitize::breaks_are_gone(s, ' ');
    let at = st.replacement_range(None);
    text::lemma_boundary(st.text, at.0);
    text::lemma_boundary(st.text, at.1);
    let x = text::before(st.text, at.0);
    let m = text_sanitize::breaks_as(s, ' ');
    let y = text::after(st.text, at.1);
    let r = x + m + y;
    assert forall|i: int| 0 <= i < r.len() implies #[trigger] r[i] != '\n' && r[i] != '\r' by {
        if i < x.len() {
            assert(r[i] == st.text[i]);
        } else if i < x.len() + m.len() {
            assert(r[i] == m[i - x.len()]);
        } else {
            assert(r[i] == y[i - x.len() - m.len()]);
        }
    }
}

/// Moving puts the cursor at a place and selects nothing; nothing else is changed.
pub proof fn moving_selects_nothing(st: InputState, offset: int)
    ensures
        ({
            let r = st.moved_to(offset);
            &&& r.start == offset && r.end == offset && r.cursor() == offset
            &&& r.text == st.text && r.marked == st.marked && r.selecting == st.selecting
            &&& r.placeholder == st.placeholder
        }),
{
}

/// Selecting moves the cursor and holds the other end of the selection where it is, also
/// when the one passes the other.
pub proof fn selecting_holds_the_other_end(st: InputState, offset: int)
    requires
        st.start <= st.end,
    ensures
        ({
            let r = st.selecting_to(offset);
            let fixed = if st.cursor() == st.start {
                st.end
            } else {
                st.start
            };
            let other = if r.reversed {
                r.end
            } else {
                r.start
            };
            &&& r.cursor() == offset
            &&& other == fixed
            &&& r.reversed <==> offset < fixed || (offset == fixed && st.reversed)
            &&& r.start <= r.end
            &&& r.text == st.text && r.marked == st.marked && r.selecting == st.selecting
        }),
{
}

/// Replacing puts the new text where the old one was, between what stands before it and
/// what stands behind it, and the cursor behind the new text, with nothing selected or
/// marked.
pub proof fn replacing_puts_the_text_between(
    st: InputState,
    x: Seq<char>,
    m: Seq<char>,
    y: Seq<char>,
    new: Seq<char>,
)
    requires
        st.text == x + m + y,
    ensures
        ({
            let (a, b) = (text::width(x) as int, text::width(x + m) as int);
            let r = st.replaced(a, b, new);
            &&& r.text == x + new + y
            &&& r.start == text::width(x + new) && r.end == r.start && r.cursor() == r.start
            &&& !r.reversed && r.marked is None
            &&& r.placeholder == st.placeholder && r.selecting == st.selecting
            &&& st.marked is None && st.start == a && st.end == b ==> st.typed(new) == r
            &&& st.marked == Some((a, b)) ==> st.typed(new) == r
        }),
{
    text::parts_are_cut_where_they_meet(x, m, y);
    text::lemma_width_concat(x, new);
}

/// What is replaced is what the input method asks for: inside the composition, if there is
/// one, and otherwise in the text. Where it does not ask, it is the composition, and without
/// one the selection.
pub proof fn compositions_are_replaced_first(st: InputState, m: (int, int), i: int, j: int)
    requires
        0 <= i <= j,
    ensures
        st.marked is None ==> st.replacement_range(None) == (st.start, st.end),
        st.marked == Some(m) ==> st.replacement_range(None) == m,
        st.marked is None && j <= st.text.len() ==> st.replacement_range(
            Some(
                (
                    utf16::units(st.text.take(i)) as int,
                    utf16::units(st.text.take(j)) as int,
                ),
            ),
        ) == (text::offset_of(st.text, i) as int, text::offset_of(st.text, j) as int),
        st.marked == Some(m) ==> {
            let composed = text::between(st.text, m.0, m.1);
            j <= composed.len() ==> st.replacement_range(
                Some(
                    (
                        utf16::units(composed.take(i)) as int,
                        utf16::units(composed.take(j)) as int,
                    ),
                ),
            ) == (m.0 + text::offset_of(composed, i), m.0 + text::offset_of(composed, j))
        },
{
    if st.marked is None && j <= st.text.len() {
        utf16::lemma_covering_units_at(st.text, i);
        utf16::lemma_covering_units_at(st.text, j);
    }
    if st.marked == Some(m) {
        let composed = text::between(st.text, m.0, m.1);
        if j <= composed.len() {
            utf16::lemma_covering_units_at(composed, i);
            utf16::lemma_covering_units_at(composed, j);
        }
    }
}

/// A step by a word leads to the start of the word before the cursor, and to the end of the
/// one behind it.
pub proof fn word_steps_lead_to_words(st: InputState, k: int)
    requires
        0 <= k <= st.text.len(),
        st.cursor() == text::offset_of(st.text, k),
    ensures
        st.word_back() == text::offset_of(st.text, words::previous_word(st.text, k)),
        st.word_forward() == text::offset_of(st.text, words::next_word(st.text, k)),
{
    text::lemma_index_of_offset(st.text, k);
    text::lemma_offset_monotone(st.text, k, st.text.len() as int);
    assert(st.text.take(st.text.len() as int) =~= st.text);
}

/// The steps of a text input are those of its text.
pub proof fn steps_are_those_of_the_text(st: InputState, i: int, offset: int)
    requires
        grapheme::cuts(grapheme::grapheme_starts(st.text), st.text),
        0 <= i < grapheme::grapheme_starts(st.text).len(),
    ensures
        ({
            let starts = grapheme::grapheme_starts(st.text);
            let next = if i + 1 < starts.len() {
                starts[i + 1] as int
            } else {
                text::width(st.text) as int
            };
            &&& starts[i] < offset <= next ==> st.step_back(offset) == starts[i]
            &&& starts[i] <= offset < next ==> st.step_forward(offset) == next
        }),
{
    grapheme::steps_lead_to_neighbours(
        grapheme::grapheme_starts(st.text),
        st.text,
        offset,
        i,
    );
}

/// An empty input shows its placeholder, and any other its text.
pub proof fn placeholders_stand_for_nothing(st: InputState)
    ensures
        st.text.len() == 0 ==> st.shown() == st.placeholder,
        st.text.len() > 0 ==> st.shown() == st.text,
{
}

} // verus!
