//! What the keys and the mouse do to a text area.

use vstd::prelude::*;

use super::AreaState;
use super::Outcome;
use super::TextArea;
use crate::text;
use crate::text::classes;
use crate::text::grapheme;
use crate::text::lines;

verus! {

impl AreaState {
    /// After Backspace: the selection goes; without one, a chip that ends at
    /// the cursor is selected, or else the cluster before the cursor goes.
    pub open spec fn backspaced(self) -> AreaState {
        let at = self.cursor();
        if self.start < self.end {
            self.selection_replaced(seq![])
        } else {
            match super::chip_ending_at(self.chips, at) {
                Some(c) => AreaState { start: c.start, end: c.end, ..self },
                None => if self.step_back(at) == at {
                    self
                } else {
                    self.replaced(self.step_back(at), at, seq![])
                },
            }
        }
    }

    /// After Delete: the selection goes; without one, a chip that starts at
    /// the cursor is selected, or else the cluster after the cursor goes.
    pub open spec fn deleted(self) -> AreaState {
        let at = self.cursor();
        if self.start < self.end {
            self.selection_replaced(seq![])
        } else {
            match super::chip_starting_at(self.chips, at) {
                Some(c) => AreaState { start: c.start, end: c.end, ..self },
                None => if self.step_forward(at) == at {
                    self
                } else {
                    self.replaced(at, self.step_forward(at), seq![])
                },
            }
        }
    }

    /// Where Left leads: to the start of the selection; without one, a
    /// cluster back, and over a chip as a whole.
    pub open spec fn left_target(self) -> int {
        if self.start < self.end {
            self.start
        } else {
            let prev = self.step_back(self.cursor());
            match super::chip_containing(self.chips, prev) {
                Some(c) => c.start,
                None => prev,
            }
        }
    }

    /// Where Right leads: to the end of the selection; without one, a cluster
    /// forward, and over a chip as a whole.
    pub open spec fn right_target(self) -> int {
        if self.start < self.end {
            self.end
        } else {
            match super::chip_containing(self.chips, self.cursor()) {
                Some(c) => c.end,
                None => self.step_forward(self.cursor()),
            }
        }
    }

    /// Where Up leads.
    pub open spec fn up_target(self) -> int {
        self.outside_chips(
            self.from_cursor(|s: Seq<char>, k: int| lines::line_up_index(s, k)),
            true,
        )
    }

    /// Where Down leads.
    pub open spec fn down_target(self) -> int {
        self.outside_chips(
            self.from_cursor(|s: Seq<char>, k: int| lines::line_down_index(s, k)),
            false,
        )
    }

    /// Where Home leads.
    pub open spec fn home_target(self) -> int {
        self.outside_chips(
            self.from_cursor(|s: Seq<char>, k: int| lines::line_start_index(s, k)),
            true,
        )
    }

    /// Where End leads.
    pub open spec fn end_target(self) -> int {
        self.outside_chips(
            self.from_cursor(|s: Seq<char>, k: int| lines::line_end_index(s, k)),
            false,
        )
    }
}

impl TextArea {
    /// `offset`, moved to an end of the chip that holds it strictly inside.
    fn snap_out_of_chip(&self, offset: usize, toward_start: bool) -> (r: usize)
        ensures
            r == self@.outside_chips(offset as int, toward_start),
    {
        match self.decoration_containing(offset) {
            Some(range) => {
                if offset > range.start {
                    if toward_start {
                        range.start
                    } else {
                        range.end
                    }
                } else {
                    offset
                }
            },
            None => offset,
        }
    }

    /// Backspace.
    pub fn backspace(&mut self) -> (o: Outcome)
        requires
            old(self)@.inv(),
            old(self)@.selection_ok(),
        ensures
            super::heard(old(self)@, final(self)@, o),
            final(self)@ == old(self)@.backspaced(),
            o == (if old(self)@.start < old(self)@.end {
                Outcome::Changed
            } else if super::chip_ending_at(old(self)@.chips, old(self)@.cursor()) is Some {
                if old(self)@.backspaced().cursor() != old(self)@.cursor() {
                    Outcome::Changed
                } else {
                    Outcome::Redraw
                }
            } else if old(self)@.step_back(old(self)@.cursor()) == old(self)@.cursor() {
                Outcome::Unchanged
            } else {
                Outcome::Changed
            }),
            final(self)@.inv(),
            old(self)@.chips_aligned() ==> final(self)@.selection_ok()
                && final(self)@.chips_aligned(),
    {
        assert(""@ =~= Seq::<char>::empty()) by {
            reveal_strlit("");
        }
        let sel = self.selection();
        if sel.start >= sel.end {
            let at: usize = self.cursor_offset();
            if let Some(range) = self.decoration_ending_at(at) {
                proof {
                    super::lemma_first_chip(self@.chips, |c: super::Chip| c.end == at as int);
                }
                self.select_range(range.start, range.end);
                return if self.cursor_offset() != at {
                    Outcome::Changed
                } else {
                    Outcome::Redraw
                };
            }
            let prev: usize = grapheme::prev_grapheme(self.content(), at);
            if prev == at {
                return Outcome::Unchanged;
            }
            self.select_range(prev, at);
        }
        self.replace_selection("")
    }

    /// Delete.
    pub fn delete(&mut self) -> (o: Outcome)
        requires
            old(self)@.inv(),
            old(self)@.selection_ok(),
        ensures
            super::heard(old(self)@, final(self)@, o),
            final(self)@ == old(self)@.deleted(),
            o == (if old(self)@.start < old(self)@.end {
                Outcome::Changed
            } else if super::chip_starting_at(old(self)@.chips, old(self)@.cursor()) is Some {
                if old(self)@.deleted().cursor() != old(self)@.cursor() {
                    Outcome::Changed
                } else {
                    Outcome::Redraw
                }
            } else if old(self)@.step_forward(old(self)@.cursor()) == old(self)@.cursor() {
                Outcome::Unchanged
            } else {
                Outcome::Changed
            }),
            final(self)@.inv(),
            old(self)@.chips_aligned() ==> final(self)@.selection_ok()
                && final(self)@.chips_aligned(),
    {
        assert(""@ =~= Seq::<char>::empty()) by {
            reveal_strlit("");
        }
        let sel = self.selection();
        if sel.start >= sel.end {
            let at: usize = self.cursor_offset();
            if let Some(range) = self.decoration_starting_at(at) {
                proof {
                    super::lemma_first_chip(self@.chips, |c: super::Chip| c.start == at as int);
                }
                self.select_range(range.start, range.end);
                return if self.cursor_offset() != at {
                    Outcome::Changed
                } else {
                    Outcome::Redraw
                };
            }
            let next: usize = grapheme::next_grapheme(self.content(), at);
            if next == at {
                return Outcome::Unchanged;
            }
            proof {
                text::lemma_boundary(self@.text, at as int);
            }
            self.select_range(at, next);
        }
        self.replace_selection("")
    }

    /// Left.
    pub fn left(&mut self) -> (o: Outcome)
        requires
            old(self)@.inv(),
        ensures
            super::heard(old(self)@, final(self)@, o),
            o == Outcome::Changed,
            final(self)@ == old(self)@.moved_to(old(self)@.left_target()),
            final(self)@.inv(),
            final(self)@.selection_ok(),
            old(self)@.chips_aligned() ==> final(self)@.chips_aligned(),
    {
        let sel = self.selection();
        if sel.start >= sel.end {
            let at: usize = self.cursor_offset();
            let prev: usize = grapheme::prev_grapheme(self.content(), at);
            let target: usize = match self.decoration_containing(prev) {
                Some(range) => range.start,
                None => prev,
            };
            self.move_to(target)
        } else {
            self.move_to(sel.start)
        }
    }

    /// Right.
    pub fn right(&mut self) -> (o: Outcome)
        requires
            old(self)@.inv(),
        ensures
            super::heard(old(self)@, final(self)@, o),
            o == Outcome::Changed,
            final(self)@ == old(self)@.moved_to(old(self)@.right_target()),
            final(self)@.inv(),
            final(self)@.selection_ok(),
            old(self)@.chips_aligned() ==> final(self)@.chips_aligned(),
    {
        let sel = self.selection();
        if sel.start >= sel.end {
            let here: usize = self.cursor_offset();
            if let Some(range) = self.decoration_containing(here) {
                return self.move_to(range.end);
            }
            let next: usize = grapheme::next_grapheme(self.content(), here);
            self.move_to(next)
        } else {
            self.move_to(sel.end)
        }
    }

    /// Up.
    pub fn up(&mut self) -> (o: Outcome)
        requires
            old(self)@.inv(),
            text::is_boundary(old(self)@.text, old(self)@.cursor()),
        ensures
            super::heard(old(self)@, final(self)@, o),
            o == Outcome::Changed,
            final(self)@ == old(self)@.moved_to(old(self)@.up_target()),
            final(self)@.inv(),
            final(self)@.selection_ok(),
            old(self)@.chips_aligned() ==> final(self)@.chips_aligned(),
    {
        let at: usize = self.cursor_offset();
        let target: usize = lines::offset_one_line_up(self.content(), at);
        let target: usize = self.snap_out_of_chip(target, true);
        self.move_to(target)
    }

    /// Down.
    pub fn down(&mut self) -> (o: Outcome)
        requires
            old(self)@.inv(),
            text::is_boundary(old(self)@.text, old(self)@.cursor()),
        ensures
            super::heard(old(self)@, final(self)@, o),
            o == Outcome::Changed,
            final(self)@ == old(self)@.moved_to(old(self)@.down_target()),
            final(self)@.inv(),
            final(self)@.selection_ok(),
            old(self)@.chips_aligned() ==> final(self)@.chips_aligned(),
    {
        let at: usize = self.cursor_offset();
        let target: usize = lines::offset_one_line_down(self.content(), at);
        let target: usize = self.snap_out_of_chip(target, false);
        self.move_to(target)
    }

    /// Home.
    pub fn home(&mut self) -> (o: Outcome)
        requires
            old(self)@.inv(),
            text::is_boundary(old(self)@.text, old(self)@.cursor()),
        ensures
            super::heard(old(self)@, final(self)@, o),
            o == Outcome::Changed,
            final(self)@ == old(self)@.moved_to(old(self)@.home_target()),
            final(self)@.inv(),
            final(self)@.selection_ok(),
            old(self)@.chips_aligned() ==> final(self)@.chips_aligned(),
    {
        let at: usize = self.cursor_offset();
        let target: usize = lines::line_start(self.content(), at);
        let target: usize = self.snap_out_of_chip(target, true);
        self.move_to(target)
    }

    /// End.
    pub fn end(&mut self) -> (o: Outcome)
        requires
            old(self)@.inv(),
            text::is_boundary(old(self)@.text, old(self)@.cursor()),
        ensures
            super::heard(old(self)@, final(self)@, o),
            o == Outcome::Changed,
            final(self)@ == old(self)@.moved_to(old(self)@.end_target()),
            final(self)@.inv(),
            final(self)@.selection_ok(),
            old(self)@.chips_aligned() ==> final(self)@.chips_aligned(),
    {
        let at: usize = self.cursor_offset();
        let target: usize = lines::line_end(self.content(), at);
        let target: usize = self.snap_out_of_chip(target, false);
        self.move_to(target)
    }

    /// Shift+Left.
    pub fn select_left(&mut self) -> (o: Outcome)
        requires
            old(self)@.inv(),
        ensures
            super::heard(old(self)@, final(self)@, o),
            o == Outcome::Changed,
            final(self)@ == old(self)@.selecting_to(old(self)@.step_back(old(self)@.cursor())),
            final(self)@.inv(),
            old(self)@.selection_ok() ==> final(self)@.selection_ok(),
            old(self)@.chips_aligned() ==> final(self)@.chips_aligned(),
    {
        let at: usize = self.cursor_offset();
        let prev: usize = grapheme::prev_grapheme(self.content(), at);
        self.select_to(prev)
    }

    /// Shift+Right.
    pub fn select_right(&mut self) -> (o: Outcome)
        requires
            old(self)@.inv(),
        ensures
            super::heard(old(self)@, final(self)@, o),
            o == Outcome::Changed,
            final(self)@ == old(self)@.selecting_to(old(self)@.step_forward(old(self)@.cursor())),
            final(self)@.inv(),
            old(self)@.selection_ok() ==> final(self)@.selection_ok(),
            old(self)@.chips_aligned() ==> final(self)@.chips_aligned(),
    {
        let at: usize = self.cursor_offset();
        let next: usize = grapheme::next_grapheme(self.content(), at);
        self.select_to(next)
    }

    /// Shift+Up.
    pub fn select_up(&mut self) -> (o: Outcome)
        requires
            old(self)@.inv(),
            text::is_boundary(old(self)@.text, old(self)@.cursor()),
        ensures
            super::heard(old(self)@, final(self)@, o),
            o == Outcome::Changed,
            final(self)@ == old(self)@.selecting_to(
                old(self)@.from_cursor(|s: Seq<char>, k: int| lines::line_up_index(s, k)),
            ),
            final(self)@.inv(),
            old(self)@.selection_ok() ==> final(self)@.selection_ok(),
            old(self)@.chips_aligned() ==> final(self)@.chips_aligned(),
    {
        let at: usize = self.cursor_offset();
        let target: usize = lines::offset_one_line_up(self.content(), at);
        self.select_to(target)
    }

    /// Shift+Down.
    pub fn select_down(&mut self) -> (o: Outcome)
        requires
            old(self)@.inv(),
            text::is_boundary(old(self)@.text, old(self)@.cursor()),
        ensures
            super::heard(old(self)@, final(self)@, o),
            o == Outcome::Changed,
            final(self)@ == old(self)@.selecting_to(
                old(self)@.from_cursor(|s: Seq<char>, k: int| lines::line_down_index(s, k)),
            ),
            final(self)@.inv(),
            old(self)@.selection_ok() ==> final(self)@.selection_ok(),
            old(self)@.chips_aligned() ==> final(self)@.chips_aligned(),
    {
        let at: usize = self.cursor_offset();
        let target: usize = lines::offset_one_line_down(self.content(), at);
        self.select_to(target)
    }

    /// What Copy puts on the clipboard: the selected text, when there is any.
    pub fn copy(&self) -> (r: Option<String>)
        requires
            self@.start < self@.end ==> self@.selection_ok(),
        ensures
            match r {
                Some(s) => self@.start < self@.end && s@ == text::between(
                    self@.text,
                    self@.start,
                    self@.end,
                ),
                None => self@.start >= self@.end,
            },
    {
        let sel = self.selection();
        if sel.start < sel.end {
            Some(text::slice(self.content(), sel.start, sel.end).to_string())
        } else {
            None
        }
    }

    /// Cut: what it puts on the clipboard, and what becomes of the area. The
    /// selected text goes; without a selection nothing happens.
    pub fn cut(&mut self) -> (r: (Option<String>, Outcome))
        requires
            old(self)@.inv(),
            old(self)@.start < old(self)@.end ==> old(self)@.selection_ok(),
        ensures
            super::heard(old(self)@, final(self)@, r.1),
            match r.0 {
                Some(s) => old(self)@.start < old(self)@.end && s@ == text::between(
                    old(self)@.text,
                    old(self)@.start,
                    old(self)@.end,
                ) && r.1 == Outcome::Changed && final(self)@ == old(self)@.selection_replaced(
                    seq![],
                ) && final(self)@.selection_ok(),
                None => old(self)@.start >= old(self)@.end && r.1 == Outcome::Unchanged
                    && final(self)@ == old(self)@,
            },
            final(self)@.inv(),
            old(self)@.chips_aligned() ==> final(self)@.chips_aligned(),
    {
        let taken = self.copy();
        if taken.is_none() {
            return (None, Outcome::Unchanged);
        }
        let o = self.replace_selection("");
        assert(""@ =~= Seq::<char>::empty()) by {
            reveal_strlit("");
        }
        (taken, o)
    }

    /// Paste: `clipboard` goes in the place of the selection; an empty
    /// clipboard, `None`, changes nothing.
    pub fn paste(&mut self, clipboard: Option<&str>) -> (o: Outcome)
        requires
            old(self)@.inv(),
            clipboard is Some ==> old(self)@.selection_ok(),
        ensures
            super::heard(old(self)@, final(self)@, o),
            match clipboard {
                Some(s) => o == Outcome::Changed && final(self)@ == old(self)@.selection_replaced(
                    s@,
                ) && final(self)@.selection_ok(),
                None => o == Outcome::Unchanged && final(self)@ == old(self)@,
            },
            final(self)@.inv(),
            old(self)@.chips_aligned() ==> final(self)@.chips_aligned(),
    {
        match clipboard {
            Some(s) => self.replace_selection(s),
            None => Outcome::Unchanged,
        }
    }

    /// Shift+Enter: a line break in the place of the selection.
    pub fn insert_newline(&mut self) -> (o: Outcome)
        requires
            old(self)@.inv(),
            old(self)@.selection_ok(),
        ensures
            super::heard(old(self)@, final(self)@, o),
            o == Outcome::Changed,
            final(self)@ == old(self)@.selection_replaced(seq!['\n']),
            final(self)@.inv(),
            final(self)@.selection_ok(),
            old(self)@.chips_aligned() ==> final(self)@.chips_aligned(),
    {
        assert("\n"@ =~= seq!['\n']) by {
            reveal_strlit("\n");
        }
        self.replace_selection("\n")
    }

    /// Types `text` in the place of the selection; an empty text changes
    /// nothing.
    pub fn insert_char(&mut self, text: &str) -> (o: Outcome)
        requires
            old(self)@.inv(),
            text@.len() > 0 ==> old(self)@.selection_ok(),
        ensures
            super::heard(old(self)@, final(self)@, o),
            if text@.len() == 0 {
                o == Outcome::Unchanged && final(self)@ == old(self)@
            } else {
                o == Outcome::Changed && final(self)@ == old(self)@.selection_replaced(text@)
                    && final(self)@.selection_ok()
            },
            final(self)@.inv(),
            old(self)@.chips_aligned() ==> final(self)@.chips_aligned(),
    {
        if text.is_empty() {
            return Outcome::Unchanged;
        }
        self.replace_selection(text)
    }

    /// Enter: the text to submit. A blank area submits nothing, unless it was
    /// told to.
    pub fn submit(&self) -> (r: Option<String>)
        ensures
            match r {
                Some(s) => s@ == self@.text && (self@.submit_on_empty || !classes::blank(
                    self@.text,
                )),
                None => !self@.submit_on_empty && classes::blank(self@.text),
            },
    {
        if !self.submits_empty() && classes::is_blank(self.content()) {
            return None;
        }
        Some(self.value())
    }

    /// Cmd+Enter: the text to submit at once. A blank area submits nothing.
    pub fn submit_immediate(&self) -> (r: Option<String>)
        ensures
            match r {
                Some(s) => s@ == self@.text && !classes::blank(self@.text),
                None => classes::blank(self@.text),
            },
    {
        if classes::is_blank(self.content()) {
            return None;
        }
        Some(self.value())
    }

    /// A left click at `offset` when a monotonic clock reads `now`
    /// nanoseconds. With Shift it extends the selection; a single click puts
    /// the cursor there, a double click selects the word, a triple click the
    /// line.
    pub fn mouse_down(&mut self, now: u64, offset: usize, shift: bool) -> (o: Outcome)
        requires
            old(self)@.inv(),
            !shift && old(self)@.click_count(now as int, offset as int) > 2 ==> text::is_boundary(
                old(self)@.text,
                offset as int,
            ),
        ensures
            super::heard(old(self)@, final(self)@, o),
            o == Outcome::Changed,
            ({
                let st = old(self)@.clicked(now as int, offset as int);
                let count = old(self)@.click_count(now as int, offset as int);
                let at = st.snapped(offset as int);
                if shift {
                    final(self)@ == old(self)@.extended_to(offset as int)
                } else if count == 1 {
                    final(self)@ == st.grabbed(at, at)
                } else if count == 2 {
                    final(self)@ == st.grabbed(final(self)@.start, final(self)@.end)
                        && grapheme::word_around(
                        grapheme::grapheme_starts(st.text),
                        st.text,
                        at,
                        final(self)@.start,
                        final(self)@.end,
                    )
                } else {
                    final(self)@ == st.grabbed(
                        st.line_start_of(offset as int),
                        st.line_end_of(offset as int),
                    )
                }
            }),
            final(self)@.inv(),
            old(self)@.selection_ok() && old(self)@.anchor_ok() ==> final(self)@.selection_ok()
                && final(self)@.anchor_ok(),
            old(self)@.chips_aligned() ==> final(self)@.chips_aligned(),
    {
        if shift {
            return self.extend_selection_to(offset);
        }
        let count: u8 = self.register_click(now, offset);
        if count == 1 {
            self.place_cursor_at(offset)
        } else if count == 2 {
            self.select_word_at(offset)
        } else {
            self.select_line_at(offset)
        }
    }

    /// The mouse moves to `offset` with the button down: a drag extends the
    /// selection.
    pub fn mouse_drag(&mut self, offset: usize) -> (o: Outcome)
        requires
            old(self)@.inv(),
        ensures
            super::heard(old(self)@, final(self)@, o),
            if old(self)@.anchor is Some {
                o == Outcome::Changed && final(self)@ == old(self)@.extended_to(offset as int)
            } else {
                o == Outcome::Unchanged && final(self)@ == old(self)@
            },
            final(self)@.inv(),
            old(self)@.selection_ok() && old(self)@.anchor_ok() ==> final(self)@.selection_ok()
                && final(self)@.anchor_ok(),
            old(self)@.chips_aligned() ==> final(self)@.chips_aligned(),
    {
        if self.dragging() {
            self.extend_selection_to(offset)
        } else {
            Outcome::Unchanged
        }
    }
}

} // verus!
