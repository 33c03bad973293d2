//! The title bar: dragging the window, and the sidebar's switch.

use vstd::prelude::*;

verus! {

/// What the title bar asks for.
#[derive(Clone, Copy, Debug, PartialEq, Eq, Structural)]
pub enum TitleBarEvent {
    ToggleSidebar,
}

/// The state of the title bar.
#[derive(Clone, Copy, Debug, PartialEq, Eq, Structural)]
pub struct TitleBar {
    /// Whether the next motion moves the window.
    pub should_move: bool,
    pub sidebar_visible: bool,
}

/// What the pointer does on the title bar.
#[derive(Clone, Copy, Debug, PartialEq, Eq, Structural)]
pub enum PointerEvent {
    /// The left button goes down on the bar.
    Down,
    /// The left button goes up.
    Up,
    /// A button goes down elsewhere.
    DownOutside,
    Move,
}

/// Whether the bar waits for a motion after an event, and whether the event
/// moves the window.
pub open spec fn after_pointer(armed: bool, event: PointerEvent) -> (bool, bool) {
    match event {
        PointerEvent::Down => (true, false),
        PointerEvent::Up => (false, false),
        PointerEvent::DownOutside => (false, false),
        PointerEvent::Move => (false, armed),
    }
}

impl TitleBar {
    /// Whether the next motion moves the window.
    pub open spec fn armed(self) -> bool {
        self.should_move
    }

    /// A title bar with the sidebar shown.
    pub fn new() -> (r: TitleBar)
        ensures
            !r.armed(),
            r.sidebar_visible,
    {
        TitleBar { should_move: false, sidebar_visible: true }
    }

    /// Takes what the pointer does; `true` when the window starts to move.
    pub fn pointer(&mut self, event: PointerEvent) -> (r: bool)
        ensures
            (final(self).armed(), r) == after_pointer(old(self).armed(), event),
            final(self).sidebar_visible == old(self).sidebar_visible,
    {
        match event {
            PointerEvent::Down => {
                self.should_move = true;
                false
            },
            PointerEvent::Up => {
                self.should_move = false;
                false
            },
            PointerEvent::DownOutside => {
                self.should_move = false;
                false
            },
            PointerEvent::Move => {
                let moves = self.should_move;
                self.should_move = false;
                moves
            },
        }
    }

    /// What the sidebar's switch is called.
    pub fn sidebar_tooltip(&self) -> (r: &'static str)
        ensures
            r@ == (if self.sidebar_visible {
                "Hide sidebar"@
            } else {
                "Show sidebar"@
            }),
    {
        if self.sidebar_visible {
            "Hide sidebar"
        } else {
            "Show sidebar"
        }
    }
}

/// Whether a click on the bar zooms the window: a double one does.
pub fn click_zooms(click_count: usize) -> (r: bool)
    ensures
        r == (click_count == 2),
{
    click_count == 2
}

/// Whether the bar waits for a motion after a row of events, having waited for
/// none before.
pub open spec fn armed_after(events: Seq<PointerEvent>) -> bool
    decreases events.len(),
{
    if events.len() == 0 {
        false
    } else {
        after_pointer(armed_after(events.drop_last()), events.last()).0
    }
}

/// A motion moves the window if and only if the event right before it was a
/// press on the bar: a press moves it once, and nothing else does.
pub proof fn only_a_press_starts_a_move(events: Seq<PointerEvent>)
    ensures
        armed_after(events) <==> events.len() > 0 && events.last() is Down,
{
}

/// A press on the bar arms it, and the next motion moves the window, once. A release or a
/// press elsewhere disarms it; neither moves the window, nor does a press.
pub proof fn a_press_and_a_motion_move_the_window(armed: bool)
    ensures
        after_pointer(armed, PointerEvent::Down) == (true, false),
        after_pointer(true, PointerEvent::Move) == (false, true),
        after_pointer(false, PointerEvent::Move) == (false, false),
        after_pointer(armed, PointerEvent::Up) == (false, false),
        after_pointer(armed, PointerEvent::DownOutside) == (false, false),
{
}

} // verus!
