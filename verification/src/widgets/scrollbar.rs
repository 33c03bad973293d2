//! What the pointer does to a scrollbar. Where its thumb is takes geometry; what
//! a press, a move or a release means for it does not.

use vstd::prelude::*;

verus! {

/// What a press on the bar does.
#[derive(Clone, Copy, Debug, PartialEq, Eq, Structural)]
pub enum ScrollbarPress {
    /// There is no thumb, so nothing can be scrolled.
    Ignored,
    /// The thumb is dragged from where it is.
    Grab,
    /// The thumb is centred under the pointer and dragged from there.
    Jump,
}

/// How the thumb is drawn.
#[derive(Clone, Copy, Debug, PartialEq, Eq, Structural)]
pub enum ThumbTint {
    Idle,
    Hovered,
    Dragged,
}

/// A press of the left button on the bar. `over_thumb` says whether the thumb is
/// under the pointer; `None` stands for a bar without a thumb.
pub fn scrollbar_press(dragging: &mut bool, over_thumb: Option<bool>) -> (r: ScrollbarPress)
    ensures
        *final(dragging) == (*old(dragging) || over_thumb is Some),
        r == (match over_thumb {
            None => ScrollbarPress::Ignored,
            Some(true) => ScrollbarPress::Grab,
            Some(false) => ScrollbarPress::Jump,
        }),
{
    match over_thumb {
        None => ScrollbarPress::Ignored,
        Some(over) => {
            *dragging = true;
            if over {
                ScrollbarPress::Grab
            } else {
                ScrollbarPress::Jump
            }
        },
    }
}

/// A move of the pointer, and whether the bar has to be redrawn for it. The thumb
/// is hovered while it is under the pointer. A drag goes on only while the left
/// button is down, so it also ends when the release was missed. A drag that goes
/// on scrolls.
pub fn scrollbar_move(
    hovered: &mut bool,
    dragging: &mut bool,
    over_thumb: bool,
    left_down: bool,
) -> (changed: bool)
    ensures
        *final(hovered) == over_thumb,
        *final(dragging) == (*old(dragging) && left_down),
        changed == (*old(hovered) != over_thumb || *old(dragging)),
{
    let changed = *hovered != over_thumb || *dragging;
    *hovered = over_thumb;
    *dragging = *dragging && left_down;
    changed
}

/// The release of a button: the left one ends a drag. Says whether one ended.
pub fn scrollbar_release(dragging: &mut bool, left: bool) -> (ended: bool)
    ensures
        *final(dragging) == (*old(dragging) && !left),
        ended == (*old(dragging) && left),
{
    let ended = *dragging && left;
    *dragging = *dragging && !left;
    ended
}

/// How the thumb is drawn: a drag shows over a hover.
pub fn thumb_tint(hovered: bool, dragging: bool) -> (r: ThumbTint)
    ensures
        r == (if dragging {
            ThumbTint::Dragged
        } else if hovered {
            ThumbTint::Hovered
        } else {
            ThumbTint::Idle
        }),
{
    if dragging {
        ThumbTint::Dragged
    } else if hovered {
        ThumbTint::Hovered
    } else {
        ThumbTint::Idle
    }
}

} // verus!
