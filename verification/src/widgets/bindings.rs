//! What the keys do in the text fields.

use vstd::prelude::*;

use crate::text::chars;

verus! {

/// What a key asks of a text area.
#[derive(Clone, Copy, Debug, PartialEq, Eq, Structural)]
pub enum AreaAction {
    Backspace,
    Delete,
    Left,
    Right,
    Up,
    Down,
    SelectLeft,
    SelectRight,
    SelectUp,
    SelectDown,
    Home,
    End,
    Submit,
    InsertNewline,
    Escape,
    SubmitImmediate,
    SelectAll,
    Copy,
    Paste,
    Cut,
}

/// What a key does in a text area on every system.
pub open spec fn area_action_everywhere(key: Seq<char>) -> Option<AreaAction> {
    if key == "backspace"@ {
        Some(AreaAction::Backspace)
    } else if key == "delete"@ {
        Some(AreaAction::Delete)
    } else if key == "left"@ {
        Some(AreaAction::Left)
    } else if key == "right"@ {
        Some(AreaAction::Right)
    } else if key == "up"@ {
        Some(AreaAction::Up)
    } else if key == "down"@ {
        Some(AreaAction::Down)
    } else if key == "shift-left"@ {
        Some(AreaAction::SelectLeft)
    } else if key == "shift-right"@ {
        Some(AreaAction::SelectRight)
    } else if key == "shift-up"@ {
        Some(AreaAction::SelectUp)
    } else if key == "shift-down"@ {
        Some(AreaAction::SelectDown)
    } else if key == "home"@ {
        Some(AreaAction::Home)
    } else if key == "end"@ {
        Some(AreaAction::End)
    } else if key == "enter"@ {
        Some(AreaAction::Submit)
    } else if key == "shift-enter"@ {
        Some(AreaAction::InsertNewline)
    } else if key == "escape"@ {
        Some(AreaAction::Escape)
    } else if key == "secondary-enter"@ {
        Some(AreaAction::SubmitImmediate)
    } else {
        None
    }
}

/// What a key does in a text area on a Mac, besides.
pub open spec fn area_action_on_mac(key: Seq<char>) -> Option<AreaAction> {
    if key == "cmd-a"@ {
        Some(AreaAction::SelectAll)
    } else if key == "cmd-c"@ {
        Some(AreaAction::Copy)
    } else if key == "cmd-v"@ {
        Some(AreaAction::Paste)
    } else if key == "cmd-x"@ {
        Some(AreaAction::Cut)
    } else if key == "cmd-shift-enter"@ {
        Some(AreaAction::SubmitImmediate)
    } else {
        None
    }
}

/// What a key does in a text area elsewhere, besides.
pub open spec fn area_action_elsewhere(key: Seq<char>) -> Option<AreaAction> {
    if key == "ctrl-shift-enter"@ {
        Some(AreaAction::SubmitImmediate)
    } else {
        None
    }
}

/// What a key does in a text area.
pub open spec fn area_action_bound(key: Seq<char>, macos: bool) -> Option<AreaAction> {
    match area_action_everywhere(key) {
        Some(action) => Some(action),
        None => if macos {
            area_action_on_mac(key)
        } else {
            area_action_elsewhere(key)
        },
    }
}

fn area_action_common(key: &str) -> (r: Option<AreaAction>)
    ensures
        r == area_action_everywhere(key@),
{
    if chars::same(key, "backspace") {
        Some(AreaAction::Backspace)
    } else if chars::same(key, "delete") {
        Some(AreaAction::Delete)
    } else if chars::same(key, "left") {
        Some(AreaAction::Left)
    } else if chars::same(key, "right") {
        Some(AreaAction::Right)
    } else if chars::same(key, "up") {
        Some(AreaAction::Up)
    } else if chars::same(key, "down") {
        Some(AreaAction::Down)
    } else if chars::same(key, "shift-left") {
        Some(AreaAction::SelectLeft)
    } else if chars::same(key, "shift-right") {
        Some(AreaAction::SelectRight)
    } else if chars::same(key, "shift-up") {
        Some(AreaAction::SelectUp)
    } else if chars::same(key, "shift-down") {
        Some(AreaAction::SelectDown)
    } else if chars::same(key, "home") {
        Some(AreaAction::Home)
    } else if chars::same(key, "end") {
        Some(AreaAction::End)
    } else if chars::same(key, "enter") {
        Some(AreaAction::Submit)
    } else if chars::same(key, "shift-enter") {
        Some(AreaAction::InsertNewline)
    } else if chars::same(key, "escape") {
        Some(AreaAction::Escape)
    } else if chars::same(key, "secondary-enter") {
        Some(AreaAction::SubmitImmediate)
    } else {
        None
    }
}

fn area_action_mac(key: &str) -> (r: Option<AreaAction>)
    ensures
        r == area_action_on_mac(key@),
{
    if chars::same(key, "cmd-a") {
        Some(AreaAction::SelectAll)
    } else if chars::same(key, "cmd-c") {
        Some(AreaAction::Copy)
    } else if chars::same(key, "cmd-v") {
        Some(AreaAction::Paste)
    } else if chars::same(key, "cmd-x") {
        Some(AreaAction::Cut)
    } else if chars::same(key, "cmd-shift-enter") {
        Some(AreaAction::SubmitImmediate)
    } else {
        None
    }
}

fn area_action_other(key: &str) -> (r: Option<AreaAction>)
    ensures
        r == area_action_elsewhere(key@),
{
    if chars::same(key, "ctrl-shift-enter") {
        Some(AreaAction::SubmitImmediate)
    } else {
        None
    }
}

/// What a key does in a text area, if it does anything. Keys are named with their
/// modifiers in front; `secondary` is the command key on a Mac and the control
/// key elsewhere.
pub fn area_action(key: &str, macos: bool) -> (r: Option<AreaAction>)
    ensures
        r == area_action_bound(key@, macos),
{
    match area_action_common(key) {
        Some(action) => Some(action),
        None => if macos {
            area_action_mac(key)
        } else {
            area_action_other(key)
        },
    }
}

/// What a key asks of a single-line field.
#[derive(Clone, Copy, Debug, PartialEq, Eq, Structural)]
pub enum InputAction {
    Backspace,
    Delete,
    Left,
    Right,
    SelectLeft,
    SelectRight,
    Home,
    End,
    SelectHome,
    SelectEnd,
    WordLeft,
    WordRight,
    SelectWordLeft,
    SelectWordRight,
    DeleteWordLeft,
    SelectAll,
    Copy,
    Paste,
    Cut,
    ShowCharacterPalette,
}

/// What a key does in a single-line field on every system.
pub open spec fn input_action_everywhere(key: Seq<char>) -> Option<InputAction> {
    if key == "backspace"@ {
        Some(InputAction::Backspace)
    } else if key == "delete"@ {
        Some(InputAction::Delete)
    } else if key == "left"@ {
        Some(InputAction::Left)
    } else if key == "right"@ {
        Some(InputAction::Right)
    } else if key == "shift-left"@ {
        Some(InputAction::SelectLeft)
    } else if key == "shift-right"@ {
        Some(InputAction::SelectRight)
    } else if key == "home"@ {
        Some(InputAction::Home)
    } else if key == "end"@ {
        Some(InputAction::End)
    } else if key == "shift-home"@ {
        Some(InputAction::SelectHome)
    } else if key == "shift-end"@ {
        Some(InputAction::SelectEnd)
    } else {
        None
    }
}

/// What a key does in a single-line field on a Mac, besides.
pub open spec fn input_action_on_mac(key: Seq<char>) -> Option<InputAction> {
    if key == "alt-left"@ {
        Some(InputAction::WordLeft)
    } else if key == "alt-right"@ {
        Some(InputAction::WordRight)
    } else if key == "alt-shift-left"@ {
        Some(InputAction::SelectWordLeft)
    } else if key == "alt-shift-right"@ {
        Some(InputAction::SelectWordRight)
    } else if key == "alt-backspace"@ {
        Some(InputAction::DeleteWordLeft)
    } else if key == "cmd-left"@ {
        Some(InputAction::Home)
    } else if key == "cmd-right"@ {
        Some(InputAction::End)
    } else if key == "cmd-shift-left"@ {
        Some(InputAction::SelectHome)
    } else if key == "cmd-shift-right"@ {
        Some(InputAction::SelectEnd)
    } else if key == "cmd-a"@ {
        Some(InputAction::SelectAll)
    } else if key == "cmd-c"@ {
        Some(InputAction::Copy)
    } else if key == "cmd-v"@ {
        Some(InputAction::Paste)
    } else if key == "cmd-x"@ {
        Some(InputAction::Cut)
    } else if key == "ctrl-cmd-space"@ {
        Some(InputAction::ShowCharacterPalette)
    } else {
        None
    }
}

/// What a key does in a single-line field elsewhere, besides.
pub open spec fn input_action_elsewhere(key: Seq<char>) -> Option<InputAction> {
    if key == "ctrl-a"@ {
        Some(InputAction::SelectAll)
    } else if key == "ctrl-c"@ {
        Some(InputAction::Copy)
    } else if key == "ctrl-v"@ {
        Some(InputAction::Paste)
    } else if key == "ctrl-x"@ {
        Some(InputAction::Cut)
    } else {
        None
    }
}

/// What a key does in a single-line field.
pub open spec fn input_action_bound(key: Seq<char>, macos: bool) -> Option<InputAction> {
    match input_action_everywhere(key) {
        Some(action) => Some(action),
        None => if macos {
            input_action_on_mac(key)
        } else {
            input_action_elsewhere(key)
        },
    }
}

fn input_action_common(key: &str) -> (r: Option<InputAction>)
    ensures
        r == input_action_everywhere(key@),
{
    if chars::same(key, "backspace") {
        Some(InputAction::Backspace)
    } else if chars::same(key, "delete") {
        Some(InputAction::Delete)
    } else if chars::same(key, "left") {
        Some(InputAction::Left)
    } else if chars::same(key, "right") {
        Some(InputAction::Right)
    } else if chars::same(key, "shift-left") {
        Some(InputAction::SelectLeft)
    } else if chars::same(key, "shift-right") {
        Some(InputAction::SelectRight)
    } else if chars::same(key, "home") {
        Some(InputAction::Home)
    } else if chars::same(key, "end") {
        Some(InputAction::End)
    } else if chars::same(key, "shift-home") {
        Some(InputAction::SelectHome)
    } else if chars::same(key, "shift-end") {
        Some(InputAction::SelectEnd)
    } else {
        None
    }
}

fn input_action_mac(key: &str) -> (r: Option<InputAction>)
    ensures
        r == input_action_on_mac(key@),
{
    if chars::same(key, "alt-left") {
        Some(InputAction::WordLeft)
    } else if chars::same(key, "alt-right") {
        Some(InputAction::WordRight)
    } else if chars::same(key, "alt-shift-left") {
        Some(InputAction::SelectWordLeft)
    } else if chars::same(key, "alt-shift-right") {
        Some(InputAction::SelectWordRight)
    } else if chars::same(key, "alt-backspace") {
        Some(InputAction::DeleteWordLeft)
    } else if chars::same(key, "cmd-left") {
        Some(InputAction::Home)
    } else if chars::same(key, "cmd-right") {
        Some(InputAction::End)
    } else if chars::same(key, "cmd-shift-left") {
        Some(InputAction::SelectHome)
    } else if chars::same(key, "cmd-shift-right") {
        Some(InputAction::SelectEnd)
    } else if chars::same(key, "cmd-a") {
        Some(InputAction::SelectAll)
    } else if chars::same(key, "cmd-c") {
        Some(InputAction::Copy)
    } else if chars::same(key, "cmd-v") {
        Some(InputAction::Paste)
    } else if chars::same(key, "cmd-x") {
        Some(InputAction::Cut)
    } else if chars::same(key, "ctrl-cmd-space") {
        Some(InputAction::ShowCharacterPalette)
    } else {
        None
    }
}

fn input_action_other(key: &str) -> (r: Option<InputAction>)
    ensures
        r == input_action_elsewhere(key@),
{
    if chars::same(key, "ctrl-a") {
        Some(InputAction::SelectAll)
    } else if chars::same(key, "ctrl-c") {
        Some(InputAction::Copy)
    } else if chars::same(key, "ctrl-v") {
        Some(InputAction::Paste)
    } else if chars::same(key, "ctrl-x") {
        Some(InputAction::Cut)
    } else {
        None
    }
}

/// What a key does in a single-line field, if it does anything. Keys are named
/// with their modifiers in front.
pub fn input_action(key: &str, macos: bool) -> (r: Option<InputAction>)
    ensures
        r == input_action_bound(key@, macos),
{
    match input_action_common(key) {
        Some(action) => Some(action),
        None => if macos {
            input_action_mac(key)
        } else {
            input_action_other(key)
        },
    }
}

/// What the keys do in a text area. The ones for the clipboard are bound here on the one
/// system only.
pub proof fn area_keys_do_what_they_say(macos: bool)
    ensures
        area_action_bound("backspace"@, macos) == Some(AreaAction::Backspace),
        area_action_bound("delete"@, macos) == Some(AreaAction::Delete),
        area_action_bound("left"@, macos) == Some(AreaAction::Left),
        area_action_bound("right"@, macos) == Some(AreaAction::Right),
        area_action_bound("up"@, macos) == Some(AreaAction::Up),
        area_action_bound("down"@, macos) == Some(AreaAction::Down),
        area_action_bound("shift-left"@, macos) == Some(AreaAction::SelectLeft),
        area_action_bound("shift-right"@, macos) == Some(AreaAction::SelectRight),
        area_action_bound("shift-up"@, macos) == Some(AreaAction::SelectUp),
        area_action_bound("shift-down"@, macos) == Some(AreaAction::SelectDown),
        area_action_bound("home"@, macos) == Some(AreaAction::Home),
        area_action_bound("end"@, macos) == Some(AreaAction::End),
        area_action_bound("enter"@, macos) == Some(AreaAction::Submit),
        area_action_bound("shift-enter"@, macos) == Some(AreaAction::InsertNewline),
        area_action_bound("escape"@, macos) == Some(AreaAction::Escape),
        area_action_bound("secondary-enter"@, macos) == Some(AreaAction::SubmitImmediate),
        area_action_bound("cmd-a"@, true) == Some(AreaAction::SelectAll),
        area_action_bound("cmd-c"@, true) == Some(AreaAction::Copy),
        area_action_bound("cmd-v"@, true) == Some(AreaAction::Paste),
        area_action_bound("cmd-x"@, true) == Some(AreaAction::Cut),
        area_action_bound("cmd-shift-enter"@, true) == Some(AreaAction::SubmitImmediate),
        area_action_bound("ctrl-shift-enter"@, false) == Some(AreaAction::SubmitImmediate),
        area_action_bound("cmd-c"@, false) is None,
        area_action_bound("ctrl-shift-enter"@, true) is None,
{
    reveal_strlit("backspace");
    reveal_strlit("delete");
    reveal_strlit("left");
    reveal_strlit("right");
    reveal_strlit("up");
    reveal_strlit("down");
    reveal_strlit("shift-left");
    reveal_strlit("shift-right");
    reveal_strlit("shift-up");
    reveal_strlit("shift-down");
    reveal_strlit("home");
    reveal_strlit("end");
    reveal_strlit("enter");
    reveal_strlit("shift-enter");
    reveal_strlit("escape");
    reveal_strlit("secondary-enter");
    reveal_strlit("cmd-a");
    reveal_strlit("cmd-c");
    reveal_strlit("cmd-v");
    reveal_strlit("cmd-x");
    reveal_strlit("cmd-shift-enter");
    reveal_strlit("ctrl-shift-enter");
    assert("backspace"@.len() == 9);
    assert("delete"@.len() == 6);
    assert("left"@.len() == 4);
    assert("right"@.len() == 5);
    assert("up"@.len() == 2);
    assert("down"@.len() == 4);
    assert("shift-left"@.len() == 10);
    assert("shift-right"@.len() == 11);
    assert("shift-up"@.len() == 8);
    assert("shift-down"@.len() == 10);
    assert("home"@.len() == 4);
    assert("end"@.len() == 3);
    assert("enter"@.len() == 5);
    assert("shift-enter"@.len() == 11);
    assert("escape"@.len() == 6);
    assert("secondary-enter"@.len() == 15);
    assert("cmd-a"@.len() == 5);
    assert("cmd-c"@.len() == 5);
    assert("cmd-v"@.len() == 5);
    assert("cmd-x"@.len() == 5);
    assert("cmd-shift-enter"@.len() == 15);
    assert("ctrl-shift-enter"@.len() == 16);
    assert("delete"@[0] == 'd');
    assert("escape"@[0] == 'e');
    assert("left"@[0] == 'l');
    assert("down"@[0] == 'd');
    assert("home"@[0] == 'h');
    assert("right"@[0] == 'r');
    assert("enter"@[0] == 'e');
    assert("cmd-a"@[0] == 'c');
    assert("cmd-c"@[0] == 'c');
    assert("cmd-v"@[0] == 'c');
    assert("cmd-x"@[0] == 'c');
    assert("shift-left"@[6] == 'l');
    assert("shift-down"@[6] == 'd');
    assert("shift-right"@[6] == 'r');
    assert("shift-enter"@[6] == 'e');
    assert("secondary-enter"@[0] == 's');
    assert("cmd-shift-enter"@[0] == 'c');
    assert("cmd-a"@[4] == 'a');
    assert("cmd-c"@[4] == 'c');
    assert("cmd-v"@[4] == 'v');
    assert("cmd-x"@[4] == 'x');
}

/// What the keys do in a text input: with shift they select where without it they move,
/// and the keys of the system lead further.
pub proof fn input_keys_do_what_they_say(macos: bool)
    ensures
        input_action_bound("backspace"@, macos) == Some(InputAction::Backspace),
        input_action_bound("delete"@, macos) == Some(InputAction::Delete),
        input_action_bound("left"@, macos) == Some(InputAction::Left),
        input_action_bound("right"@, macos) == Some(InputAction::Right),
        input_action_bound("shift-left"@, macos) == Some(InputAction::SelectLeft),
        input_action_bound("shift-right"@, macos) == Some(InputAction::SelectRight),
        input_action_bound("home"@, macos) == Some(InputAction::Home),
        input_action_bound("end"@, macos) == Some(InputAction::End),
        input_action_bound("shift-home"@, macos) == Some(InputAction::SelectHome),
        input_action_bound("shift-end"@, macos) == Some(InputAction::SelectEnd),
        input_action_bound("alt-left"@, true) == Some(InputAction::WordLeft),
        input_action_bound("alt-right"@, true) == Some(InputAction::WordRight),
        input_action_bound("alt-shift-left"@, true) == Some(InputAction::SelectWordLeft),
        input_action_bound("alt-shift-right"@, true) == Some(InputAction::SelectWordRight),
        input_action_bound("alt-backspace"@, true) == Some(InputAction::DeleteWordLeft),
        input_action_bound("cmd-left"@, true) == Some(InputAction::Home),
        input_action_bound("cmd-right"@, true) == Some(InputAction::End),
        input_action_bound("cmd-shift-left"@, true) == Some(InputAction::SelectHome),
        input_action_bound("cmd-shift-right"@, true) == Some(InputAction::SelectEnd),
        input_action_bound("cmd-a"@, true) == Some(InputAction::SelectAll),
        input_action_bound("cmd-c"@, true) == Some(InputAction::Copy),
        input_action_bound("cmd-v"@, true) == Some(InputAction::Paste),
        input_action_bound("cmd-x"@, true) == Some(InputAction::Cut),
        input_action_bound("ctrl-cmd-space"@, true) == Some(InputAction::ShowCharacterPalette),
        input_action_bound("ctrl-a"@, false) == Some(InputAction::SelectAll),
        input_action_bound("ctrl-c"@, false) == Some(InputAction::Copy),
        input_action_bound("ctrl-v"@, false) == Some(InputAction::Paste),
        input_action_bound("ctrl-x"@, false) == Some(InputAction::Cut),
        input_action_bound("cmd-c"@, false) is None,
        input_action_bound("ctrl-c"@, true) is None,
{
    reveal_strlit("backspace");
    reveal_strlit("delete");
    reveal_strlit("left");
    reveal_strlit("right");
    reveal_strlit("shift-left");
    reveal_strlit("shift-right");
    reveal_strlit("home");
    reveal_strlit("end");
    reveal_strlit("shift-home");
    reveal_strlit("shift-end");
    reveal_strlit("alt-left");
    reveal_strlit("alt-right");
    reveal_strlit("alt-shift-left");
    reveal_strlit("alt-shift-right");
    reveal_strlit("alt-backspace");
    reveal_strlit("cmd-left");
    reveal_strlit("cmd-right");
    reveal_strlit("cmd-shift-left");
    reveal_strlit("cmd-shift-right");
    reveal_strlit("cmd-a");
    reveal_strlit("cmd-c");
    reveal_strlit("cmd-v");
    reveal_strlit("cmd-x");
    reveal_strlit("ctrl-cmd-space");
    reveal_strlit("ctrl-a");
    reveal_strlit("ctrl-c");
    reveal_strlit("ctrl-v");
    reveal_strlit("ctrl-x");
    assert("backspace"@.len() == 9);
    assert("delete"@.len() == 6);
    assert("left"@.len() == 4);
    assert("right"@.len() == 5);
    assert("shift-left"@.len() == 10);
    assert("shift-right"@.len() == 11);
    assert("home"@.len() == 4);
    assert("end"@.len() == 3);
    assert("shift-home"@.len() == 10);
    assert("shift-end"@.len() == 9);
    assert("alt-left"@.len() == 8);
    assert("alt-right"@.len() == 9);
    assert("alt-shift-left"@.len() == 14);
    assert("alt-shift-right"@.len() == 15);
    assert("alt-backspace"@.len() == 13);
    assert("cmd-left"@.len() == 8);
    assert("cmd-right"@.len() == 9);
    assert("cmd-shift-left"@.len() == 14);
    assert("cmd-shift-right"@.len() == 15);
    assert("cmd-a"@.len() == 5);
    assert("cmd-c"@.len() == 5);
    assert("cmd-v"@.len() == 5);
    assert("cmd-x"@.len() == 5);
    assert("ctrl-cmd-space"@.len() == 14);
    assert("ctrl-a"@.len() == 6);
    assert("ctrl-c"@.len() == 6);
    assert("ctrl-v"@.len() == 6);
    assert("ctrl-x"@.len() == 6);
    assert("backspace"@[0] == 'b');
    assert("shift-end"@[0] == 's');
    assert("alt-right"@[0] == 'a');
    assert("cmd-right"@[0] == 'c');
    assert("delete"@[0] == 'd');
    assert("ctrl-a"@[0] == 'c');
    assert("ctrl-c"@[0] == 'c');
    assert("ctrl-v"@[0] == 'c');
    assert("ctrl-x"@[0] == 'c');
    assert("left"@[0] == 'l');
    assert("home"@[0] == 'h');
    assert("right"@[0] == 'r');
    assert("cmd-a"@[0] == 'c');
    assert("cmd-c"@[0] == 'c');
    assert("cmd-v"@[0] == 'c');
    assert("cmd-x"@[0] == 'c');
    assert("shift-left"@[6] == 'l');
    assert("shift-home"@[6] == 'h');
    assert("alt-left"@[0] == 'a');
    assert("cmd-left"@[0] == 'c');
    assert("alt-shift-left"@[0] == 'a');
    assert("cmd-shift-left"@[0] == 'c');
    assert("ctrl-cmd-space"@[0] == 'c');
    assert("alt-shift-right"@[0] == 'a');
    assert("cmd-shift-right"@[0] == 'c');
    assert("cmd-shift-left"@[1] == 'm');
    assert("ctrl-cmd-space"@[1] == 't');
    assert("cmd-a"@[4] == 'a');
    assert("cmd-c"@[4] == 'c');
    assert("cmd-v"@[4] == 'v');
    assert("cmd-x"@[4] == 'x');
    assert("ctrl-a"@[5] == 'a');
    assert("ctrl-c"@[5] == 'c');
    assert("ctrl-v"@[5] == 'v');
    assert("ctrl-x"@[5] == 'x');
}

} // verus!
