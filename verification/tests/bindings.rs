use paneflow::widgets::bindings::{area_action, input_action, AreaAction, InputAction};

#[test]
fn enter_submits_and_shift_enter_breaks_the_line() {
    assert_eq!(area_action("enter", false), Some(AreaAction::Submit));
    assert_eq!(area_action("shift-enter", true), Some(AreaAction::InsertNewline));
    assert_eq!(
        area_action("secondary-enter", false),
        Some(AreaAction::SubmitImmediate)
    );
    assert_eq!(area_action("escape", false), Some(AreaAction::Escape));
    assert_eq!(area_action("f1", true), None);
}

#[test]
fn command_keys_belong_to_the_mac() {
    assert_eq!(area_action("cmd-v", true), Some(AreaAction::Paste));
    assert_eq!(area_action("cmd-v", false), None);
    assert_eq!(
        area_action("cmd-shift-enter", true),
        Some(AreaAction::SubmitImmediate)
    );
    assert_eq!(input_action("cmd-left", true), Some(InputAction::Home));
    assert_eq!(input_action("cmd-left", false), None);
    assert_eq!(
        input_action("alt-backspace", true),
        Some(InputAction::DeleteWordLeft)
    );
    assert_eq!(input_action("shift-end", false), Some(InputAction::SelectEnd));
    assert_eq!(input_action("enter", true), None);
}

#[test]
fn control_keys_belong_to_the_other_systems() {
    assert_eq!(
        area_action("ctrl-shift-enter", false),
        Some(AreaAction::SubmitImmediate)
    );
    assert_eq!(area_action("ctrl-shift-enter", true), None);
    for (key, action) in [
        ("ctrl-a", InputAction::SelectAll),
        ("ctrl-c", InputAction::Copy),
        ("ctrl-v", InputAction::Paste),
        ("ctrl-x", InputAction::Cut),
    ] {
        assert_eq!(input_action(key, false), Some(action));
        assert_eq!(input_action(key, true), None);
    }
}
