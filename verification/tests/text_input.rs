use paneflow::widgets::text_area::paint::Run;
use paneflow::widgets::text_input::{InputOutcome, TextInput};

#[test]
fn utf16_range_conversion_handles_surrogate_pairs() {
    let text = "a😀b";

    assert_eq!(
        TextInput::byte_range_from_utf16_in_text(text, &(1..3)),
        1..5
    );
}

#[test]
fn utf16_range_conversion_clamps_to_text_end() {
    let text = "é";

    assert_eq!(
        TextInput::byte_range_from_utf16_in_text(text, &(0..99)),
        0..2
    );
}

#[test]
fn word_boundaries_skip_whitespace_then_one_run_of_word_chars() {
    let text = "foo_bar  baz-qux";

    // From the end: back over `qux`.
    assert_eq!(TextInput::previous_word_boundary(text, text.len()), 13);
    // From the start of `qux`: back over the `-`.
    assert_eq!(TextInput::previous_word_boundary(text, 13), 12);
    // From the start of `baz`: over the two spaces and all of `foo_bar`.
    assert_eq!(TextInput::previous_word_boundary(text, 9), 0);
    assert_eq!(TextInput::previous_word_boundary(text, 0), 0);

    // From the start: to the end of `foo_bar`.
    assert_eq!(TextInput::next_word_boundary(text, 0), 7);
    // From there: over the spaces, then all of `baz`.
    assert_eq!(TextInput::next_word_boundary(text, 7), 12);
    // From the start of `-`: the punctuation alone.
    assert_eq!(TextInput::next_word_boundary(text, 12), 13);
    assert_eq!(TextInput::next_word_boundary(text, text.len()), text.len());
}

#[test]
fn word_boundaries_stay_on_char_boundaries_for_multibyte_text() {
    let text = "héllo wörld";

    assert_eq!(TextInput::next_word_boundary(text, 0), "héllo".len());
    assert_eq!(
        TextInput::previous_word_boundary(text, text.len()),
        "héllo ".len()
    );
}

fn input(text: &str) -> TextInput {
    TextInput::new(text.to_string(), "Search".to_string())
}

#[test]
fn an_empty_field_shows_its_placeholder() {
    let mut field = input("");
    assert_eq!(field.display_text(), "Search");
    field.replace_text_in_range(None, "abc");
    assert_eq!(field.display_text(), "abc");
    assert_eq!(field.clear(), InputOutcome::Redraw);
    assert_eq!(field.value(), "");
}

#[test]
fn a_field_opens_with_its_cursor_at_the_end() {
    let field = input("abc");
    assert_eq!(field.cursor_offset(), 3);
    assert_eq!(field.selection(), 3..3);
}

#[test]
fn pasted_line_breaks_become_spaces() {
    let mut field = input("");
    field.paste(Some("one\ntwo"));
    assert_eq!(field.value(), "one two");
    assert_eq!(field.paste(None), InputOutcome::Quiet);
}

#[test]
fn word_deletion_takes_the_word_before_the_cursor() {
    let mut field = input("git commit");
    field.delete_word_left();
    assert_eq!(field.value(), "git ");
    field.delete_word_left();
    assert_eq!(field.value(), "");
}

#[test]
fn deleting_where_nothing_is_left_rings_the_bell() {
    let mut field = input("");
    assert_eq!(field.backspace(), InputOutcome::Bell);
    assert_eq!(field.delete(), InputOutcome::Bell);
}

#[test]
fn selection_keys_move_one_end() {
    let mut field = input("abc def");
    field.select_word_left();
    assert_eq!(field.selection(), 4..7);
    assert_eq!(field.selected_text_range(), (4..7, true));
    assert_eq!(field.copy(), Some("def".to_string()));
    field.select_home();
    assert_eq!(field.selection(), 0..7);
    field.right();
    assert_eq!(field.selection(), 7..7);
    field.select_all();
    let (cut, outcome) = field.cut();
    assert_eq!(cut, Some("abc def".to_string()));
    assert_eq!(outcome, InputOutcome::Redraw);
    assert_eq!(field.value(), "");
}

#[test]
fn word_keys_lead_from_word_to_word() {
    let mut field = input("abc def");
    field.word_left();
    assert_eq!(field.selection(), 4..4);
    field.home();
    field.word_right();
    assert_eq!(field.selection(), 3..3);
    field.select_word_right();
    assert_eq!(field.selection(), 3..7);
    field.home();
    field.select_end();
    assert_eq!(field.selection(), 0..7);
}

#[test]
fn the_mouse_selects_while_its_button_is_down() {
    let mut field = input("abcdef");
    field.on_mouse_down(1, false);
    field.on_mouse_move(4);
    assert_eq!(field.selection(), 1..4);
    field.on_mouse_up();
    assert_eq!(field.on_mouse_move(6), InputOutcome::Quiet);
    assert_eq!(field.selection(), 1..4);
    field.on_mouse_down(6, true);
    assert_eq!(field.selection(), 1..6);
}

#[test]
fn composition_replaces_the_marked_text() {
    let mut field = input("x");
    field.replace_and_mark_text_in_range(None, "ka", None);
    assert_eq!(field.marked_text_range(), Some(1..3));
    field.replace_text_in_range(None, "か");
    assert_eq!(field.value(), "xか");
    assert_eq!(field.marked(), None);
}

#[test]
fn the_composed_part_is_underlined() {
    let run = |len: usize, underlined: bool| Run { len, underlined };
    let mut field = input("xyz");
    assert_eq!(field.runs(), [run(3, false)]);
    field.move_to(1);
    field.replace_and_mark_text_in_range(None, "ka", None);
    assert_eq!(field.value(), "xkayz");
    assert_eq!(field.runs(), [run(1, false), run(2, true), run(2, false)]);
    field.unmark_text();
    assert_eq!(field.runs(), [run(5, false)]);
    let empty = TextInput::new(String::new(), "Search".to_string());
    assert_eq!(empty.runs(), [run(6, false)]);
    let mut only = input("");
    only.replace_and_mark_text_in_range(None, "か", None);
    assert_eq!(only.runs(), [run(3, true)]);
}
