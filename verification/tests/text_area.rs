use std::ops::Range;

use paneflow::text::grapheme::{clamp_to_grapheme, next_grapheme, prev_grapheme, word_bounds};
use paneflow::text::lines::{
    line_end, line_start, offset_one_line_down, offset_one_line_up, split_keeping_newlines,
};
use paneflow::widgets::text_area::paint::{
    decoration_is_selected, line_spans, line_under, offset_of_hit, place_caret, place_decoration,
    row_layout, selection_highlights, text_runs_for_segment, total_rows, RowSpan,
};
use paneflow::widgets::text_area::{
    find_decoration_containing, find_decoration_ending_at, find_decoration_starting_at,
    ranges_overlap, sel_overlap_local, Decoration, Outcome, TextArea,
};

#[test]
fn prev_grapheme_at_start_returns_zero() {
    assert_eq!(prev_grapheme("hello", 0), 0);
}

#[test]
fn next_grapheme_past_end_returns_end() {
    assert_eq!(next_grapheme("hi", 100), 2);
}

#[test]
fn clamp_to_grapheme_snaps_inside_multibyte_codepoint_to_start() {
    let s = "éa";

    assert_eq!(clamp_to_grapheme(s, 0), 0);
    assert_eq!(clamp_to_grapheme(s, 1), 0);
    assert_eq!(clamp_to_grapheme(s, 2), 2);
    assert_eq!(clamp_to_grapheme(s, 3), 3);
}

#[test]
fn clamp_to_grapheme_snaps_inside_zwj_cluster_to_start() {
    let s = "a👨‍👩‍👧‍👦b";
    let cluster_start = "a".len();
    let cluster_end = s.len() - "b".len();

    for offset in cluster_start + 1..cluster_end {
        assert_eq!(clamp_to_grapheme(s, offset), cluster_start);
    }
    assert_eq!(clamp_to_grapheme(s, cluster_end), cluster_end);
}

#[test]
fn line_end_handles_trailing_newline() {
    let s = "one\ntwo\n";
    assert_eq!(line_end(s, 0), 3);
    assert_eq!(line_end(s, 4), 7);
    assert_eq!(line_end(s, 8), 8);
}

#[test]
fn line_start_handles_first_line() {
    let s = "one\ntwo";
    assert_eq!(line_start(s, 0), 0);
    assert_eq!(line_start(s, 2), 0);
    assert_eq!(line_start(s, 4), 4);
}

#[test]
fn line_up_preserves_column() {
    // Offset 8 is the end of "xy", column 2.
    let s = "abcde\nxy";
    let up = offset_one_line_up(s, 8);
    assert_eq!(up, 2);
}

#[test]
fn line_up_when_already_first_line_returns_zero() {
    let s = "single line";
    assert_eq!(offset_one_line_up(s, 5), 0);
}

#[test]
fn line_down_preserves_column_or_clamps() {
    // Column 4 lies beyond the two characters of the second line.
    let s = "abcde\nxy";
    let down = offset_one_line_down(s, 4);
    assert_eq!(down, 8);
}

#[test]
fn split_keeping_newlines_handles_empty_lines() {
    let s = "a\n\nb";
    let lines: Vec<_> = split_keeping_newlines(s)
        .into_iter()
        .map(|l| (l.text.to_string(), l.has_trailing_newline))
        .collect();
    assert_eq!(lines.len(), 3);
    assert_eq!(lines[0], ("a".to_string(), true));
    assert_eq!(lines[1], ("".to_string(), true));
    assert_eq!(lines[2], ("b".to_string(), false));
}

#[test]
fn sel_overlap_returns_none_for_empty_selection() {
    let sel = 0..0;
    assert_eq!(sel_overlap_local(&sel, 0, 10), None);
}

#[test]
fn sel_overlap_returns_intersection() {
    let sel = 2..8;
    assert_eq!(sel_overlap_local(&sel, 0, 5), Some((2, 5)));
    assert_eq!(sel_overlap_local(&sel, 6, 10), Some((0, 2)));
}

#[test]
fn ranges_overlap_basic() {
    assert!(ranges_overlap(&(0..5), &(3..7)));
    assert!(ranges_overlap(&(3..7), &(0..5)));
    assert!(!ranges_overlap(&(0..5), &(5..10)));
    assert!(!ranges_overlap(&(0..5), &(10..15)));
    assert!(ranges_overlap(&(0..10), &(3..6)));
}

fn make_decoration(byte_range: Range<usize>, label: &str) -> Decoration {
    Decoration {
        byte_range,
        label: label.to_string(),
    }
}

#[test]
fn decoration_containing_inclusive_start_exclusive_end() {
    let decos = vec![make_decoration(6..14, "file.rs")];
    assert!(find_decoration_containing(&decos, 6).is_some());
    assert!(find_decoration_containing(&decos, 10).is_some());
    assert!(find_decoration_containing(&decos, 13).is_some());
    // A cursor at the right edge stands just past the chip.
    assert!(find_decoration_containing(&decos, 14).is_none());
    assert!(find_decoration_containing(&decos, 5).is_none());
}

#[test]
fn decoration_ending_at_matches_right_edge_only() {
    let decos = vec![make_decoration(6..14, "file.rs")];
    assert!(find_decoration_ending_at(&decos, 14).is_some());
    assert!(find_decoration_ending_at(&decos, 13).is_none());
    assert!(find_decoration_ending_at(&decos, 15).is_none());
}

#[test]
fn decoration_starting_at_matches_left_edge_only() {
    let decos = vec![make_decoration(6..14, "file.rs")];
    assert!(find_decoration_starting_at(&decos, 6).is_some());
    assert!(find_decoration_starting_at(&decos, 5).is_none());
    assert!(find_decoration_starting_at(&decos, 7).is_none());
}

#[test]
fn decoration_helpers_handle_multiple_chips() {
    let decos = vec![make_decoration(0..2, "a"), make_decoration(12..14, "b")];
    assert!(find_decoration_containing(&decos, 0).is_some());
    assert!(find_decoration_containing(&decos, 13).is_some());
    assert!(find_decoration_containing(&decos, 5).is_none());
    assert_eq!(
        find_decoration_ending_at(&decos, 2).map(|r| r.start),
        Some(0)
    );
    assert_eq!(
        find_decoration_ending_at(&decos, 14).map(|r| r.start),
        Some(12)
    );
    assert_eq!(
        find_decoration_starting_at(&decos, 0).map(|r| r.end),
        Some(2)
    );
    assert_eq!(
        find_decoration_starting_at(&decos, 12).map(|r| r.end),
        Some(14)
    );
}

fn area(text: &str, cursor: usize) -> TextArea {
    let mut area = TextArea::new("Ask anything".to_string());
    area.set_value(text.to_string());
    area.place_cursor_at(cursor);
    area.end_drag();
    area
}

#[test]
fn a_new_area_is_empty_and_shows_its_placeholder() {
    let area = TextArea::new("Ask anything".to_string());
    assert!(area.is_empty());
    assert_eq!(area.value(), "");
    assert_eq!(area.placeholder(), "Ask anything");
    assert_eq!(area.cursor_offset(), 0);
    assert!(!area.dragging());
    assert!(!area.submits_empty());
}

#[test]
fn typing_inserts_at_the_cursor() {
    let mut area = area("ac", 1);
    assert_eq!(area.insert_char("b"), Outcome::Changed);
    assert_eq!(area.value(), "abc");
    assert_eq!(area.cursor_offset(), 2);
    assert_eq!(area.insert_char(""), Outcome::Unchanged);
    assert_eq!(area.insert_newline(), Outcome::Changed);
    assert_eq!(area.value(), "ab\nc");
}

#[test]
fn backspace_and_delete_remove_whole_clusters() {
    let mut before = area("aé", 3);
    assert_eq!(before.backspace(), Outcome::Changed);
    assert_eq!(before.value(), "a");

    let family = "👨‍👩‍👧‍👦";
    let mut after = area(&format!("{family}b"), 0);
    assert_eq!(after.delete(), Outcome::Changed);
    assert_eq!(after.value(), "b");
}

#[test]
fn backspace_at_the_start_and_delete_at_the_end_change_nothing() {
    let mut start = area("ab", 0);
    assert_eq!(start.backspace(), Outcome::Unchanged);
    assert_eq!(start.value(), "ab");
    let mut end = area("ab", 2);
    assert_eq!(end.delete(), Outcome::Unchanged);
    assert_eq!(end.value(), "ab");
}

fn area_with_chip() -> TextArea {
    let mut area = area("see file.rs now", 0);
    area.insert_decoration(4..11, "file".to_string());
    area
}

#[test]
fn backspace_selects_a_chip_before_it_removes_it() {
    let mut area = area_with_chip();
    area.place_cursor_at(11);
    area.end_drag();
    assert_eq!(area.backspace(), Outcome::Redraw);
    assert_eq!(area.value(), "see file.rs now");
    assert_eq!(area.selection(), 4..11);
    assert_eq!(area.backspace(), Outcome::Changed);
    assert_eq!(area.value(), "see  now");
    assert!(area.decorations().is_empty());
}

#[test]
fn delete_selects_a_chip_before_it_removes_it() {
    let mut area = area_with_chip();
    area.place_cursor_at(4);
    area.end_drag();
    assert_eq!(area.delete(), Outcome::Changed);
    assert_eq!(area.selection(), 4..11);
    assert_eq!(area.delete(), Outcome::Changed);
    assert_eq!(area.value(), "see  now");
    assert!(area.decorations().is_empty());
}

#[test]
fn keys_step_over_a_chip() {
    let mut area = area_with_chip();
    area.place_cursor_at(11);
    area.end_drag();
    area.left();
    assert_eq!(area.cursor_offset(), 4);
    area.right();
    assert_eq!(area.cursor_offset(), 11);
}

#[test]
fn an_edit_before_a_chip_moves_it_along() {
    let mut area = area_with_chip();
    area.place_cursor_at(0);
    area.end_drag();
    area.insert_char("I ");
    let chips = area.decorations();
    assert_eq!(chips.len(), 1);
    assert_eq!(chips[0].byte_range, 6..13);
    assert_eq!(&area.value()[6..13], "file.rs");
}

#[test]
fn an_edit_inside_a_chip_drops_it() {
    let mut area = area_with_chip();
    area.replace_range(5..6, "X");
    assert_eq!(area.value(), "see fXle.rs now");
    assert!(area.decorations().is_empty());
}

#[test]
fn chips_can_be_cleared_and_everything_selected() {
    let mut area = area_with_chip();
    area.clear_decorations();
    assert!(area.decorations().is_empty());
    assert_eq!(area.value(), "see file.rs now");
    area.select_all_text();
    assert_eq!(area.selection(), 0..15);
    assert_eq!(area.clear(), Outcome::Changed);
    assert!(area.is_empty());
}

#[test]
fn cut_then_paste_restores_the_text() {
    let mut area = area("hello world", 0);
    area.select_word_at(8);
    assert_eq!(area.copy(), Some("world".to_string()));
    let (cut, outcome) = area.cut();
    assert_eq!(outcome, Outcome::Changed);
    assert_eq!(area.value(), "hello ");
    assert_eq!(area.paste(cut.as_deref()), Outcome::Changed);
    assert_eq!(area.value(), "hello world");
    assert_eq!(area.paste(None), Outcome::Unchanged);
}

#[test]
fn copy_and_cut_without_a_selection_take_nothing() {
    let mut area = area("hello", 2);
    assert_eq!(area.copy(), None);
    let (cut, outcome) = area.cut();
    assert_eq!(cut, None);
    assert_eq!(outcome, Outcome::Unchanged);
    assert_eq!(area.value(), "hello");
}

#[test]
fn submit_needs_text_unless_it_is_allowed_without() {
    let mut area = area("  \n ", 0);
    assert_eq!(area.submit(), None);
    assert_eq!(area.submit_immediate(), None);
    area.set_submit_on_empty(true);
    assert_eq!(area.submit(), Some("  \n ".to_string()));
    assert_eq!(area.submit_immediate(), None);
    area.set_value("go".to_string());
    assert_eq!(area.submit(), Some("go".to_string()));
    assert_eq!(area.submit_immediate(), Some("go".to_string()));
}

#[test]
fn clicks_in_one_place_select_the_word_and_then_the_line() {
    let mut area = area("one two\nthree", 0);
    area.mouse_down(0, 5, false);
    area.end_drag();
    assert_eq!(area.selection(), 5..5);
    area.mouse_down(100_000_000, 5, false);
    area.end_drag();
    assert_eq!(area.selection(), 4..7);
    area.mouse_down(200_000_000, 5, false);
    area.end_drag();
    assert_eq!(area.selection(), 0..7);
}

#[test]
fn dragging_extends_the_selection_from_the_anchor() {
    let mut area = area("hello world", 0);
    area.mouse_down(0, 6, false);
    assert!(area.dragging());
    area.mouse_drag(2);
    assert_eq!(area.selection(), 2..6);
    assert!(area.selection_is_reversed());
    area.end_drag();
    assert_eq!(area.mouse_drag(9), Outcome::Unchanged);
}

#[test]
fn shifted_keys_extend_the_selection() {
    let mut area = area("ab\ncd", 1);
    area.select_right();
    assert_eq!(area.selection(), 1..2);
    area.select_down();
    assert_eq!(area.selection(), 1..5);
    area.select_up();
    area.select_left();
    assert_eq!(area.selection(), 1..1);
    area.select_all();
    assert_eq!(area.selection(), 0..5);
}

#[test]
fn home_and_end_stay_on_the_line() {
    let mut area = area("ab\ncd", 4);
    area.home();
    assert_eq!(area.cursor_offset(), 3);
    area.end();
    assert_eq!(area.cursor_offset(), 5);
    area.up();
    assert_eq!(area.cursor_offset(), 2);
    area.down();
    assert_eq!(area.cursor_offset(), 5);
}

#[test]
fn composition_marks_its_text_and_commits_over_it() {
    let mut area = area("a", 1);
    area.replace_and_mark_text_in_range(None, "ni", None);
    assert_eq!(area.value(), "ani");
    assert_eq!(area.marked(), Some(1..3));
    assert_eq!(area.marked_text_range(), Some(1..3));
    area.replace_text_in_range(None, "你");
    assert_eq!(area.value(), "a你");
    assert_eq!(area.marked(), None);
    assert_eq!(area.selected_text_range(), (2..2, false));
    assert_eq!(area.text_for_range(1..2), ("你".to_string(), 1..2));
}

#[test]
fn cells_and_indices_agree() {
    let area = area("one\ntwo", 0);
    assert_eq!(area.cell_for_range(5..5), (1, 1));
    assert_eq!(area.character_index_for_cell(1, 1), 5);
}

#[test]
fn word_bounds_cover_the_word_under_the_offset() {
    assert_eq!(word_bounds("one two", 5), (4, 7));
}

#[test]
fn painted_lines_carry_selection_chips_and_caret() {
    let spans = line_spans("ab\ncd");
    assert_eq!(spans.len(), 2);
    assert_eq!((spans[0].byte_start, spans[0].byte_end), (0, 2));
    assert_eq!((spans[1].byte_start, spans[1].byte_end), (3, 5));

    let lit = selection_highlights(&spans, &(1..4));
    assert_eq!(lit.len(), 2);
    assert_eq!(place_caret(&spans, 4), Some((1, 1)));
    assert!(place_decoration(&spans, &make_decoration(3..5, "cd")).is_some());
    assert!(place_decoration(&spans, &make_decoration(1..4, "across")).is_none());
    assert!(decoration_is_selected(&make_decoration(3..5, "cd"), 5));
    assert!(!decoration_is_selected(&make_decoration(3..5, "cd"), 3));
    assert_eq!(offset_of_hit(&spans[1], 1), 4);
    assert_eq!(offset_of_hit(&spans[1], 99), 5);
}

#[test]
fn runs_of_a_line_cover_it() {
    let runs = text_runs_for_segment(10, 20, Some(&(23..26)));
    let total: usize = runs.iter().map(|r| r.len).sum();
    assert_eq!(total, 10);
    assert_eq!(runs.len(), 3);
    assert_eq!(text_runs_for_segment(10, 20, None).len(), 1);
}

#[test]
fn wrapped_lines_take_their_rows() {
    let wraps = vec![0, 2, 1];
    assert_eq!(
        row_layout(&wraps),
        vec![
            RowSpan { top: 0, rows: 1 },
            RowSpan { top: 1, rows: 3 },
            RowSpan { top: 4, rows: 2 },
        ]
    );
    assert_eq!(total_rows(&wraps), 6);
    assert_eq!(total_rows(&Vec::new()), 1);
    let lines: Vec<Option<usize>> = (0..8).map(|row| line_under(&wraps, Some(row))).collect();
    assert_eq!(
        lines,
        [0, 1, 1, 1, 2, 2, 2, 2].map(Some).to_vec()
    );
    assert_eq!(line_under(&wraps, None), Some(0));
    assert_eq!(line_under(&Vec::new(), Some(3)), None);
}

#[test]
fn the_listener_hears_of_a_cursor_that_moves_to_the_end() {
    let mut text = area("hello", 2);
    assert_eq!(text.select_all_text(), Outcome::Changed);
    assert_eq!(text.cursor_offset(), 5);
    assert_eq!(text.value(), "hello");
    assert_eq!(text.select_all_text(), Outcome::Redraw);
    let mut keyed = area("hello", 0);
    assert_eq!(keyed.select_all(), Outcome::Changed);
    assert_eq!(keyed.select_all(), Outcome::Redraw);
}
