use paneflow::path;
use paneflow::text::classes::{is_blank, is_whitespace, is_word_char, trim};
use paneflow::text::grapheme::{clamp_to_grapheme, next_grapheme, prev_grapheme};
use paneflow::text::lines::split_keeping_newlines;
use paneflow::text::number::{to_decimal, to_signed_decimal};
use paneflow::text::utf16::{
    byte_offset_from_utf16_in_text, byte_range_from_utf16_in_text, utf16_len, utf16_offset_in_text,
};
use paneflow::text::words::{next_word_boundary, previous_word_boundary};

#[test]
fn offsets_survive_the_round_trip_through_utf16() {
    let text = "aé😀b";
    for offset in [0, 1, 3, 7, 8] {
        let units = utf16_offset_in_text(text, offset);
        assert_eq!(byte_offset_from_utf16_in_text(text, units), offset);
    }
    assert_eq!(utf16_len(text), 5);
    assert_eq!(byte_range_from_utf16_in_text(text, &(1..2)), 1..3);
}

#[test]
fn lines_put_together_make_up_the_text() {
    let text = "one\n\ntwo\n";
    let mut joined = String::new();
    for line in split_keeping_newlines(text) {
        joined.push_str(line.text);
        if line.has_trailing_newline {
            joined.push('\n');
        }
        assert_eq!(line.bytes_without_trailing_newline(), line.text.len());
        assert_eq!(
            line.full_len(),
            line.text.len() + usize::from(line.has_trailing_newline)
        );
    }
    assert_eq!(joined, text);
}

#[test]
fn words_are_runs_of_letters_digits_and_underscores() {
    assert_eq!(next_word_boundary("ab-cd", 0), 2);
    assert_eq!(previous_word_boundary("ab-cd", 2), 0);
    assert_eq!(next_word_boundary("", 0), 0);
}

#[test]
fn numbers_are_written_in_decimal() {
    assert_eq!(to_decimal(0), "0");
    assert_eq!(to_decimal(u64::MAX), "18446744073709551615");
    assert_eq!(to_signed_decimal(i32::MIN), "-2147483648");
    assert_eq!(to_signed_decimal(7), "7");
}

#[test]
fn paths_join_as_paths_do() {
    assert_eq!(path::join("/a", "b"), "/a/b");
    assert_eq!(path::join("/a/", "b"), "/a/b");
    assert_eq!(path::join("/a", "/b"), "/b");
}

#[test]
fn characters_have_their_unicode_classes() {
    for c in '\u{0}'..=char::MAX {
        assert_eq!(is_whitespace(c), c.is_whitespace(), "{c:?}");
        assert_eq!(is_word_char(c), c.is_alphanumeric() || c == '_', "{c:?}");
    }
    assert_eq!(trim("\u{3000} a b\n"), "a b");
    assert!(is_blank(" \t\u{2003}"));
    assert!(!is_blank(" x "));
}

#[test]
fn plain_characters_are_clusters_but_for_the_line_break() {
    let plain: String = ('\u{0}'..='\u{7E}').collect();
    for k in 0..plain.len() {
        assert_eq!(next_grapheme(&plain, k), k + 1);
        assert_eq!(prev_grapheme(&plain, k + 1), k);
    }
    assert_eq!(next_grapheme("a\r\nb", 1), 3);
    assert_eq!(clamp_to_grapheme("a\r\nb", 2), 1);
    assert_eq!(prev_grapheme("a\n\rb", 3), 2);
}
