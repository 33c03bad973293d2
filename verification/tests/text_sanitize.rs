use paneflow::text_sanitize::{
    is_bidi_or_zero_width, normalize_prompt_text, replace_breaks, strip_bidi_zero_width,
    MAX_PROMPT_TEXT,
};

#[test]
fn normalize_converts_cr_and_crlf_to_lf() {
    let (out, truncated) = normalize_prompt_text("a\r\nb\rc\nd");
    assert_eq!(out, "a\nb\nc\nd");
    assert!(!truncated);
}

#[test]
fn normalize_trims_trailing_newlines_only() {
    let (out, _) = normalize_prompt_text("line1\nline2\r\n\n\r");
    assert_eq!(out, "line1\nline2");
}

#[test]
fn normalize_truncates_at_char_boundary() {
    let big = "é".repeat(MAX_PROMPT_TEXT);
    let (out, truncated) = normalize_prompt_text(&big);
    assert!(truncated);
    assert!(out.len() <= MAX_PROMPT_TEXT);
    assert!(out.is_char_boundary(out.len()));
    let (ok, truncated) = normalize_prompt_text("short prompt");
    assert_eq!(ok, "short prompt");
    assert!(!truncated);
}

#[test]
fn a_cap_inside_a_character_cuts_before_it() {
    let text = format!("{}é", "a".repeat(MAX_PROMPT_TEXT - 1));
    let (out, truncated) = normalize_prompt_text(&text);
    assert!(truncated);
    assert_eq!(out.len(), MAX_PROMPT_TEXT - 1);
}

#[test]
fn stripping_drops_direction_marks_and_nothing_else() {
    let dirty = "pass\u{202e}word\u{200b}!".to_string();
    let clean = strip_bidi_zero_width(dirty);
    assert_eq!(clean, "password!");
    assert_eq!(strip_bidi_zero_width(clean.clone()), clean);
    assert!(!clean.chars().any(is_bidi_or_zero_width));
    assert!(is_bidi_or_zero_width('\u{2066}'));
    assert!(is_bidi_or_zero_width('\u{feff}'));
    assert!(!is_bidi_or_zero_width('a'));
}

#[test]
fn breaks_are_replaced_one_for_one() {
    assert_eq!(replace_breaks("a\nb\rc", ' '), "a b c");
}

#[test]
fn a_cut_prompt_ends_in_no_line_break() {
    let text = format!("{}\n\nmore", "a".repeat(MAX_PROMPT_TEXT - 1));
    let (out, truncated) = normalize_prompt_text(&text);
    assert!(truncated);
    assert_eq!(out, "a".repeat(MAX_PROMPT_TEXT - 1));
}
