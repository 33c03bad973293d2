//! What a terminal view shows: its cursor, its links, its search bar, and the
//! key bindings that hold in it.

use vstd::prelude::*;

use crate::terminal::types::CopyModeCursorState;
use crate::terminal::types::CursorShape;
use crate::terminal::types::GridLineText;
use crate::terminal::types::HyperlinkZone;
use crate::terminal::types::Line;
use crate::terminal::types::Modes;
use crate::terminal::types::Point;
use crate::terminal::types::SearchHighlight;
use crate::terminal::types::SelectionRange;
use crate::text::chars;
use crate::text::classes;
use crate::text::number;

verus! {

/// The cursor shapes that the engine knows.
#[derive(Clone, Copy, Debug, PartialEq, Eq, Structural)]
pub enum EngineCursorShape {
    Block,
    Bar,
    Underline,
    HollowBlock,
}

/// The cursor shapes that can be configured.
#[derive(Clone, Copy, Debug, PartialEq, Eq, Structural)]
pub enum CursorShapeConfig {
    Vintage,
    Block,
    Beam,
    Underline,
    DoubleUnderline,
    Hollow,
}

/// When the cursor blinks.
#[derive(Clone, Copy, Debug, PartialEq, Eq, Structural)]
pub enum CursorBlinkConfig {
    /// Always.
    On,
    /// Never.
    Off,
    /// When the program asks for it.
    TerminalControlled,
}

/// The engine's shape for a shape of the renderer.
pub open spec fn engine_shape(shape: CursorShape) -> EngineCursorShape {
    match shape {
        CursorShape::Block => EngineCursorShape::Block,
        CursorShape::Vintage => EngineCursorShape::Block,
        CursorShape::Hidden => EngineCursorShape::Block,
        CursorShape::Beam => EngineCursorShape::Bar,
        CursorShape::Underline => EngineCursorShape::Underline,
        CursorShape::DoubleUnderline => EngineCursorShape::Underline,
        CursorShape::HollowBlock => EngineCursorShape::HollowBlock,
    }
}

/// The engine's shape for a shape of the renderer; one that the engine does
/// not know becomes the one that it varies.
pub fn engine_cursor_shape(shape: CursorShape) -> (r: EngineCursorShape)
    ensures
        r == engine_shape(shape),
{
    match shape {
        CursorShape::Block | CursorShape::Vintage | CursorShape::Hidden => EngineCursorShape::Block,
        CursorShape::Beam => EngineCursorShape::Bar,
        CursorShape::Underline | CursorShape::DoubleUnderline => EngineCursorShape::Underline,
        CursorShape::HollowBlock => EngineCursorShape::HollowBlock,
    }
}

/// The renderer's shape for a configured one.
pub open spec fn renderer_shape(shape: CursorShapeConfig) -> CursorShape {
    match shape {
        CursorShapeConfig::Vintage => CursorShape::Vintage,
        CursorShapeConfig::Block => CursorShape::Block,
        CursorShapeConfig::Beam => CursorShape::Beam,
        CursorShapeConfig::Underline => CursorShape::Underline,
        CursorShapeConfig::DoubleUnderline => CursorShape::DoubleUnderline,
        CursorShapeConfig::Hollow => CursorShape::HollowBlock,
    }
}

/// The renderer's shape for a configured one.
pub fn renderer_cursor_shape_from_config(shape: CursorShapeConfig) -> (r: CursorShape)
    ensures
        r == renderer_shape(shape),
{
    match shape {
        CursorShapeConfig::Vintage => CursorShape::Vintage,
        CursorShapeConfig::Block => CursorShape::Block,
        CursorShapeConfig::Beam => CursorShape::Beam,
        CursorShapeConfig::Underline => CursorShape::Underline,
        CursorShapeConfig::DoubleUnderline => CursorShape::DoubleUnderline,
        CursorShapeConfig::Hollow => CursorShape::HollowBlock,
    }
}

/// The cursor that the engine falls back to when a program resets its own: the
/// configured shape, blinking if and only if it is configured to always blink.
pub fn default_engine_cursor(shape: CursorShapeConfig, blink: CursorBlinkConfig) -> (r: (
    EngineCursorShape,
    bool,
))
    ensures
        r.0 == engine_shape(renderer_shape(shape)),
        r.1 == (blink == CursorBlinkConfig::On),
{
    let blinks = match blink {
        CursorBlinkConfig::On => true,
        CursorBlinkConfig::Off | CursorBlinkConfig::TerminalControlled => false,
    };
    (engine_cursor_shape(renderer_cursor_shape_from_config(shape)), blinks)
}

/// The value of a hexadecimal digit.
pub open spec fn hex_value(c: char) -> Option<int> {
    if '0' <= c <= '9' {
        Some(c as u32 - '0' as u32)
    } else if 'a' <= c <= 'f' {
        Some(c as u32 - 'a' as u32 + 10)
    } else if 'A' <= c <= 'F' {
        Some(c as u32 - 'A' as u32 + 10)
    } else {
        None
    }
}

/// The value of a text of hexadecimal digits.
pub open spec fn hex_number(s: Seq<char>) -> Option<int>
    decreases s.len(),
{
    if s.len() == 0 {
        Some(0)
    } else {
        match (hex_number(s.drop_last()), hex_value(s.last())) {
            (Some(n), Some(d)) => Some(n * 16 + d),
            _ => None,
        }
    }
}

/// The colour that a normalized text `#rrggbb` stands for.
pub open spec fn hex_color(normalized: Seq<char>) -> Option<int> {
    if normalized.len() == 7 && normalized[0] == '#' {
        hex_number(normalized.skip(1))
    } else {
        None
    }
}

fn hex_digit(c: char) -> (r: Option<u32>)
    ensures
        match r {
            Some(d) => hex_value(c) == Some(d as int) && d < 16,
            None => hex_value(c) is None,
        },
{
    if '0' <= c && c <= '9' {
        Some(c as u32 - 48)
    } else if 'a' <= c && c <= 'f' {
        Some(c as u32 - 97 + 10)
    } else if 'A' <= c && c <= 'F' {
        Some(c as u32 - 65 + 10)
    } else {
        None
    }
}

/// The colour that a normalized text `#rrggbb` stands for, as a number.
pub fn rgb_from_hex_color(normalized: &str) -> (r: Option<u32>)
    ensures
        match r {
            Some(n) => hex_color(normalized@) == Some(n as int) && n < 0x1000000,
            None => hex_color(normalized@) is None,
        },
{
    let v = chars::to_chars(normalized);
    if v.len() != 7 || v[0] != '#' {
        return None;
    }
    let ghost digits = v@.skip(1);
    let mut n: u32 = 0;
    let mut i: usize = 1;
    assert(digits.take(0) =~= Seq::<char>::empty());
    while i < 7
        invariant
            1 <= i <= 7,
            v@ == normalized@,
            v@.len() == 7,
            v@[0] == '#',
            digits == v@.skip(1),
            hex_number(digits.take(i - 1)) == Some(n as int),
            n < 0x1000000,
            i <= 6 ==> n < 0x100000,
            i <= 5 ==> n < 0x10000,
            i <= 4 ==> n < 0x1000,
            i <= 3 ==> n < 0x100,
            i <= 2 ==> n < 0x10,
            i <= 1 ==> n == 0,
        decreases 7 - i,
    {
        proof {
            assert(digits.take(i as int).drop_last() =~= digits.take(i - 1));
            assert(digits.take(i as int).last() == v@[i as int]);
        }
        match hex_digit(v[i]) {
            Some(d) => {
                n = n * 16 + d;
            },
            None => {
                proof {
                    lemma_bad_digit(digits, i - 1);
                }
                return None;
            },
        }
        i = i + 1;
    }
    assert(digits.take(6) =~= digits);
    Some(n)
}

proof fn lemma_bad_digit(s: Seq<char>, k: int)
    requires
        0 <= k < s.len(),
        hex_value(s[k]) is None,
    ensures
        hex_number(s) is None,
    decreases s.len(),
{
    if k < s.len() - 1 {
        lemma_bad_digit(s.drop_last(), k);
    }
}

/// Whether the cursor shows at a moment of the blink phase.
pub open spec fn cursor_shown(mode: CursorBlinkConfig, asked_to_blink: bool, phase: bool) -> bool {
    match mode {
        CursorBlinkConfig::On => phase,
        CursorBlinkConfig::Off => true,
        CursorBlinkConfig::TerminalControlled => !asked_to_blink || phase,
    }
}

/// Whether the cursor shows: a blinking one follows the phase, a steady one
/// always does.
pub fn resolve_cursor_visible(
    mode: CursorBlinkConfig,
    decscusr_blinking: bool,
    phase_visible: bool,
) -> (r: bool)
    ensures
        r == cursor_shown(mode, decscusr_blinking, phase_visible),
{
    match mode {
        CursorBlinkConfig::On => phase_visible,
        CursorBlinkConfig::Off => true,
        CursorBlinkConfig::TerminalControlled => {
            if decscusr_blinking {
                phase_visible
            } else {
                true
            }
        },
    }
}

/// The new visibility of the cursor after a tick of the blink phase, if it
/// changes. A terminal whose shell is gone does not blink.
pub fn blink_tick(
    exited: bool,
    mode: CursorBlinkConfig,
    decscusr_blinking: bool,
    phase_visible: bool,
    visible: bool,
) -> (r: Option<bool>)
    ensures
        r == (if exited || cursor_shown(mode, decscusr_blinking, phase_visible) == visible {
            None
        } else {
            Some(cursor_shown(mode, decscusr_blinking, phase_visible))
        }),
{
    if exited {
        return None;
    }
    let shown = resolve_cursor_visible(mode, decscusr_blinking, phase_visible);
    if shown != visible {
        Some(shown)
    } else {
        None
    }
}

/// Whether the cursor is drawn: on the alternate screen always.
pub fn cursor_drawn(visible: bool, modes: Modes) -> (r: bool)
    ensures
        r == (visible || modes.bits() & 1 == 1),
{
    visible || modes.contains(Modes::alt_screen())
}

/// Sets a switch of the view; `true` when that changes it, and the view is
/// drawn again.
pub fn set_switch(switch: &mut bool, on: bool) -> (r: bool)
    ensures
        *final(switch) == on,
        r == (*old(switch) != on),
{
    let changed = *switch != on;
    *switch = on;
    changed
}

/// The theme generation that the engine shows after a look at the current one:
/// the current one only if the engine took it.
pub fn shown_generation(shown: u64, current: u64, refreshed: bool) -> (r: u64)
    ensures
        r == (if shown != current && refreshed {
            current
        } else {
            shown
        }),
{
    if shown != current && refreshed {
        current
    } else {
        shown
    }
}

/// What a program is told of the focus.
#[derive(Clone, Copy, Debug, PartialEq, Eq, Structural)]
pub enum FocusReport {
    Gained,
    Lost,
}

/// What a change of focus comes to.
#[derive(Clone, Copy, Debug, PartialEq, Eq, Structural)]
pub struct FocusEffects {
    /// The session learns of the change.
    pub changed: bool,
    /// Keys that are still down are released.
    pub release_keys: bool,
    /// What the program is told, if it has asked for it.
    pub report: Option<FocusReport>,
}

/// Takes the focus of the view. What it was before is not reported again.
pub fn apply_terminal_focus(was_focused: &mut bool, focused: bool, modes: Modes) -> (r:
    FocusEffects)
    ensures
        *final(was_focused) == focused,
        r == (if focused == *old(was_focused) {
            FocusEffects { changed: false, release_keys: false, report: None }
        } else {
            FocusEffects {
                changed: true,
                release_keys: !focused,
                report: if modes.bits() & 64 == 64 {
                    Some(
                        if focused {
                            FocusReport::Gained
                        } else {
                            FocusReport::Lost
                        },
                    )
                } else {
                    None
                },
            }
        }),
{
    if focused == *was_focused {
        return FocusEffects { changed: false, release_keys: false, report: None };
    }
    *was_focused = focused;
    let report = if modes.contains(Modes::focus_in_out()) {
        if focused {
            Some(FocusReport::Gained)
        } else {
            Some(FocusReport::Lost)
        }
    } else {
        None
    };
    FocusEffects { changed: true, release_keys: !focused, report }
}

/// One entry of a key context: a word, or a word with a value.
#[derive(Clone, Copy, Debug, PartialEq, Eq)]
pub struct ContextEntry {
    pub key: &'static str,
    pub value: Option<&'static str>,
}

impl ContextEntry {
    /// The entry as a mathematical value.
    pub open spec fn entry(self) -> (Seq<char>, Option<Seq<char>>) {
        (
            self.key@,
            match self.value {
                Some(v) => Some(v@),
                None => None,
            },
        )
    }
}

/// The entries as mathematical values.
pub open spec fn entries(v: Seq<ContextEntry>) -> Seq<(Seq<char>, Option<Seq<char>>)> {
    v.map_values(|e: ContextEntry| e.entry())
}

/// The word `key` if `when`, else nothing.
pub open spec fn word_if(when: bool, key: Seq<char>) -> Seq<(Seq<char>, Option<Seq<char>>)> {
    if when {
        seq![(key, None)]
    } else {
        seq![]
    }
}

/// A word with a value.
pub open spec fn pair(key: Seq<char>, value: Seq<char>) -> Seq<(Seq<char>, Option<Seq<char>>)> {
    seq![(key, Some(value))]
}

/// The mouse reports that the program gets.
pub open spec fn mouse_reporting(bits: u16) -> Seq<char> {
    if bits & 1792 == 0 {
        "off"@
    } else if bits & 1024 == 1024 {
        "motion"@
    } else if bits & 512 == 512 {
        "drag"@
    } else {
        "click"@
    }
}

/// How mouse reports are written.
pub open spec fn mouse_format(bits: u16) -> Seq<char> {
    if bits & 4 == 4 {
        "sgr"@
    } else if bits & 8 == 8 {
        "utf8"@
    } else {
        "normal"@
    }
}

/// The key context of a terminal: which screen, which modes, which mouse
/// reports, and whether its search bar is open.
pub open spec fn key_context(bits: u16, search_active: bool) -> Seq<
    (Seq<char>, Option<Seq<char>>),
> {
    seq![("Terminal"@, None::<Seq<char>>)] + pair(
        "screen"@,
        if bits & 1 == 1 {
            "alt"@
        } else {
            "normal"@
        },
    ) + word_if(bits & 2 == 2, "DECCKM"@) + word_if(bits & 16 == 16, "DECPAM"@) + word_if(
        bits & 32 == 32,
        "bracketed_paste"@,
    ) + word_if(bits & 64 == 64, "report_focus"@) + word_if(
        bits & 128 == 128,
        "alternate_scroll"@,
    ) + word_if(bits & 1792 != 0, "any_mouse_reporting"@) + pair(
        "mouse_reporting"@,
        mouse_reporting(bits),
    ) + pair("mouse_format"@, mouse_format(bits)) + word_if(search_active, "Search"@)
}

fn add_word(ctx: &mut Vec<ContextEntry>, when: bool, key: &'static str)
    ensures
        entries(final(ctx)@) == entries(old(ctx)@) + word_if(when, key@),
{
    if when {
        ctx.push(ContextEntry { key, value: None });
    }
    assert(entries(ctx@) =~= entries(old(ctx)@) + word_if(when, key@));
}

fn add_pair(ctx: &mut Vec<ContextEntry>, key: &'static str, value: &'static str)
    ensures
        entries(final(ctx)@) == entries(old(ctx)@) + pair(key@, value@),
{
    ctx.push(ContextEntry { key, value: Some(value) });
    assert(entries(ctx@) =~= entries(old(ctx)@) + pair(key@, value@));
}

/// The key context of a terminal in these modes.
pub fn dispatch_context(modes: Modes, search_active: bool) -> (r: Vec<ContextEntry>)
    ensures
        entries(r@) == key_context(modes.bits(), search_active),
{
    let mut ctx: Vec<ContextEntry> = Vec::new();
    add_word(&mut ctx, true, "Terminal");
    assert(entries(ctx@) =~= seq![("Terminal"@, None::<Seq<char>>)]);
    let screen = if modes.contains(Modes::alt_screen()) {
        "alt"
    } else {
        "normal"
    };
    add_pair(&mut ctx, "screen", screen);
    add_word(&mut ctx, modes.contains(Modes::app_cursor()), "DECCKM");
    add_word(&mut ctx, modes.contains(Modes::app_keypad()), "DECPAM");
    add_word(&mut ctx, modes.contains(Modes::bracketed_paste()), "bracketed_paste");
    add_word(&mut ctx, modes.contains(Modes::focus_in_out()), "report_focus");
    add_word(&mut ctx, modes.contains(Modes::alternate_scroll()), "alternate_scroll");
    let reporting = modes.intersects(Modes::mouse_mode());
    add_word(&mut ctx, reporting, "any_mouse_reporting");
    let kind = if !reporting {
        "off"
    } else if modes.contains(Modes::mouse_motion()) {
        "motion"
    } else if modes.contains(Modes::mouse_drag()) {
        "drag"
    } else {
        "click"
    };
    add_pair(&mut ctx, "mouse_reporting", kind);
    let format = if modes.contains(Modes::sgr_mouse()) {
        "sgr"
    } else if modes.contains(Modes::utf8_mouse()) {
        "utf8"
    } else {
        "normal"
    };
    add_pair(&mut ctx, "mouse_format", format);
    add_word(&mut ctx, search_active, "Search");
    ctx
}

/// What the search bar says.
#[derive(Clone, Debug, PartialEq, Eq)]
pub struct SearchStatus {
    pub text: String,
    /// Whether it is shown as an error.
    pub is_error: bool,
    /// Whether there is a match to step to.
    pub can_step: bool,
}

/// What the search bar says: that the pattern is wrong, nothing without a
/// query, that there is no match, or which of how many is the current one.
pub open spec fn status_text(
    regex_error: bool,
    query: Seq<char>,
    current: nat,
    count: nat,
    truncated: bool,
) -> Seq<char> {
    if regex_error {
        "Invalid regex"@
    } else if query.len() == 0 {
        seq![]
    } else if count == 0 {
        "No results"@
    } else {
        let place = number::decimal(current + 1) + "/"@ + number::decimal(count);
        if truncated {
            place + "+"@
        } else {
            place
        }
    }
}

/// What the search bar says. `current` is the index of the current match.
pub fn search_status(
    regex_error: bool,
    query: &str,
    current: usize,
    count: usize,
    truncated: bool,
) -> (r: SearchStatus)
    requires
        count > 0 ==> current < usize::MAX,
    ensures
        r.text@ == status_text(regex_error, query@, current as nat, count as nat, truncated),
        r.is_error == regex_error,
        r.can_step == (count > 0),
{
    let text = if regex_error {
        "Invalid regex".to_string()
    } else if query.is_empty() {
        let none = String::new();
        assert(none@ =~= Seq::<char>::empty());
        none
    } else if count == 0 {
        "No results".to_string()
    } else {
        let place = number::to_decimal((current + 1) as u64);
        let total = number::to_decimal(count as u64);
        let both = chars::concat3(place.as_str(), "/", total.as_str());
        if truncated {
            chars::concat(both.as_str(), "+")
        } else {
            both
        }
    };
    SearchStatus { text, is_error: regex_error, can_step: count > 0 }
}

/// A search match: its first and its last position.
#[derive(Clone, Copy, Debug, PartialEq, Eq, Structural)]
pub struct SearchMatch {
    pub start: Point,
    pub end: Point,
}

/// The matches to highlight: all of them while the search is open, with the
/// current one marked.
pub fn search_highlights(active: bool, matches: &Vec<SearchMatch>, current: usize) -> (r: Vec<
    SearchHighlight,
>)
    ensures
        r@.len() == (if active {
            matches@.len()
        } else {
            0
        }),
        forall|i: int|
            0 <= i < r@.len() ==> #[trigger] r@[i] == (SearchHighlight {
                start: matches@[i].start,
                end: matches@[i].end,
                is_active: i == current,
            }),
{
    let mut out: Vec<SearchHighlight> = Vec::new();
    if !active {
        return out;
    }
    let mut i: usize = 0;
    while i < matches.len()
        invariant
            i <= matches@.len(),
            out@.len() == i,
            forall|j: int|
                0 <= j < i ==> #[trigger] out@[j] == (SearchHighlight {
                    start: matches@[j].start,
                    end: matches@[j].end,
                    is_active: j == current,
                }),
        decreases matches@.len() - i,
    {
        out.push(
            SearchHighlight {
                start: matches[i].start,
                end: matches[i].end,
                is_active: i == current,
            },
        );
        i = i + 1;
    }
    out
}

/// How many lines a line is above the bottom; none for a line below it.
pub open spec fn above_bottom(bottom: i32, line: i32) -> int {
    let d = bottom - line;
    if d < 0 {
        0
    } else if d > i32::MAX {
        i32::MAX as int
    } else {
        d
    }
}

/// Where the matches are marked along the scroll bar, in lines above the
/// bottom of the grid.
pub fn search_rail_lines(active: bool, matches: &Vec<SearchMatch>, bottom: Line) -> (r: Vec<usize>)
    ensures
        r@.len() == (if active {
            matches@.len()
        } else {
            0
        }),
        forall|i: int|
            0 <= i < r@.len() ==> #[trigger] r@[i] == above_bottom(
                bottom.0,
                matches@[i].start.line.0,
            ),
{
    let mut out: Vec<usize> = Vec::new();
    if !active {
        return out;
    }
    let mut i: usize = 0;
    while i < matches.len()
        invariant
            i <= matches@.len(),
            out@.len() == i,
            forall|j: int|
                0 <= j < i ==> #[trigger] out@[j] == above_bottom(
                    bottom.0,
                    matches@[j].start.line.0,
                ),
        decreases matches@.len() - i,
    {
        let d: i64 = bottom.0 as i64 - matches[i].start.line.0 as i64;
        let n: usize = if d < 0 {
            0
        } else if d > 0x7fffffff {
            0x7fffffff
        } else {
            d as usize
        };
        out.push(n);
        i = i + 1;
    }
    out
}

/// The cursor of the copy mode while that is on, with the start of the
/// selection if there is one.
pub fn copy_cursor_state(active: bool, cursor: Point, selection: Option<SelectionRange>) -> (r:
    Option<CopyModeCursorState>)
    ensures
        r == (if active {
            Some(
                CopyModeCursorState {
                    grid_line: cursor.line.0,
                    col: cursor.column.0,
                    anchor_grid_line: match selection {
                        Some(s) => Some(s.start.line.0),
                        None => None,
                    },
                    anchor_col: match selection {
                        Some(s) => s.start.column.0,
                        None => 0,
                    },
                },
            )
        } else {
            None
        }),
{
    if !active {
        return None;
    }
    match selection {
        Some(s) => Some(
            CopyModeCursorState {
                grid_line: cursor.line.0,
                col: cursor.column.0,
                anchor_grid_line: Some(s.start.line.0),
                anchor_col: s.start.column.0,
            },
        ),
        None => Some(
            CopyModeCursorState {
                grid_line: cursor.line.0,
                col: cursor.column.0,
                anchor_grid_line: None,
                anchor_col: 0,
            },
        ),
    }
}

/// The text of a line without the white space at its end.
pub open spec fn line_head(s: Seq<char>) -> Seq<char> {
    s.take(classes::trimmed_end(s))
}

/// What the links of a line are found by, and the links.
pub struct HoverLinkCache {
    line: Line,
    cwd: Option<String>,
    line_text: String,
    zones: Vec<HyperlinkZone>,
}

/// A [`HoverLinkCache`] as a mathematical value.
pub struct Links {
    pub line: Line,
    pub cwd: Option<Seq<char>>,
    pub line_text: Seq<char>,
    pub zones: Seq<HyperlinkZone>,
}

impl View for HoverLinkCache {
    type V = Links;

    closed spec fn view(&self) -> Links {
        Links {
            line: self.line,
            cwd: match self.cwd {
                Some(c) => Some(c@),
                None => None,
            },
            line_text: self.line_text@,
            zones: self.zones@,
        }
    }
}

/// An optional text as a mathematical value.
pub open spec fn text_of(s: Option<&str>) -> Option<Seq<char>> {
    match s {
        Some(t) => Some(t@),
        None => None,
    }
}

/// What is to be done for the links under the pointer.
pub enum HoverStep {
    /// There is no line there, so there are no links.
    Nothing,
    /// The links of the cache are the links.
    Cached,
    /// The links of this text are to be found; character `i` of it stands in
    /// column `columns[i]`.
    Detect { text: String, columns: Vec<usize> },
}

impl HoverLinkCache {
    /// The links of a line.
    pub fn store(line: Line, cwd: Option<&str>, line_text: String, zones: Vec<HyperlinkZone>) -> (r:
        HoverLinkCache)
        ensures
            r@ == (Links { line, cwd: text_of(cwd), line_text: line_text@, zones: zones@ }),
    {
        let kept = match cwd {
            Some(c) => Some(c.to_string()),
            None => None,
        };
        HoverLinkCache { line, cwd: kept, line_text, zones }
    }

    /// The links.
    pub fn zones(&self) -> (r: &Vec<HyperlinkZone>)
        ensures
            r@ == self@.zones,
    {
        &self.zones
    }

    /// Whether these are the links of the text `line_text` in line `line`,
    /// seen from the directory `cwd`.
    pub fn holds(&self, line: Line, cwd: Option<&str>, line_text: &str) -> (r: bool)
        ensures
            r == (self@.line == line && self@.cwd == text_of(cwd) && self@.line_text
                == line_text@),
    {
        let same_cwd = match (&self.cwd, cwd) {
            (Some(a), Some(b)) => chars::same(a.as_str(), b),
            (None, None) => true,
            _ => false,
        };
        self.line == line && same_cwd && chars::same(self.line_text.as_str(), line_text)
    }
}

/// What is to be done for the links under the pointer, which is over `hovered`,
/// a line in which every character before the white space at its end has its
/// column. Links are found again only when the line, its text or the directory has
/// changed.
pub fn hover_step(
    cache: &mut Option<HoverLinkCache>,
    hovered: Option<&GridLineText>,
    cwd: Option<&str>,
) -> (r: HoverStep)
    requires
        hovered matches Some(h) ==> classes::trimmed_end(h.text@) <= h.char_to_column@.len(),
    ensures
        match hovered {
            None => *final(cache) is None && r is Nothing,
            Some(h) => {
                &&& *final(cache) == *old(cache)
                &&& if *old(cache) matches Some(c) && c@.line == h.line && c@.cwd == text_of(cwd)
                    && c@.line_text == line_head(h.text@) {
                    r is Cached
                } else {
                    r matches HoverStep::Detect { text, columns } && text@ == line_head(h.text@)
                        && columns@ == h.char_to_column@.take(classes::trimmed_end(h.text@))
                }
            },
        },
{
    match hovered {
        None => {
            *cache = None;
            HoverStep::Nothing
        },
        Some(h) => {
            let v = chars::to_chars(h.text.as_str());
            let end: usize = classes::end_of_trimmed(&v);
            let text = chars::from_chars(&v, 0, end);
            assert(text@ =~= line_head(h.text@));
            let hit = match &*cache {
                Some(c) => c.holds(h.line, cwd, text.as_str()),
                None => false,
            };
            if hit {
                return HoverStep::Cached;
            }
            let mut columns: Vec<usize> = Vec::new();
            let mut i: usize = 0;
            while i < end
                invariant
                    i <= end <= h.char_to_column@.len(),
                    columns@ == h.char_to_column@.take(i as int),
                decreases end - i,
            {
                columns.push(h.char_to_column[i]);
                assert(columns@ =~= h.char_to_column@.take(i + 1));
                i = i + 1;
            }
            HoverStep::Detect { text, columns }
        },
    }
}

/// Whether a link spans the cell at `at`; its first and its last cell count.
pub open spec fn covers(zone: HyperlinkZone, at: Point) -> bool {
    !at.precedes(zone.start) && !zone.end.precedes(at)
}

fn copy_zone(zone: &HyperlinkZone) -> (r: HyperlinkZone)
    ensures
        r == *zone,
{
    HyperlinkZone {
        uri: zone.uri.clone(),
        id: zone.id.clone(),
        start: zone.start,
        end: zone.end,
        is_openable: zone.is_openable,
        source: zone.source,
        line: zone.line,
        col: zone.col,
    }
}

/// The links of a line that span the cell at `at`, in their order.
pub fn zones_at(zones: &Vec<HyperlinkZone>, at: Point) -> (r: Vec<HyperlinkZone>)
    ensures
        r@ == zones@.filter(|z: HyperlinkZone| covers(z, at)),
{
    let ghost wanted = |z: HyperlinkZone| covers(z, at);
    let mut out: Vec<HyperlinkZone> = Vec::new();
    let mut i: usize = 0;
    proof {
        reveal(Seq::filter);
        assert(out@ =~= zones@.take(0).filter(wanted));
    }
    while i < zones.len()
        invariant
            i <= zones@.len(),
            wanted == (|z: HyperlinkZone| covers(z, at)),
            out@ == zones@.take(i as int).filter(wanted),
        decreases zones@.len() - i,
    {
        let zone = &zones[i];
        proof {
            reveal(Seq::filter);
            assert(zones@.take(i + 1).drop_last() =~= zones@.take(i as int));
            assert(zones@.take(i + 1).last() == *zone);
        }
        if !(at < zone.start) && !(zone.end < at) {
            out.push(copy_zone(zone));
        }
        i = i + 1;
    }
    assert(zones@.take(i as int) =~= zones@);
    out
}

/// Each shape of the configuration is drawn as itself, and the engine is told the
/// nearest shape that it has: a block for a block, a bar for a beam, one line for one
/// or two, an outline for an outline.
pub proof fn cursors_keep_their_shape(shape: CursorShapeConfig)
    ensures
        renderer_shape(CursorShapeConfig::Vintage) == CursorShape::Vintage,
        renderer_shape(CursorShapeConfig::Block) == CursorShape::Block,
        renderer_shape(CursorShapeConfig::Beam) == CursorShape::Beam,
        renderer_shape(CursorShapeConfig::Underline) == CursorShape::Underline,
        renderer_shape(CursorShapeConfig::DoubleUnderline) == CursorShape::DoubleUnderline,
        renderer_shape(CursorShapeConfig::Hollow) == CursorShape::HollowBlock,
        renderer_shape(shape) != CursorShape::Hidden,
        engine_shape(CursorShape::Beam) == EngineCursorShape::Bar,
        engine_shape(CursorShape::HollowBlock) == EngineCursorShape::HollowBlock,
        engine_shape(CursorShape::Underline) == EngineCursorShape::Underline,
        engine_shape(CursorShape::DoubleUnderline) == EngineCursorShape::Underline,
        engine_shape(CursorShape::Block) == EngineCursorShape::Block,
        engine_shape(CursorShape::Vintage) == EngineCursorShape::Block,
        engine_shape(CursorShape::Hidden) == EngineCursorShape::Block,
{
}

/// The digits of a colour are the ten digits and the first six letters, small or in
/// capitals, and they count as sixteenths do.
pub proof fn colours_are_read_in_sixteens(s: Seq<char>, c: char, d: int)
    requires
        0 <= d < 16,
        d < 10 ==> c as int == '0' as int + d,
        d >= 10 ==> c as int == 'a' as int + d - 10 || c as int == 'A' as int + d - 10,
    ensures
        hex_value(c) == Some(d),
        hex_number(seq![]) == Some(0int),
        hex_number(s) is Some ==> hex_number(s.push(c)) == Some(hex_number(s)->Some_0 * 16 + d),
        hex_number(s) is None ==> hex_number(s.push(c)) is None,
{
    assert(s.push(c).drop_last() =~= s);
}

/// A colour is a number sign and six such digits. A text of another length, with
/// another first character or with another sign in it is none.
pub proof fn colours_have_six_digits(s: Seq<char>, i: int)
    ensures
        hex_color(s) is Some ==> s.len() == 7 && s[0] == '#',
        hex_color(s) is Some && 1 <= i < 7 ==> '0' <= s[i] <= '9' || 'a' <= s[i] <= 'f' || 'A'
            <= s[i] <= 'F',
        s.len() == 7 && s[0] == '#' ==> hex_color(s) == hex_number(s.skip(1)),
{
    if hex_color(s) is Some && 1 <= i < 7 {
        lemma_only_hex_digits(s.skip(1), i - 1);
        assert(s.skip(1)[i - 1] == s[i]);
    }
}

proof fn lemma_only_hex_digits(s: Seq<char>, i: int)
    requires
        hex_number(s) is Some,
        0 <= i < s.len(),
    ensures
        '0' <= s[i] <= '9' || 'a' <= s[i] <= 'f' || 'A' <= s[i] <= 'F',
    decreases s.len(),
{
    if i < s.len() - 1 {
        lemma_only_hex_digits(s.drop_last(), i);
    }
}

/// A steady cursor is always shown, a blinking one in every other phase, and a cursor
/// that the program controls blinks if and only if the program asked for that.
pub proof fn cursors_blink_when_asked(asked: bool, phase: bool)
    ensures
        cursor_shown(CursorBlinkConfig::Off, asked, phase),
        cursor_shown(CursorBlinkConfig::On, asked, phase) == phase,
        cursor_shown(CursorBlinkConfig::TerminalControlled, true, phase) == phase,
        cursor_shown(CursorBlinkConfig::TerminalControlled, false, phase),
{
}

/// The most that a program asked to hear of the mouse is what it is told: of moves
/// before drags, and of drags before clicks.
pub proof fn the_most_of_the_mouse_is_reported(bits: u16)
    ensures
        bits & 256 == 0 && bits & 512 == 0 && bits & 1024 == 0 ==> mouse_reporting(bits) == "off"@,
        bits & 1024 != 0 ==> mouse_reporting(bits) == "motion"@,
        bits & 1024 == 0 && bits & 512 != 0 ==> mouse_reporting(bits) == "drag"@,
        bits & 1024 == 0 && bits & 512 == 0 && bits & 256 != 0 ==> mouse_reporting(bits)
            == "click"@,
        bits & 4 != 0 ==> mouse_format(bits) == "sgr"@,
        bits & 4 == 0 && bits & 8 != 0 ==> mouse_format(bits) == "utf8"@,
        bits & 4 == 0 && bits & 8 == 0 ==> mouse_format(bits) == "normal"@,
{
    assert(bits & 1024 == 0 || bits & 1024 == 1024) by (bit_vector);
    assert(bits & 512 == 0 || bits & 512 == 512) by (bit_vector);
    assert(bits & 4 == 0 || bits & 4 == 4) by (bit_vector);
    assert(bits & 8 == 0 || bits & 8 == 8) by (bit_vector);
    assert(bits & 1792 == 0 <==> bits & 256 == 0 && bits & 512 == 0 && bits & 1024 == 0)
        by (bit_vector);
}

/// How a screen, the keys and the mouse are set is what the key bindings see, each
/// setting by its own name and nothing twice.
pub proof fn bindings_see_the_modes(bits: u16, search_active: bool)
    ensures
        ({
            let context = key_context(bits, search_active);
            let word = |key: Seq<char>| (key, None::<Seq<char>>);
            &&& context[0] == word("Terminal"@)
            &&& context[1] == ("screen"@, Some(if bits & 1 == 1 {
                "alt"@
            } else {
                "normal"@
            }))
            &&& context.contains(word("DECCKM"@)) <==> bits & 2 == 2
            &&& context.contains(word("DECPAM"@)) <==> bits & 16 == 16
            &&& context.contains(word("bracketed_paste"@)) <==> bits & 32 == 32
            &&& context.contains(word("report_focus"@)) <==> bits & 64 == 64
            &&& context.contains(word("alternate_scroll"@)) <==> bits & 128 == 128
            &&& context.contains(word("any_mouse_reporting"@)) <==> bits & 1792 != 0
            &&& context.contains(word("Search"@)) <==> search_active
            &&& context.contains(("mouse_reporting"@, Some(mouse_reporting(bits))))
            &&& context.contains(("mouse_format"@, Some(mouse_format(bits))))
        }),
{
    reveal_strlit("Terminal");
    reveal_strlit("DECCKM");
    reveal_strlit("DECPAM");
    reveal_strlit("bracketed_paste");
    reveal_strlit("report_focus");
    reveal_strlit("alternate_scroll");
    reveal_strlit("any_mouse_reporting");
    reveal_strlit("Search");
    assert("Terminal"@.len() == 8 && "Search"@.len() == 6 && "Search"@[0] == 'S');
    assert("DECCKM"@.len() == 6 && "DECCKM"@[3] == 'C');
    assert("DECPAM"@.len() == 6 && "DECPAM"@[3] == 'P' && "DECPAM"@[0] == 'D');
    assert("bracketed_paste"@.len() == 15 && "report_focus"@.len() == 12);
    assert("alternate_scroll"@.len() == 16 && "any_mouse_reporting"@.len() == 19);
    lemma_in_context(bits, search_active, ("DECCKM"@, None));
    lemma_in_context(bits, search_active, ("DECPAM"@, None));
    lemma_in_context(bits, search_active, ("bracketed_paste"@, None));
    lemma_in_context(bits, search_active, ("report_focus"@, None));
    lemma_in_context(bits, search_active, ("alternate_scroll"@, None));
    lemma_in_context(bits, search_active, ("any_mouse_reporting"@, None));
    lemma_in_context(bits, search_active, ("Search"@, None));
    lemma_in_context(bits, search_active, ("mouse_reporting"@, Some(mouse_reporting(bits))));
    lemma_in_context(bits, search_active, ("mouse_format"@, Some(mouse_format(bits))));
}

proof fn lemma_in_word(when: bool, key: Seq<char>, e: (Seq<char>, Option<Seq<char>>))
    ensures
        word_if(when, key).contains(e) <==> when && e == (key, None::<Seq<char>>),
{
    if when {
        assert(word_if(when, key)[0] == (key, None::<Seq<char>>));
    }
}

proof fn lemma_in_context(
    bits: u16,
    search_active: bool,
    e: (Seq<char>, Option<Seq<char>>),
)
    ensures
        key_context(bits, search_active).contains(e) <==> {
            ||| e == ("Terminal"@, None::<Seq<char>>)
            ||| e == ("screen"@, Some(if bits & 1 == 1 {
                "alt"@
            } else {
                "normal"@
            }))
            ||| bits & 2 == 2 && e == ("DECCKM"@, None::<Seq<char>>)
            ||| bits & 16 == 16 && e == ("DECPAM"@, None::<Seq<char>>)
            ||| bits & 32 == 32 && e == ("bracketed_paste"@, None::<Seq<char>>)
            ||| bits & 64 == 64 && e == ("report_focus"@, None::<Seq<char>>)
            ||| bits & 128 == 128 && e == ("alternate_scroll"@, None::<Seq<char>>)
            ||| bits & 1792 != 0 && e == ("any_mouse_reporting"@, None::<Seq<char>>)
            ||| e == ("mouse_reporting"@, Some(mouse_reporting(bits)))
            ||| e == ("mouse_format"@, Some(mouse_format(bits)))
            ||| search_active && e == ("Search"@, None::<Seq<char>>)
        },
{
    let a = seq![("Terminal"@, None::<Seq<char>>)];
    let screen = if bits & 1 == 1 {
        "alt"@
    } else {
        "normal"@
    };
    let b = pair("screen"@, screen);
    let c = word_if(bits & 2 == 2, "DECCKM"@);
    let d = word_if(bits & 16 == 16, "DECPAM"@);
    let f = word_if(bits & 32 == 32, "bracketed_paste"@);
    let g = word_if(bits & 64 == 64, "report_focus"@);
    let h = word_if(bits & 128 == 128, "alternate_scroll"@);
    let i = word_if(bits & 1792 != 0, "any_mouse_reporting"@);
    let j = pair("mouse_reporting"@, mouse_reporting(bits));
    let k = pair("mouse_format"@, mouse_format(bits));
    let l = word_if(search_active, "Search"@);
    assert(a[0] == ("Terminal"@, None::<Seq<char>>));
    assert(b[0] == ("screen"@, Some(screen)));
    assert(j[0] == ("mouse_reporting"@, Some(mouse_reporting(bits))));
    assert(k[0] == ("mouse_format"@, Some(mouse_format(bits))));
    vstd::seq_lib::lemma_seq_concat_contains_all_elements(
        a + b + c + d + f + g + h + i + j + k,
        l,
        e,
    );
    vstd::seq_lib::lemma_seq_concat_contains_all_elements(a + b + c + d + f + g + h + i + j, k, e);
    vstd::seq_lib::lemma_seq_concat_contains_all_elements(a + b + c + d + f + g + h + i, j, e);
    vstd::seq_lib::lemma_seq_concat_contains_all_elements(a + b + c + d + f + g + h, i, e);
    vstd::seq_lib::lemma_seq_concat_contains_all_elements(a + b + c + d + f + g, h, e);
    vstd::seq_lib::lemma_seq_concat_contains_all_elements(a + b + c + d + f, g, e);
    vstd::seq_lib::lemma_seq_concat_contains_all_elements(a + b + c + d, f, e);
    vstd::seq_lib::lemma_seq_concat_contains_all_elements(a + b + c, d, e);
    vstd::seq_lib::lemma_seq_concat_contains_all_elements(a + b, c, e);
    vstd::seq_lib::lemma_seq_concat_contains_all_elements(a, b, e);
    lemma_in_word(bits & 2 == 2, "DECCKM"@, e);
    lemma_in_word(bits & 16 == 16, "DECPAM"@, e);
    lemma_in_word(bits & 32 == 32, "bracketed_paste"@, e);
    lemma_in_word(bits & 64 == 64, "report_focus"@, e);
    lemma_in_word(bits & 128 == 128, "alternate_scroll"@, e);
    lemma_in_word(bits & 1792 != 0, "any_mouse_reporting"@, e);
    lemma_in_word(search_active, "Search"@, e);
}

/// The search bar says which match of how many is shown, counted from one, with a plus
/// sign if there are more than were counted. A query that cannot be read comes before
/// everything else, and an empty one is told nothing.
pub proof fn searches_tell_their_place(query: Seq<char>, current: nat, count: nat, truncated: bool)
    ensures
        status_text(true, query, current, count, truncated) == "Invalid regex"@,
        query.len() == 0 ==> status_text(false, query, current, count, truncated).len() == 0,
        query.len() > 0 ==> status_text(false, query, current, 0, truncated) == "No results"@,
        query.len() > 0 && count > 0 ==> status_text(false, query, current, count, false)
            == number::decimal(current + 1) + "/"@ + number::decimal(count),
        query.len() > 0 && count > 0 ==> status_text(false, query, current, count, true)
            == status_text(false, query, current, count, false) + "+"@,
{
}

/// A match lies as many lines above the bottom as there are from it to the bottom, and
/// none if it is below.
pub proof fn matches_are_placed_from_the_bottom(bottom: i32, line: i32)
    ensures
        line >= bottom ==> above_bottom(bottom, line) == 0,
        line <= bottom && bottom - line <= i32::MAX ==> line + above_bottom(bottom, line)
            == bottom,
        bottom - line > i32::MAX ==> above_bottom(bottom, line) == i32::MAX,
{
}

/// A link covers the places from its first to its last, these two with it, as text is
/// read.
pub proof fn links_cover_both_ends(zone: HyperlinkZone, at: Point)
    requires
        zone.start.line == zone.end.line,
    ensures
        covers(zone, at) <==> at.line == zone.start.line && zone.start.column.0 <= at.column.0
            <= zone.end.column.0,
{
}

/// A link over several lines covers all of the lines between, its first line from where
/// it starts and its last up to where it ends.
pub proof fn links_cover_the_lines_between(zone: HyperlinkZone, at: Point)
    requires
        zone.start.line.0 < zone.end.line.0,
    ensures
        zone.start.line.0 < at.line.0 < zone.end.line.0 ==> covers(zone, at),
        at.line == zone.start.line ==> (covers(zone, at) <==> at.column.0 >= zone.start.column.0),
        at.line == zone.end.line ==> (covers(zone, at) <==> at.column.0 <= zone.end.column.0),
        at.line.0 < zone.start.line.0 || at.line.0 > zone.end.line.0 ==> !covers(zone, at),
{
}

/// Links are looked for in a line without the white space at its end, and with all of
/// the rest.
pub proof fn links_are_sought_before_the_blank_end(s: Seq<char>)
    ensures
        line_head(s).is_prefix_of(s),
        forall|i: int|
            line_head(s).len() <= i < s.len() ==> classes::whitespace(#[trigger] s[i]),
        line_head(s).len() > 0 ==> !classes::whitespace(line_head(s).last()),
{
    classes::lemma_white_ends(s);
    let e = classes::trimmed_end(s);
    assert(s.take(e) =~= line_head(s));
    assert(line_head(s) =~= s.subrange(0, line_head(s).len() as int));
}

/// The key bindings see four entries at all times, and one more for each mode that is set
/// and for a search that is open.
pub proof fn bindings_see_nothing_else(bits: u16, search_active: bool)
    ensures
        ({
            let one = |on: bool| if on {
                1int
            } else {
                0int
            };
            key_context(bits, search_active).len() == 4 + one(bits & 2 == 2) + one(bits & 16 == 16)
                + one(bits & 32 == 32) + one(bits & 64 == 64) + one(bits & 128 == 128) + one(
                bits & 1792 != 0,
            ) + one(search_active)
        }),
        search_active ==> key_context(bits, search_active).last() == ("Search"@, None::<Seq<char>>),
{
}

} // verus!
