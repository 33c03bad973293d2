//! Themes and the colours that the application derives from them.

use vstd::prelude::*;

use crate::theme::syntax::SyntaxPalette;

verus! {

/// A colour: red, green and blue in one number, and how opaque it is.
#[derive(Clone, Copy, Debug, PartialEq, Eq, Structural)]
pub struct Tint {
    pub rgb: u32,
    pub percent: u8,
}

/// One of the three channels of a colour; the last one is channel zero.
pub open spec fn channel(rgb: u32, i: int) -> int {
    if i == 0 {
        rgb as int % 256
    } else if i == 1 {
        rgb as int / 256 % 256
    } else {
        rgb as int / 65536 % 256
    }
}

/// The largest of three numbers.
pub open spec fn max3(a: int, b: int, c: int) -> int {
    if a >= b && a >= c {
        a
    } else if b >= c {
        b
    } else {
        c
    }
}

/// The smallest of three numbers.
pub open spec fn min3(a: int, b: int, c: int) -> int {
    if a <= b && a <= c {
        a
    } else if b <= c {
        b
    } else {
        c
    }
}

impl Tint {
    /// Whether the lightness, the mean of the largest and the smallest
    /// channel, is above one half.
    pub open spec fn light(self) -> bool {
        let (r, g, b) = (channel(self.rgb, 2), channel(self.rgb, 1), channel(self.rgb, 0));
        max3(r, g, b) + min3(r, g, b) > 255
    }

    /// An opaque colour.
    pub fn solid(rgb: u32) -> (r: Tint)
        ensures
            r == (Tint { rgb, percent: 100 }),
    {
        Tint { rgb, percent: 100 }
    }

    /// A colour that lets the background through.
    pub fn wash(rgb: u32, percent: u8) -> (r: Tint)
        ensures
            r == (Tint { rgb, percent }),
    {
        Tint { rgb, percent }
    }

    /// Whether the colour is light.
    pub fn is_light(self) -> (r: bool)
        ensures
            r == self.light(),
    {
        let red: u32 = self.rgb / 65536 % 256;
        let green: u32 = self.rgb / 256 % 256;
        let blue: u32 = self.rgb % 256;
        let most: u32 = if red >= green && red >= blue {
            red
        } else if green >= blue {
            green
        } else {
            blue
        };
        let least: u32 = if red <= green && red <= blue {
            red
        } else if green <= blue {
            green
        } else {
            blue
        };
        most + least > 255
    }
}

/// The colours of a terminal, and those of the application if the theme brings
/// its own.
#[derive(Clone, Copy, Debug, PartialEq, Eq, Structural)]
pub struct TerminalTheme {
    pub ui: Option<UiColors>,
    pub background: Tint,
    pub foreground: Tint,
    pub bright_foreground: Tint,
    pub dim_foreground: Tint,
    pub ansi_background: Tint,
    pub cursor: Tint,
    pub selection: Tint,
    pub selection_foreground: Tint,
    pub scrollbar_thumb: Tint,
    pub link_text: Tint,
    pub title_bar_background: Tint,
    pub title_bar_inactive_background: Tint,
    pub black: Tint,
    pub red: Tint,
    pub green: Tint,
    pub yellow: Tint,
    pub blue: Tint,
    pub magenta: Tint,
    pub cyan: Tint,
    pub white: Tint,
    pub bright_black: Tint,
    pub bright_red: Tint,
    pub bright_green: Tint,
    pub bright_yellow: Tint,
    pub bright_blue: Tint,
    pub bright_magenta: Tint,
    pub bright_cyan: Tint,
    pub bright_white: Tint,
    pub dim_black: Tint,
    pub dim_red: Tint,
    pub dim_green: Tint,
    pub dim_yellow: Tint,
    pub dim_blue: Tint,
    pub dim_magenta: Tint,
    pub dim_cyan: Tint,
    pub dim_white: Tint,
    pub syntax: SyntaxPalette,
}

/// The title bar and the chrome of the dark application.
pub const CHROME_BACKGROUND_HEX: u32 = 0x141414;

/// The work area of the dark application.
pub const TERMINAL_BACKGROUND_HEX: u32 = 0x181818;

/// The borders of the dark application.
pub const BORDER_HEX: u32 = 0x252525;

/// Whether a theme has a light background.
pub fn is_light_theme(theme: &TerminalTheme) -> (r: bool)
    ensures
        r == theme.background.light(),
{
    theme.background.is_light()
}

/// A theme as the application shows it: a dark one without colours of its own
/// for the application gets the surfaces of the dark application. The colour
/// of selected text is not settled here.
pub open spec fn surfaced(theme: TerminalTheme) -> TerminalTheme {
    if theme.ui is Some || theme.background.light() {
        theme
    } else {
        let chrome = Tint { rgb: CHROME_BACKGROUND_HEX, percent: 100 };
        let area = Tint { rgb: TERMINAL_BACKGROUND_HEX, percent: 100 };
        TerminalTheme {
            title_bar_background: chrome,
            title_bar_inactive_background: chrome,
            background: area,
            ansi_background: area,
            foreground: Tint { rgb: 0xf0f3f7, percent: 100 },
            bright_foreground: Tint { rgb: 0xffffff, percent: 100 },
            dim_foreground: Tint { rgb: 0x9ca7b5, percent: 100 },
            selection: Tint { rgb: 0x5aa6ff, percent: 22 },
            scrollbar_thumb: Tint { rgb: 0x9aa8bd, percent: 30 },
            link_text: Tint { rgb: 0x57d5c4, percent: 100 },
            ..theme
        }
    }
}

/// A theme as the application shows it.
pub fn apply_surface_overrides(theme: TerminalTheme) -> (r: TerminalTheme)
    ensures
        r == surfaced(theme),
{
    if theme.ui.is_some() || is_light_theme(&theme) {
        return theme;
    }
    let chrome_bg = Tint::solid(CHROME_BACKGROUND_HEX);
    let terminal_bg = Tint::solid(TERMINAL_BACKGROUND_HEX);
    let mut t = theme;
    t.title_bar_background = chrome_bg;
    t.title_bar_inactive_background = chrome_bg;
    t.background = terminal_bg;
    t.ansi_background = terminal_bg;
    t.foreground = Tint::solid(0xf0f3f7);
    t.bright_foreground = Tint::solid(0xffffff);
    t.dim_foreground = Tint::solid(0x9ca7b5);
    t.selection = Tint::wash(0x5aa6ff, 22);
    t.scrollbar_thumb = Tint::wash(0x9aa8bd, 30);
    t.link_text = Tint::solid(0x57d5c4);
    t
}

/// The overrides keep a light theme light and a dark one dark, keep the
/// colours that a theme brings along, and applied again change nothing.
pub proof fn overrides_settle_at_once(theme: TerminalTheme)
    ensures
        surfaced(surfaced(theme)) == surfaced(theme),
        surfaced(theme).background.light() == theme.background.light(),
        surfaced(theme).ui == theme.ui,
        surfaced(theme).syntax == theme.syntax,
{
}

/// The colour that selected text is computed against: the selection as if it
/// were opaque.
pub fn opaque_selection(theme: &TerminalTheme) -> (r: Tint)
    ensures
        r == (Tint { percent: 100, ..theme.selection }),
{
    Tint { rgb: theme.selection.rgb, percent: 100 }
}

/// The colours of the application around the terminals.
#[derive(Clone, Copy, Debug, PartialEq, Eq, Structural)]
pub struct UiColors {
    /// Whether diffs use the washes of the theme in the dark, too.
    pub use_theme_diff_washes: bool,
    /// The deepest background.
    pub base: Tint,
    /// Cards and panels.
    pub surface: Tint,
    /// Menus and popovers.
    pub overlay: Tint,
    /// Borders and dividers.
    pub border: Tint,
    /// Hovered things and badges.
    pub subtle: Tint,
    /// Secondary text.
    pub muted: Tint,
    /// Primary text.
    pub text: Tint,
    /// What is active.
    pub accent: Tint,
    /// The head of a card that waits for the user.
    pub tool_card_header_bg: Tint,
    /// Added lines and files.
    pub vc_added: Tint,
    /// Modified ones.
    pub vc_modified: Tint,
    /// Deleted ones.
    pub vc_deleted: Tint,
    /// Merge conflicts.
    pub vc_conflict: Tint,
    /// Behind added lines.
    pub vc_added_background: Tint,
    /// Behind deleted lines.
    pub vc_deleted_background: Tint,
    /// Behind modified lines.
    pub vc_modified_background: Tint,
    /// Behind added words.
    pub vc_word_added: Tint,
    /// Behind deleted words.
    pub vc_word_deleted: Tint,
    pub group_1: Tint,
    pub group_2: Tint,
    pub group_3: Tint,
    pub group_4: Tint,
    pub group_5: Tint,
    pub group_6: Tint,
    pub group_7: Tint,
    pub group_8: Tint,
    /// An agent that crashed.
    pub agent_error: Tint,
    /// An agent that fell silent.
    pub agent_stalled: Tint,
    /// The warm brand colour of an agent's rows, the same on light and dark.
    pub agent_claude: Tint,
    /// The cool brand colour of an agent's rows, the same on light and dark.
    pub agent_codex: Tint,
}

/// The colours of a diff.
#[derive(Clone, Copy, Debug, PartialEq, Eq, Structural)]
pub struct DiffColors {
    pub added: Tint,
    pub deleted: Tint,
    pub added_background: Tint,
    pub deleted_background: Tint,
    pub added_gutter_background: Tint,
    pub deleted_gutter_background: Tint,
}

/// Colours as mathematical values, each from its number and its opacity.
pub open spec fn tints(list: Seq<(u32, u8)>) -> Seq<Tint> {
    list.map_values(|c: (u32, u8)| Tint { rgb: c.0, percent: c.1 })
}

impl UiColors {
    /// The colours in the order of the fields.
    pub open spec fn slots(self) -> Seq<Tint> {
        seq![
            self.base,
            self.surface,
            self.overlay,
            self.border,
            self.subtle,
            self.muted,
            self.text,
            self.accent,
            self.tool_card_header_bg,
            self.vc_added,
            self.vc_modified,
            self.vc_deleted,
            self.vc_conflict,
            self.vc_added_background,
            self.vc_deleted_background,
            self.vc_modified_background,
            self.vc_word_added,
            self.vc_word_deleted,
            self.group_1,
            self.group_2,
            self.group_3,
            self.group_4,
            self.group_5,
            self.group_6,
            self.group_7,
            self.group_8,
            self.agent_error,
            self.agent_stalled,
            self.agent_claude,
            self.agent_codex,
        ]
    }

    /// The stripes of the broadcast groups.
    pub open spec fn stripes(self) -> Seq<Tint> {
        seq![
            self.group_1,
            self.group_2,
            self.group_3,
            self.group_4,
            self.group_5,
            self.group_6,
            self.group_7,
            self.group_8,
        ]
    }

    /// The colours of a diff: those of the theme on a light base or where the
    /// theme says so, else the washes of the dark application.
    pub open spec fn diff(self) -> DiffColors {
        if self.base.light() || self.use_theme_diff_washes {
            DiffColors {
                added: self.vc_added,
                deleted: self.vc_deleted,
                added_background: self.vc_added_background,
                deleted_background: self.vc_deleted_background,
                added_gutter_background: self.vc_added_background,
                deleted_gutter_background: self.vc_deleted_background,
            }
        } else {
            DiffColors {
                added: Tint { rgb: 0x57d992, percent: 100 },
                deleted: Tint { rgb: 0xff6f6a, percent: 100 },
                added_background: Tint { rgb: 0x1d3a2b, percent: 100 },
                deleted_background: Tint { rgb: 0x402425, percent: 100 },
                added_gutter_background: Tint { rgb: 0x16281f, percent: 100 },
                deleted_gutter_background: Tint { rgb: 0x2c1718, percent: 100 },
            }
        }
    }

    /// The colours of a diff.
    pub fn diff_colors(&self) -> (r: DiffColors)
        ensures
            r == self.diff(),
    {
        if self.base.is_light() || self.use_theme_diff_washes {
            return DiffColors {
                added: self.vc_added,
                deleted: self.vc_deleted,
                added_background: self.vc_added_background,
                deleted_background: self.vc_deleted_background,
                added_gutter_background: self.vc_added_background,
                deleted_gutter_background: self.vc_deleted_background,
            };
        }
        DiffColors {
            added: Tint::solid(0x57d992),
            deleted: Tint::solid(0xff6f6a),
            added_background: Tint::solid(0x1d3a2b),
            deleted_background: Tint::solid(0x402425),
            added_gutter_background: Tint::solid(0x16281f),
            deleted_gutter_background: Tint::solid(0x2c1718),
        }
    }

    /// The stripe of broadcast group `idx`; the ninth group shares the first
    /// one's, and so on.
    pub fn group_color(&self, idx: usize) -> (r: Tint)
        ensures
            r == self.stripes()[idx as int % 8],
    {
        match idx % 8 {
            0 => self.group_1,
            1 => self.group_2,
            2 => self.group_3,
            3 => self.group_4,
            4 => self.group_5,
            5 => self.group_6,
            6 => self.group_7,
            _ => self.group_8,
        }
    }

    /// The colours of the light application: a pure white work area, and greys
    /// without a hue.
    pub open spec fn light_slots() -> Seq<Tint> {
        tints(
            seq![
                (0xffffffu32, 100u8), (0xf7f7f7u32, 100u8), (0xffffffu32, 100u8), (0xe6e6e6u32, 100u8),
                (0xeeeeeeu32, 100u8), (0x6a6a6au32, 100u8), (0x262626u32, 100u8), (0x4c6fffu32, 100u8),
                (0xf1f1f1u32, 100u8), (0x40a02bu32, 100u8), (0xdf8e1du32, 100u8), (0xd20f39u32, 100u8),
                (0xfe640bu32, 100u8), (0x40a02bu32, 16u8), (0xd20f39u32, 16u8), (0xdf8e1du32, 16u8),
                (0x40a02bu32, 40u8), (0xd20f39u32, 40u8), (0x1e66f5u32, 100u8), (0x40a02bu32, 100u8),
                (0xdf8e1du32, 100u8), (0xd20f39u32, 100u8), (0x8839efu32, 100u8), (0x179299u32, 100u8),
                (0xfe640bu32, 100u8), (0x7287fdu32, 100u8), (0xd20f39u32, 100u8), (0x808080u32, 100u8),
                (0xe89271u32, 100u8), (0x5b6cffu32, 100u8),
            ],
        )
    }

    fn light() -> (r: UiColors)
        ensures
            r.slots() == UiColors::light_slots(),
            !r.use_theme_diff_washes,
    {
        let r = UiColors {
            use_theme_diff_washes: false,
            base: Tint::solid(0xffffff),
            surface: Tint::solid(0xf7f7f7),
            overlay: Tint::solid(0xffffff),
            border: Tint::solid(0xe6e6e6),
            subtle: Tint::solid(0xeeeeee),
            muted: Tint::solid(0x6a6a6a),
            text: Tint::solid(0x262626),
            accent: Tint::solid(0x4c6fff),
            tool_card_header_bg: Tint::solid(0xf1f1f1),
            vc_added: Tint::solid(0x40a02b),
            vc_modified: Tint::solid(0xdf8e1d),
            vc_deleted: Tint::solid(0xd20f39),
            vc_conflict: Tint::solid(0xfe640b),
            vc_added_background: Tint::wash(0x40a02b, 16),
            vc_deleted_background: Tint::wash(0xd20f39, 16),
            vc_modified_background: Tint::wash(0xdf8e1d, 16),
            vc_word_added: Tint::wash(0x40a02b, 40),
            vc_word_deleted: Tint::wash(0xd20f39, 40),
            group_1: Tint::solid(0x1e66f5),
            group_2: Tint::solid(0x40a02b),
            group_3: Tint::solid(0xdf8e1d),
            group_4: Tint::solid(0xd20f39),
            group_5: Tint::solid(0x8839ef),
            group_6: Tint::solid(0x179299),
            group_7: Tint::solid(0xfe640b),
            group_8: Tint::solid(0x7287fd),
            agent_error: Tint::solid(0xd20f39),
            agent_stalled: Tint::solid(0x808080),
            agent_claude: Tint::solid(0xe89271),
            agent_codex: Tint::solid(0x5b6cff),
        };
        assert(r.slots() =~= UiColors::light_slots());
        r
    }

    /// The colours of the dark application: greys without a hue, so that colour
    /// always means something.
    pub open spec fn dark_slots() -> Seq<Tint> {
        tints(
            seq![
                (0x181818u32, 100u8), (0x212121u32, 100u8), (0x141414u32, 100u8), (0x252525u32, 100u8),
                (0x2a2a2au32, 100u8), (0xa0a0a0u32, 100u8), (0xddddddu32, 100u8), (0x57d5c4u32, 100u8),
                (0x2e2e2eu32, 100u8), (0x57d992u32, 100u8), (0xffd166u32, 100u8), (0xff6f6au32, 100u8),
                (0xffa657u32, 100u8), (0x57d992u32, 12u8), (0xff6f6au32, 12u8), (0xffd166u32, 12u8),
                (0x57d992u32, 40u8), (0xff6f6au32, 40u8), (0x7eb6ffu32, 100u8), (0x57d992u32, 100u8),
                (0xffd166u32, 100u8), (0xff6f6au32, 100u8), (0xc79bffu32, 100u8), (0x57d5c4u32, 100u8),
                (0xffa657u32, 100u8), (0x9ea7ffu32, 100u8), (0xff6f6au32, 100u8), (0xa0a0a0u32, 100u8),
                (0xe89271u32, 100u8), (0x5b6cffu32, 100u8),
            ],
        )
    }

    fn dark() -> (r: UiColors)
        ensures
            r.slots() == UiColors::dark_slots(),
            !r.use_theme_diff_washes,
    {
        let r = UiColors {
            use_theme_diff_washes: false,
            base: Tint::solid(TERMINAL_BACKGROUND_HEX),
            surface: Tint::solid(0x212121),
            overlay: Tint::solid(CHROME_BACKGROUND_HEX),
            border: Tint::solid(BORDER_HEX),
            subtle: Tint::solid(0x2a2a2a),
            muted: Tint::solid(0xa0a0a0),
            text: Tint::solid(0xdddddd),
            accent: Tint::solid(0x57d5c4),
            tool_card_header_bg: Tint::solid(0x2e2e2e),
            vc_added: Tint::solid(0x57d992),
            vc_modified: Tint::solid(0xffd166),
            vc_deleted: Tint::solid(0xff6f6a),
            vc_conflict: Tint::solid(0xffa657),
            vc_added_background: Tint::wash(0x57d992, 12),
            vc_deleted_background: Tint::wash(0xff6f6a, 12),
            vc_modified_background: Tint::wash(0xffd166, 12),
            vc_word_added: Tint::wash(0x57d992, 40),
            vc_word_deleted: Tint::wash(0xff6f6a, 40),
            group_1: Tint::solid(0x7eb6ff),
            group_2: Tint::solid(0x57d992),
            group_3: Tint::solid(0xffd166),
            group_4: Tint::solid(0xff6f6a),
            group_5: Tint::solid(0xc79bff),
            group_6: Tint::solid(0x57d5c4),
            group_7: Tint::solid(0xffa657),
            group_8: Tint::solid(0x9ea7ff),
            agent_error: Tint::solid(0xff6f6a),
            agent_stalled: Tint::solid(0xa0a0a0),
            agent_claude: Tint::solid(0xe89271),
            agent_codex: Tint::solid(0x5b6cff),
        };
        assert(r.slots() =~= UiColors::dark_slots());
        r
    }
}

/// The colours of the application under a theme: the theme's own, or those of
/// the light or the dark application.
pub fn ui_colors_with(theme: &TerminalTheme) -> (r: UiColors)
    ensures
        match theme.ui {
            Some(ui) => r == ui,
            None => !r.use_theme_diff_washes && r.slots() == (if theme.background.light() {
                UiColors::light_slots()
            } else {
                UiColors::dark_slots()
            }),
        },
{
    match theme.ui {
        Some(ui) => ui,
        None => {
            if is_light_theme(theme) {
                UiColors::light()
            } else {
                UiColors::dark()
            }
        },
    }
}

/// The brand colours of the agents are the same in the light and in the dark
/// application.
pub proof fn brand_colours_are_the_same_on_both(light: UiColors, dark: UiColors)
    requires
        light.slots() == UiColors::light_slots(),
        dark.slots() == UiColors::dark_slots(),
    ensures
        light.agent_claude == dark.agent_claude,
        light.agent_codex == dark.agent_codex,
{
    assert(light.agent_claude == light.slots()[28] && dark.agent_claude == dark.slots()[28]);
    assert(light.agent_codex == light.slots()[29] && dark.agent_codex == dark.slots()[29]);
}

/// An agent that crashed or fell silent never looks like one that waits for the
/// user, which has the colour of a conflict.
pub proof fn dead_agents_do_not_look_waiting(ui: UiColors)
    requires
        ui.slots() == UiColors::light_slots() || ui.slots() == UiColors::dark_slots(),
    ensures
        ui.agent_error != ui.vc_conflict,
        ui.agent_stalled != ui.vc_conflict,
        ui.agent_error != ui.agent_stalled,
{
    assert(ui.vc_conflict == ui.slots()[12]);
    assert(ui.agent_error == ui.slots()[26]);
    assert(ui.agent_stalled == ui.slots()[27]);
}

/// A dark theme without colours of its own for the application is shown in those
/// of the dark application. Its text stands out: plain text and bright text are
/// light, on a background that is dark, and so are links.
pub proof fn dark_themes_are_readable(theme: TerminalTheme)
    requires
        theme.ui is None,
        !theme.background.light(),
    ensures
        ({
            let shown = surfaced(theme);
            &&& shown.foreground == (Tint { rgb: 0xf0f3f7, percent: 100 })
            &&& shown.foreground.light()
            &&& shown.bright_foreground == (Tint { rgb: 0xffffff, percent: 100 })
            &&& shown.bright_foreground.light()
            &&& shown.dim_foreground == (Tint { rgb: 0x9ca7b5, percent: 100 })
            &&& shown.dim_foreground.light()
            &&& shown.link_text == (Tint { rgb: 0x57d5c4, percent: 100 })
            &&& shown.link_text.light()
            &&& shown.background == (Tint { rgb: 0x181818, percent: 100 })
            &&& !shown.background.light()
            &&& shown.ansi_background == shown.background
            &&& shown.title_bar_background == (Tint { rgb: 0x141414, percent: 100 })
            &&& shown.title_bar_inactive_background == shown.title_bar_background
            &&& shown.selection == (Tint { rgb: 0x5aa6ff, percent: 22 })
            &&& shown.scrollbar_thumb == (Tint { rgb: 0x9aa8bd, percent: 30 })
        }),
{
}

/// Apart from its surfaces a theme is shown as it is: the cursor, the sixteen
/// colours of the terminal and their dim ones, and the colours of code.
pub proof fn other_colours_are_kept(theme: TerminalTheme)
    ensures
        ({
            let shown = surfaced(theme);
            &&& theme.ui is Some ==> shown == theme
            &&& theme.background.light() ==> shown == theme
            &&& shown.ui == theme.ui
            &&& shown.cursor == theme.cursor
            &&& shown.selection_foreground == theme.selection_foreground
            &&& shown.black == theme.black && shown.red == theme.red && shown.green == theme.green
            &&& shown.yellow == theme.yellow && shown.blue == theme.blue
            &&& shown.magenta == theme.magenta && shown.cyan == theme.cyan
            &&& shown.white == theme.white
            &&& shown.bright_black == theme.bright_black && shown.bright_red == theme.bright_red
            &&& shown.bright_green == theme.bright_green
            &&& shown.bright_yellow == theme.bright_yellow
            &&& shown.bright_blue == theme.bright_blue
            &&& shown.bright_magenta == theme.bright_magenta
            &&& shown.bright_cyan == theme.bright_cyan && shown.bright_white == theme.bright_white
            &&& shown.dim_black == theme.dim_black && shown.dim_red == theme.dim_red
            &&& shown.dim_green == theme.dim_green && shown.dim_yellow == theme.dim_yellow
            &&& shown.dim_blue == theme.dim_blue && shown.dim_magenta == theme.dim_magenta
            &&& shown.dim_cyan == theme.dim_cyan && shown.dim_white == theme.dim_white
            &&& shown.syntax == theme.syntax
        }),
{
}

/// Lightness goes by the channels: black and the dark greys are dark, white and the
/// light greys are light, and a colour with one channel full is light exactly if
/// none of its channels is empty.
pub proof fn lightness_goes_by_the_channels(r: u32, g: u32, b: u32, percent: u8)
    requires
        r < 256,
        g < 256,
        b < 256,
    ensures
        ({
            let c = Tint { rgb: (r * 65536 + g * 256 + b) as u32, percent };
            &&& r == g && g == b ==> (c.light() <==> r >= 128)
            &&& r < 128 && g < 128 && b < 128 ==> !c.light()
            &&& r >= 128 && g >= 128 && b >= 128 ==> c.light()
            &&& r == 255 || g == 255 || b == 255 ==> (c.light() <==> r > 0 && g > 0 && b > 0)
        }),
{
    let rgb = (r * 65536 + g * 256 + b) as u32;
    assert(channel(rgb, 0) == b && channel(rgb, 1) == g && channel(rgb, 2) == r);
}

/// The colours of the light application: dark text on light surfaces, each colour
/// in its place.
pub proof fn light_colours_are_readable(ui: UiColors)
    requires
        ui.slots() == UiColors::light_slots(),
    ensures
        ui.base == (Tint { rgb: 0xffffff, percent: 100 }),
        ui.surface == (Tint { rgb: 0xf7f7f7, percent: 100 }),
        ui.overlay == (Tint { rgb: 0xffffff, percent: 100 }),
        ui.border == (Tint { rgb: 0xe6e6e6, percent: 100 }),
        ui.subtle == (Tint { rgb: 0xeeeeee, percent: 100 }),
        ui.muted == (Tint { rgb: 0x6a6a6a, percent: 100 }),
        ui.text == (Tint { rgb: 0x262626, percent: 100 }),
        ui.accent == (Tint { rgb: 0x4c6fff, percent: 100 }),
        ui.tool_card_header_bg == (Tint { rgb: 0xf1f1f1, percent: 100 }),
        ui.vc_added == (Tint { rgb: 0x40a02b, percent: 100 }),
        ui.vc_modified == (Tint { rgb: 0xdf8e1d, percent: 100 }),
        ui.vc_deleted == (Tint { rgb: 0xd20f39, percent: 100 }),
        ui.vc_conflict == (Tint { rgb: 0xfe640b, percent: 100 }),
        ui.vc_added_background == (Tint { rgb: 0x40a02b, percent: 16 }),
        ui.vc_deleted_background == (Tint { rgb: 0xd20f39, percent: 16 }),
        ui.vc_modified_background == (Tint { rgb: 0xdf8e1d, percent: 16 }),
        ui.vc_word_added == (Tint { rgb: 0x40a02b, percent: 40 }),
        ui.vc_word_deleted == (Tint { rgb: 0xd20f39, percent: 40 }),
        ui.group_1 == (Tint { rgb: 0x1e66f5, percent: 100 }),
        ui.group_2 == (Tint { rgb: 0x40a02b, percent: 100 }),
        ui.group_3 == (Tint { rgb: 0xdf8e1d, percent: 100 }),
        ui.group_4 == (Tint { rgb: 0xd20f39, percent: 100 }),
        ui.group_5 == (Tint { rgb: 0x8839ef, percent: 100 }),
        ui.group_6 == (Tint { rgb: 0x179299, percent: 100 }),
        ui.group_7 == (Tint { rgb: 0xfe640b, percent: 100 }),
        ui.group_8 == (Tint { rgb: 0x7287fd, percent: 100 }),
        ui.agent_error == (Tint { rgb: 0xd20f39, percent: 100 }),
        ui.agent_stalled == (Tint { rgb: 0x808080, percent: 100 }),
        ui.agent_claude == (Tint { rgb: 0xe89271, percent: 100 }),
        ui.agent_codex == (Tint { rgb: 0x5b6cff, percent: 100 }),
        ui.base.light() && ui.surface.light() && ui.overlay.light(),
        !ui.text.light() && !ui.muted.light(),
{
    let all = ui.slots();
    assert(all[0] == ui.base);
    assert(all[1] == ui.surface);
    assert(all[2] == ui.overlay);
    assert(all[3] == ui.border);
    assert(all[4] == ui.subtle);
    assert(all[5] == ui.muted);
    assert(all[6] == ui.text);
    assert(all[7] == ui.accent);
    assert(all[8] == ui.tool_card_header_bg);
    assert(all[9] == ui.vc_added);
    assert(all[10] == ui.vc_modified);
    assert(all[11] == ui.vc_deleted);
    assert(all[12] == ui.vc_conflict);
    assert(all[13] == ui.vc_added_background);
    assert(all[14] == ui.vc_deleted_background);
    assert(all[15] == ui.vc_modified_background);
    assert(all[16] == ui.vc_word_added);
    assert(all[17] == ui.vc_word_deleted);
    assert(all[18] == ui.group_1);
    assert(all[19] == ui.group_2);
    assert(all[20] == ui.group_3);
    assert(all[21] == ui.group_4);
    assert(all[22] == ui.group_5);
    assert(all[23] == ui.group_6);
    assert(all[24] == ui.group_7);
    assert(all[25] == ui.group_8);
    assert(all[26] == ui.agent_error);
    assert(all[27] == ui.agent_stalled);
    assert(all[28] == ui.agent_claude);
    assert(all[29] == ui.agent_codex);
}

/// The colours of the dark application: light text on dark surfaces, each colour in
/// its place.
pub proof fn dark_colours_are_readable(ui: UiColors)
    requires
        ui.slots() == UiColors::dark_slots(),
    ensures
        ui.base == (Tint { rgb: 0x181818, percent: 100 }),
        ui.surface == (Tint { rgb: 0x212121, percent: 100 }),
        ui.overlay == (Tint { rgb: 0x141414, percent: 100 }),
        ui.border == (Tint { rgb: 0x252525, percent: 100 }),
        ui.subtle == (Tint { rgb: 0x2a2a2a, percent: 100 }),
        ui.muted == (Tint { rgb: 0xa0a0a0, percent: 100 }),
        ui.text == (Tint { rgb: 0xdddddd, percent: 100 }),
        ui.accent == (Tint { rgb: 0x57d5c4, percent: 100 }),
        ui.tool_card_header_bg == (Tint { rgb: 0x2e2e2e, percent: 100 }),
        ui.vc_added == (Tint { rgb: 0x57d992, percent: 100 }),
        ui.vc_modified == (Tint { rgb: 0xffd166, percent: 100 }),
        ui.vc_deleted == (Tint { rgb: 0xff6f6a, percent: 100 }),
        ui.vc_conflict == (Tint { rgb: 0xffa657, percent: 100 }),
        ui.vc_added_background == (Tint { rgb: 0x57d992, percent: 12 }),
        ui.vc_deleted_background == (Tint { rgb: 0xff6f6a, percent: 12 }),
        ui.vc_modified_background == (Tint { rgb: 0xffd166, percent: 12 }),
        ui.vc_word_added == (Tint { rgb: 0x57d992, percent: 40 }),
        ui.vc_word_deleted == (Tint { rgb: 0xff6f6a, percent: 40 }),
        ui.group_1 == (Tint { rgb: 0x7eb6ff, percent: 100 }),
        ui.group_2 == (Tint { rgb: 0x57d992, percent: 100 }),
        ui.group_3 == (Tint { rgb: 0xffd166, percent: 100 }),
        ui.group_4 == (Tint { rgb: 0xff6f6a, percent: 100 }),
        ui.group_5 == (Tint { rgb: 0xc79bff, percent: 100 }),
        ui.group_6 == (Tint { rgb: 0x57d5c4, percent: 100 }),
        ui.group_7 == (Tint { rgb: 0xffa657, percent: 100 }),
        ui.group_8 == (Tint { rgb: 0x9ea7ff, percent: 100 }),
        ui.agent_error == (Tint { rgb: 0xff6f6a, percent: 100 }),
        ui.agent_stalled == (Tint { rgb: 0xa0a0a0, percent: 100 }),
        ui.agent_claude == (Tint { rgb: 0xe89271, percent: 100 }),
        ui.agent_codex == (Tint { rgb: 0x5b6cff, percent: 100 }),
        !ui.base.light() && !ui.surface.light() && !ui.overlay.light(),
        ui.text.light() && ui.muted.light(),
{
    let all = ui.slots();
    assert(all[0] == ui.base);
    assert(all[1] == ui.surface);
    assert(all[2] == ui.overlay);
    assert(all[3] == ui.border);
    assert(all[4] == ui.subtle);
    assert(all[5] == ui.muted);
    assert(all[6] == ui.text);
    assert(all[7] == ui.accent);
    assert(all[8] == ui.tool_card_header_bg);
    assert(all[9] == ui.vc_added);
    assert(all[10] == ui.vc_modified);
    assert(all[11] == ui.vc_deleted);
    assert(all[12] == ui.vc_conflict);
    assert(all[13] == ui.vc_added_background);
    assert(all[14] == ui.vc_deleted_background);
    assert(all[15] == ui.vc_modified_background);
    assert(all[16] == ui.vc_word_added);
    assert(all[17] == ui.vc_word_deleted);
    assert(all[18] == ui.group_1);
    assert(all[19] == ui.group_2);
    assert(all[20] == ui.group_3);
    assert(all[21] == ui.group_4);
    assert(all[22] == ui.group_5);
    assert(all[23] == ui.group_6);
    assert(all[24] == ui.group_7);
    assert(all[25] == ui.group_8);
    assert(all[26] == ui.agent_error);
    assert(all[27] == ui.agent_stalled);
    assert(all[28] == ui.agent_claude);
    assert(all[29] == ui.agent_codex);
}


/// A diff is shown in the theme's own colours on a light base or where the theme asks
/// for it, and in the fixed colours of the dark application otherwise. There, lines
/// and their gutters are dark, and the signs on them are light.
pub proof fn diffs_fit_their_base(ui: UiColors)
    ensures
        ui.base.light() || ui.use_theme_diff_washes ==> {
            &&& ui.diff().added == ui.vc_added && ui.diff().deleted == ui.vc_deleted
            &&& ui.diff().added_background == ui.vc_added_background
            &&& ui.diff().deleted_background == ui.vc_deleted_background
            &&& ui.diff().added_gutter_background == ui.vc_added_background
            &&& ui.diff().deleted_gutter_background == ui.vc_deleted_background
        },
        !ui.base.light() && !ui.use_theme_diff_washes ==> {
            &&& ui.diff().added == (Tint { rgb: 0x57d992, percent: 100 })
            &&& ui.diff().deleted == (Tint { rgb: 0xff6f6a, percent: 100 })
            &&& ui.diff().added_background == (Tint { rgb: 0x1d3a2b, percent: 100 })
            &&& ui.diff().deleted_background == (Tint { rgb: 0x402425, percent: 100 })
            &&& ui.diff().added_gutter_background == (Tint { rgb: 0x16281f, percent: 100 })
            &&& ui.diff().deleted_gutter_background == (Tint { rgb: 0x2c1718, percent: 100 })
            &&& ui.diff().added.light() && ui.diff().deleted.light()
            &&& !ui.diff().added_background.light() && !ui.diff().deleted_background.light()
            &&& !ui.diff().added_gutter_background.light()
            &&& !ui.diff().deleted_gutter_background.light()
        },
{
}

/// The eight colours of groups are given out in order, and from the first again
/// after the last.
pub proof fn groups_take_turns(ui: UiColors, idx: usize)
    ensures
        ui.stripes()[0] == ui.group_1 && ui.stripes()[1] == ui.group_2,
        ui.stripes()[2] == ui.group_3 && ui.stripes()[3] == ui.group_4,
        ui.stripes()[4] == ui.group_5 && ui.stripes()[5] == ui.group_6,
        ui.stripes()[6] == ui.group_7 && ui.stripes()[7] == ui.group_8,
        idx < 8 ==> ui.stripes()[idx as int % 8] == ui.stripes()[idx as int],
        ui.stripes()[(idx + 8) % 8] == ui.stripes()[idx as int % 8],
        ui.stripes().len() == 8,
{
}

} // verus!
