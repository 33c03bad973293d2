//! Types that the terminal's logic and its rendering share.
//!
//! The engine's own values are turned into these before anything else sees
//! them.

use std::sync::Arc;

use vstd::prelude::*;

use crate::text::chars;
use crate::text::split;

verus! {

/// How arguments are quoted for a shell.
#[derive(Clone, Copy, Debug, PartialEq, Eq, Structural)]
pub enum ShellQuoting {
    Posix,
    PowerShell,
}

/// The name of a shell, without its directory and in lower case.
pub open spec fn shell_basename(shell: Seq<char>) -> Seq<char> {
    chars::lower(split::after_last(shell, '/'))
}

/// Whether a name is that of a shell with POSIX syntax.
pub open spec fn posix_name(name: Seq<char>) -> bool {
    ||| name == "sh"@
    ||| name == "bash"@
    ||| name == "zsh"@
    ||| name == "fish"@
    ||| name == "dash"@
    ||| name == "ksh"@
    ||| name == "ash"@
    ||| name == "mksh"@
}

/// The name of a shell, without its directory and in lower case.
pub fn basename_of(shell: &str) -> (r: String)
    ensures
        r@ == shell_basename(shell@),
{
    let name = split::rest_after_last(shell, '/');
    chars::to_lower(name.as_str())
}

/// Whether a name is that of a shell with POSIX syntax.
pub fn is_posix_name(name: &str) -> (r: bool)
    ensures
        r == posix_name(name@),
{
    chars::same(name, "sh") || chars::same(name, "bash") || chars::same(name, "zsh")
        || chars::same(name, "fish") || chars::same(name, "dash") || chars::same(name, "ksh")
        || chars::same(name, "ash") || chars::same(name, "mksh")
}

impl ShellQuoting {
    /// How arguments are quoted for the shell at this path: an unknown shell
    /// is taken for a POSIX one.
    pub fn for_shell(shell: &str) -> (r: ShellQuoting)
        ensures
            r == (if shell_basename(shell@) == "pwsh"@ || shell_basename(shell@) == "powershell"@ {
                ShellQuoting::PowerShell
            } else {
                ShellQuoting::Posix
            }),
    {
        let name = basename_of(shell);
        if chars::same(name.as_str(), "pwsh") || chars::same(name.as_str(), "powershell") {
            ShellQuoting::PowerShell
        } else if is_posix_name(name.as_str()) {
            ShellQuoting::Posix
        } else {
            ShellQuoting::default_for_platform()
        }
    }

    /// How arguments are quoted where nothing is known of the shell.
    pub fn default_for_platform() -> (r: ShellQuoting)
        ensures
            r == ShellQuoting::Posix,
    {
        ShellQuoting::Posix
    }
}

/// The size of a terminal window, in cells and of one cell in pixels.
#[derive(Clone, Copy, Debug, PartialEq, Eq, Structural)]
pub struct TerminalWindowSize {
    pub cols: usize,
    pub rows: usize,
    pub cell_width: u16,
    pub cell_height: u16,
}

impl TerminalWindowSize {
    pub fn new(cols: usize, rows: usize, cell_width: u16, cell_height: u16) -> (r:
        TerminalWindowSize)
        ensures
            r == (TerminalWindowSize { cols, rows, cell_width, cell_height }),
    {
        TerminalWindowSize { cols, rows, cell_width, cell_height }
    }
}

/// The index of a grid line: zero is the top of the viewport, lines of the
/// scrollback are negative.
#[derive(Clone, Copy, Debug, PartialEq, Eq, PartialOrd, Ord, Hash, Structural)]
pub struct Line(pub i32);

impl Default for Line {
    fn default() -> (r: Line)
        ensures
            r == Line(0),
    {
        Line(0)
    }
}

/// The index of a grid column.
#[derive(Clone, Copy, Debug, PartialEq, Eq, PartialOrd, Ord, Hash, Structural)]
pub struct Column(pub usize);

impl Default for Column {
    fn default() -> (r: Column)
        ensures
            r == Column(0),
    {
        Column(0)
    }
}

/// A position in the grid. Positions are ordered by line, then by column.
#[derive(Clone, Copy, Debug, PartialEq, Eq, Ord, Hash, Structural)]
pub struct Point {
    pub line: Line,
    pub column: Column,
}

impl Default for Point {
    fn default() -> (r: Point)
        ensures
            r == (Point { line: Line(0), column: Column(0) }),
    {
        Point { line: Line(0), column: Column(0) }
    }
}

impl Point {
    pub fn new(line: i32, column: usize) -> (r: Point)
        ensures
            r == (Point { line: Line(line), column: Column(column) }),
    {
        Point { line: Line(line), column: Column(column) }
    }

    /// Whether this position comes before `other`.
    pub open spec fn precedes(self, other: Point) -> bool {
        self.line.0 < other.line.0 || (self.line.0 == other.line.0 && self.column.0
            < other.column.0)
    }
}

impl PartialOrd for Point {
    fn partial_cmp(&self, other: &Point) -> (r: Option<core::cmp::Ordering>) {
        if self.line.0 < other.line.0 {
            Some(core::cmp::Ordering::Less)
        } else if self.line.0 > other.line.0 {
            Some(core::cmp::Ordering::Greater)
        } else if self.column.0 < other.column.0 {
            Some(core::cmp::Ordering::Less)
        } else if self.column.0 > other.column.0 {
            Some(core::cmp::Ordering::Greater)
        } else {
            Some(core::cmp::Ordering::Equal)
        }
    }
}

impl vstd::std_specs::cmp::PartialOrdSpecImpl for Point {
    open spec fn obeys_partial_cmp_spec() -> bool {
        true
    }

    open spec fn partial_cmp_spec(&self, other: &Point) -> Option<core::cmp::Ordering> {
        if self.precedes(*other) {
            Some(core::cmp::Ordering::Less)
        } else if other.precedes(*self) {
            Some(core::cmp::Ordering::Greater)
        } else {
            Some(core::cmp::Ordering::Equal)
        }
    }
}

/// The cell that a pointer `column` cells and `row` rows into the grid is
/// over, as a position in the grid: a pointer past the last cell is over the
/// last one.
pub fn cell_in_grid(
    columns: usize,
    screen_lines: usize,
    display_offset: usize,
    row: i32,
    column: usize,
) -> (r: Point)
    requires
        row >= 0,
        screen_lines <= i32::MAX,
        display_offset <= i32::MAX,
    ensures
        r.line.0 == (if screen_lines == 0 {
            0
        } else if row < screen_lines {
            row as int
        } else {
            screen_lines - 1
        }) - display_offset,
        r.column.0 == (if columns == 0 {
            0
        } else if column < columns {
            column as int
        } else {
            columns - 1
        }),
{
    let last_row: i32 = if screen_lines == 0 {
        0
    } else {
        (screen_lines - 1) as i32
    };
    let last_column: usize = if columns == 0 {
        0
    } else {
        columns - 1
    };
    let line: i32 = if row < last_row {
        row
    } else {
        last_row
    };
    let col: usize = if column < last_column {
        column
    } else {
        last_column
    };
    Point::new(line - display_offset as i32, col)
}

/// The shape of a cursor.
#[derive(Clone, Copy, Debug, PartialEq, Eq, Structural)]
pub enum CursorShape {
    Vintage,
    Block,
    Underline,
    DoubleUnderline,
    Beam,
    HollowBlock,
    Hidden,
}

/// A colour with eight bits per channel.
#[derive(Clone, Copy, Debug, PartialEq, Eq, Structural)]
pub struct Rgb {
    pub r: u8,
    pub g: u8,
    pub b: u8,
}

impl Default for Rgb {
    fn default() -> (r: Rgb)
        ensures
            r == (Rgb { r: 0, g: 0, b: 0 }),
    {
        Rgb { r: 0, g: 0, b: 0 }
    }
}

/// A slot of the palette.
#[derive(Clone, Copy, Debug, PartialEq, Eq, Structural)]
pub enum NamedColor {
    Black,
    Red,
    Green,
    Yellow,
    Blue,
    Magenta,
    Cyan,
    White,
    BrightBlack,
    BrightRed,
    BrightGreen,
    BrightYellow,
    BrightBlue,
    BrightMagenta,
    BrightCyan,
    BrightWhite,
    Foreground,
    Background,
}

/// The colour of a cell.
#[derive(Clone, Copy, Debug, PartialEq, Eq, Structural)]
pub enum Color {
    Named(NamedColor),
    Spec(Rgb),
    Indexed(u8),
}

/// The attributes of a cell, as a set of flags.
#[derive(Clone, Copy, Debug, PartialEq, Eq, Structural)]
pub struct CellFlags(u16);

impl CellFlags {
    /// Foreground and background swapped.
    pub fn inverse() -> (r: CellFlags)
        ensures
            r.bits() == 1,
    {
        CellFlags(1)
    }

    /// Bold text.
    pub fn bold() -> (r: CellFlags)
        ensures
            r.bits() == 2,
    {
        CellFlags(2)
    }

    /// Italic text.
    pub fn italic() -> (r: CellFlags)
        ensures
            r.bits() == 4,
    {
        CellFlags(4)
    }

    /// Bold and italic: both flags at once.
    pub fn bold_italic() -> (r: CellFlags)
        ensures
            r.bits() == 6,
    {
        CellFlags(6)
    }

    /// A single underline.
    pub fn underline() -> (r: CellFlags)
        ensures
            r.bits() == 8,
    {
        CellFlags(8)
    }

    /// A double underline.
    pub fn double_underline() -> (r: CellFlags)
        ensures
            r.bits() == 16,
    {
        CellFlags(16)
    }

    /// A curly underline.
    pub fn undercurl() -> (r: CellFlags)
        ensures
            r.bits() == 32,
    {
        CellFlags(32)
    }

    /// A dotted underline.
    pub fn dotted_underline() -> (r: CellFlags)
        ensures
            r.bits() == 64,
    {
        CellFlags(64)
    }

    /// A dashed underline.
    pub fn dashed_underline() -> (r: CellFlags)
        ensures
            r.bits() == 128,
    {
        CellFlags(128)
    }

    /// Struck-out text.
    pub fn strikeout() -> (r: CellFlags)
        ensures
            r.bits() == 256,
    {
        CellFlags(256)
    }

    /// Dim text.
    pub fn dim() -> (r: CellFlags)
        ensures
            r.bits() == 512,
    {
        CellFlags(512)
    }

    /// The first cell of a wide character.
    pub fn wide_char() -> (r: CellFlags)
        ensures
            r.bits() == 1024,
    {
        CellFlags(1024)
    }

    /// The second cell of a wide character.
    pub fn wide_char_spacer() -> (r: CellFlags)
        ensures
            r.bits() == 2048,
    {
        CellFlags(2048)
    }

    /// The flags as the bits of a number.
    pub closed spec fn bits(self) -> u16 {
        self.0
    }

    /// None of the flags.
    pub fn empty() -> (r: CellFlags)
        ensures
            r.bits() == 0,
    {
        CellFlags(0)
    }

    /// Whether all flags of `other` are set here too.
    pub fn contains(self, other: CellFlags) -> (r: bool)
        ensures
            r == (self.bits() & other.bits() == other.bits()),
    {
        self.0 & other.0 == other.0
    }

    /// Sets all flags of `other` here too.
    pub fn insert(&mut self, other: CellFlags)
        ensures
            final(self).bits() == old(self).bits() | other.bits(),
    {
        self.0 = self.0 | other.0;
    }
}

impl Default for CellFlags {
    fn default() -> (r: CellFlags)
        ensures
            r.bits() == 0,
    {
        CellFlags(0)
    }
}

impl core::ops::BitOr for CellFlags {
    type Output = CellFlags;

    fn bitor(self, rhs: CellFlags) -> (r: CellFlags)
        ensures
            r.bits() == self.bits() | rhs.bits(),
    {
        CellFlags(self.0 | rhs.0)
    }
}

impl vstd::std_specs::ops::BitOrSpecImpl for CellFlags {
    open spec fn obeys_bitor_spec() -> bool {
        true
    }

    open spec fn bitor_req(self, rhs: CellFlags) -> bool {
        true
    }

    closed spec fn bitor_spec(self, rhs: CellFlags) -> CellFlags {
        CellFlags(self.0 | rhs.0)
    }
}

/// The private modes of a terminal, as a set.
#[derive(Clone, Copy, Debug, PartialEq, Eq, Structural)]
pub struct Modes(u16);

impl Modes {
    /// The alternate screen.
    pub fn alt_screen() -> (r: Modes)
        ensures
            r.bits() == 1,
    {
        Modes(1)
    }

    /// Application cursor keys.
    pub fn app_cursor() -> (r: Modes)
        ensures
            r.bits() == 2,
    {
        Modes(2)
    }

    /// Mouse reports in SGR encoding.
    pub fn sgr_mouse() -> (r: Modes)
        ensures
            r.bits() == 4,
    {
        Modes(4)
    }

    /// Mouse reports in UTF-8 encoding.
    pub fn utf8_mouse() -> (r: Modes)
        ensures
            r.bits() == 8,
    {
        Modes(8)
    }

    /// The application keypad.
    pub fn app_keypad() -> (r: Modes)
        ensures
            r.bits() == 16,
    {
        Modes(16)
    }

    /// Bracketed paste.
    pub fn bracketed_paste() -> (r: Modes)
        ensures
            r.bits() == 32,
    {
        Modes(32)
    }

    /// Focus reports.
    pub fn focus_in_out() -> (r: Modes)
        ensures
            r.bits() == 64,
    {
        Modes(64)
    }

    /// Scrolling as cursor keys on the alternate screen.
    pub fn alternate_scroll() -> (r: Modes)
        ensures
            r.bits() == 128,
    {
        Modes(128)
    }

    /// Mouse reports of clicks.
    pub fn mouse_report_click() -> (r: Modes)
        ensures
            r.bits() == 256,
    {
        Modes(256)
    }

    /// Mouse reports of drags.
    pub fn mouse_drag() -> (r: Modes)
        ensures
            r.bits() == 512,
    {
        Modes(512)
    }

    /// Mouse reports of all motion.
    pub fn mouse_motion() -> (r: Modes)
        ensures
            r.bits() == 1024,
    {
        Modes(1024)
    }

    /// The Kitty keyboard protocol.
    pub fn kitty_keyboard() -> (r: Modes)
        ensures
            r.bits() == 2048,
    {
        Modes(2048)
    }

    /// Any of the mouse reports.
    pub fn mouse_mode() -> (r: Modes)
        ensures
            r.bits() == 1792,
    {
        Modes(1792)
    }

    /// The modes as the bits of a number.
    pub closed spec fn bits(self) -> u16 {
        self.0
    }

    /// None of the modes.
    pub fn empty() -> (r: Modes)
        ensures
            r.bits() == 0,
    {
        Modes(0)
    }

    /// Whether all modes of `other` are set here too.
    pub fn contains(self, other: Modes) -> (r: bool)
        ensures
            r == (self.bits() & other.bits() == other.bits()),
    {
        self.0 & other.0 == other.0
    }

    /// Whether some mode of `other` is set here.
    pub fn intersects(self, other: Modes) -> (r: bool)
        ensures
            r == (self.bits() & other.bits() != 0),
    {
        self.0 & other.0 != 0
    }
}

impl Default for Modes {
    fn default() -> (r: Modes)
        ensures
            r.bits() == 0,
    {
        Modes(0)
    }
}

impl core::ops::BitOr for Modes {
    type Output = Modes;

    fn bitor(self, rhs: Modes) -> (r: Modes)
        ensures
            r.bits() == self.bits() | rhs.bits(),
    {
        Modes(self.0 | rhs.0)
    }
}

impl vstd::std_specs::ops::BitOrSpecImpl for Modes {
    open spec fn obeys_bitor_spec() -> bool {
        true
    }

    open spec fn bitor_req(self, rhs: Modes) -> bool {
        true
    }

    closed spec fn bitor_spec(self, rhs: Modes) -> Modes {
        Modes(self.0 | rhs.0)
    }
}

/// A union holds what went into it, and flags hold a union if and only if they
/// hold both parts.
pub proof fn unions_hold_their_parts(a: CellFlags, b: CellFlags, c: CellFlags)
    ensures
        (a.bits() | b.bits()) & a.bits() == a.bits(),
        (a.bits() | b.bits()) & b.bits() == b.bits(),
        c.bits() & (a.bits() | b.bits()) == a.bits() | b.bits() <==> c.bits() & a.bits() == a.bits()
            && c.bits() & b.bits() == b.bits(),
{
    let (x, y, z) = (a.bits(), b.bits(), c.bits());
    assert((x | y) & x == x) by (bit_vector);
    assert((x | y) & y == y) by (bit_vector);
    assert(z & (x | y) == x | y <==> z & x == x && z & y == y) by (bit_vector);
}

/// Holding is reflexive, transitive and antisymmetric, and all flags hold the
/// empty ones.
pub proof fn holding_is_an_order(a: CellFlags, b: CellFlags, c: CellFlags)
    ensures
        a.bits() & a.bits() == a.bits(),
        a.bits() & 0 == 0,
        a.bits() & b.bits() == b.bits() && b.bits() & c.bits() == c.bits() ==> a.bits() & c.bits()
            == c.bits(),
        a.bits() & b.bits() == b.bits() && b.bits() & a.bits() == a.bits() ==> a.bits()
            == b.bits(),
{
    let (x, y, z) = (a.bits(), b.bits(), c.bits());
    assert(x & x == x) by (bit_vector);
    assert(x & 0 == 0) by (bit_vector);
    assert(x & y == y && y & z == z ==> x & z == z) by (bit_vector);
    assert(x & y == y && y & x == x ==> x == y) by (bit_vector);
}

/// The flags for bold and italic together are held if and only if both are.
pub proof fn bold_italic_means_both(flags: CellFlags)
    ensures
        flags.bits() & 6 == 6 <==> flags.bits() & 2 == 2 && flags.bits() & 4 == 4,
{
    let x = flags.bits();
    assert(x & 6 == 6 <==> x & 2 == 2 && x & 4 == 4) by (bit_vector);
}

/// The mode for any mouse report is met if and only if one of the three
/// reports is on.
pub proof fn mouse_mode_means_any_report(modes: Modes)
    ensures
        modes.bits() & 1792 != 0 <==> modes.bits() & 256 == 256 || modes.bits() & 512 == 512
            || modes.bits() & 1024 == 1024,
{
    let x = modes.bits();
    assert(x & 1792 != 0 <==> x & 256 == 256 || x & 512 == 512 || x & 1024 == 1024) by (bit_vector);
}

/// The span of a selection, in grid positions.
#[derive(Clone, Copy, Debug, PartialEq, Eq, Structural)]
pub struct SelectionRange {
    pub start: Point,
    pub end: Point,
    /// Whether the selection is a rectangle.
    pub is_block: bool,
}

/// How far a selection reaches.
#[derive(Clone, Copy, Debug, PartialEq, Eq, Structural)]
pub enum SelectionKind {
    Simple,
    Semantic,
    Lines,
}

/// The grid and the viewport, as of one moment.
#[derive(Clone, Copy, Debug, PartialEq, Eq, Structural)]
pub struct GridMetrics {
    pub columns: usize,
    pub screen_lines: usize,
    pub display_offset: usize,
    pub topmost_line: Line,
    pub bottommost_line: Line,
    pub cursor: Point,
}

/// A logical line of the terminal, for the detection of links.
pub struct GridLineText {
    pub line: Line,
    pub text: String,
    pub char_to_column: Vec<usize>,
}

/// A cell of the grid.
#[derive(Clone, Debug)]
pub struct Cell {
    /// In lines of the viewport.
    pub point: Point,
    pub c: char,
    pub fg: Color,
    pub bg: Color,
    pub flags: CellFlags,
    pub zerowidth: Option<Vec<char>>,
    /// Whether the cell is part of an explicit hyperlink.
    pub hyperlink: bool,
}

/// The cursor of the grid, before focus and theme change it.
#[derive(Clone, Copy, Debug)]
pub struct RenderableCursor {
    /// In lines of the grid.
    pub point: Point,
    pub shape: CursorShape,
    pub fg: Color,
    pub bg: Color,
    pub flags: CellFlags,
    /// Whether the cell under the cursor holds a wide character.
    pub wide: bool,
    /// The character under the cursor.
    pub text: char,
    pub bold: bool,
    pub italic: bool,
}

/// What there is to render of a terminal, as of one moment.
#[derive(Clone, Debug)]
pub struct Content {
    pub cols: usize,
    pub rows: usize,
    pub cells: Arc<[Cell]>,
    pub cursor: RenderableCursor,
    pub selection: Option<SelectionRange>,
    pub display_offset: usize,
    pub history_size: usize,
}

/// A search match to be highlighted.
pub struct SearchHighlight {
    pub start: Point,
    pub end: Point,
    pub is_active: bool,
}

/// Where a hyperlink comes from.
#[derive(Clone, Copy, Debug, PartialEq, Eq, Structural)]
pub enum HyperlinkSource {
    /// The program marked it.
    Osc8,
    /// It was found in the output.
    Regex,
    /// The path of a Markdown file.
    FilePath,
    /// The path of a source file, maybe with a line and a column.
    CodePath,
}

/// A hyperlink and the cells that it spans.
#[derive(Clone)]
pub struct HyperlinkZone {
    pub uri: String,
    pub id: String,
    pub start: Point,
    pub end: Point,
    /// Whether links of this scheme may be opened.
    pub is_openable: bool,
    pub source: HyperlinkSource,
    /// The line that a source path points at, from one on.
    pub line: Option<u32>,
    /// The column that a source path points at, from one on.
    pub col: Option<u32>,
}

/// The cursor of the copy mode.
pub struct CopyModeCursorState {
    /// The grid line of the cursor.
    pub grid_line: i32,
    pub col: usize,
    /// The grid line that the selection began at, while there is one.
    pub anchor_grid_line: Option<i32>,
    pub anchor_col: usize,
}

/// Places are ordered as text is read: by line, and in a line by column. Of two places
/// one comes first or they are the same.
pub proof fn places_are_in_reading_order(a: Point, b: Point, c: Point)
    ensures
        a.line.0 < b.line.0 ==> a.precedes(b),
        a.line.0 == b.line.0 ==> (a.precedes(b) <==> a.column.0 < b.column.0),
        a.precedes(b) ==> !b.precedes(a),
        a.precedes(b) && b.precedes(c) ==> a.precedes(c),
        a.precedes(b) || b.precedes(a) || a == b,
{
}

/// A shell is known by what follows the last slash of its path, whether that is in
/// capitals or not.
pub proof fn shells_are_known_by_name(dir: Seq<char>, name: Seq<char>)
    requires
        forall|i: int| 0 <= i < name.len() ==> name[i] != '/',
    ensures
        shell_basename(dir + seq!['/'] + name) == shell_basename(name),
        shell_basename(name).len() == name.len(),
        forall|i: int|
            0 <= i < name.len() ==> #[trigger] shell_basename(name)[i] == (if 'A' <= name[i]
                <= 'Z' {
                (name[i] as u32 + 32) as char
            } else {
                name[i]
            }),
{
    split::the_last_piece_is_kept(dir, name, '/');
}

/// The shells that read commands as the standard shell does.
pub proof fn posix_shells_are_the_eight(name: Seq<char>)
    ensures
        posix_name("sh"@) && posix_name("bash"@) && posix_name("zsh"@) && posix_name("fish"@),
        posix_name("dash"@) && posix_name("ksh"@) && posix_name("ash"@) && posix_name("mksh"@),
        !posix_name("pwsh"@) && !posix_name("powershell"@) && !posix_name("cmd"@),
        posix_name(name) ==> 2 <= name.len() <= 4 && name.last() == 'h',
{
    reveal_strlit("sh");
    reveal_strlit("bash");
    reveal_strlit("zsh");
    reveal_strlit("fish");
    reveal_strlit("dash");
    reveal_strlit("ksh");
    reveal_strlit("ash");
    reveal_strlit("mksh");
    reveal_strlit("pwsh");
    reveal_strlit("powershell");
    reveal_strlit("cmd");
    assert("powershell"@.len() == 10);
    assert("pwsh"@.len() == 4 && "pwsh"@[0] == 'p');
    assert("sh"@.len() == 2 && "zsh"@.len() == 3 && "ksh"@.len() == 3 && "ash"@.len() == 3);
    assert("bash"@.len() == 4 && "fish"@.len() == 4 && "dash"@.len() == 4 && "mksh"@.len() == 4);
    assert("bash"@[0] == 'b' && "fish"@[0] == 'f' && "dash"@[0] == 'd' && "mksh"@[0] == 'm');
    assert("cmd"@.len() == 3 && "cmd"@[0] == 'c' && "zsh"@[0] == 'z' && "ksh"@[0] == 'k'
        && "ash"@[0] == 'a');
}

} // verus!
