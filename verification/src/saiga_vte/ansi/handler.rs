use vstd::prelude::*;
use vstd::string::StringSliceAdditionalSpecFns;
use vstd::utf8::{encode_utf8, is_ascii_chars, is_ascii_chars_encode_utf8};

use super::executor::HandlerCallV;

verus! {

/// Terminal character attributes.
#[derive(Debug, Clone, Copy, PartialEq, Eq, Structural)]
pub enum Attribute {
    /// Clear all special abilities.
    Reset,
    /// Bold text.
    Bold,
    /// Dim or secondary color.
    Dim,
    /// Italic text.
    Italic,
    /// Underline text.
    Underline,
    /// Underlined twice.
    DoubleUnderline,
    /// Undercurled text.
    Undercurl,
    /// Dotted underlined text.
    DottedUnderline,
    /// Dashed underlined text.
    DashedUnderline,
    /// Blink cursor slowly.
    BlinkSlow,
    /// Blink cursor fast.
    BlinkFast,
    /// Invert colors.
    Reverse,
    /// Do not display characters.
    Hidden,
    /// Strikeout text.
    Strike,
    /// Cancel bold.
    CancelBold,
    /// Cancel bold and dim.
    CancelBoldDim,
    /// Cancel italic.
    CancelItalic,
    /// Cancel all underlines.
    CancelUnderline,
    /// Cancel blink.
    CancelBlink,
    /// Cancel inversion.
    CancelReverse,
    /// Cancel text hiding.
    CancelHidden,
    /// Cancel strikeout.
    CancelStrike,
    /// Set indexed foreground color.
    Foreground(Color),
    /// Set indexed background color.
    Background(Color),
    /// Underline color.
    UnderlineColor(Option<Color>),
}

/// Wrapper for the ANSI modes.
#[derive(Debug, Clone, Copy, Eq, PartialEq, Structural)]
pub enum Mode {
    /// Known ANSI mode.
    Named(NamedMode),
    /// Unidentified public mode.
    Unknown(u16),
}

/// The mode that the raw number `mode` selects.
pub open spec fn spec_mode_new(mode: u16) -> Mode {
    if mode == 4 {
        Mode::Named(NamedMode::Insert)
    } else if mode == 20 {
        Mode::Named(NamedMode::LineFeedNewLine)
    } else {
        Mode::Unknown(mode)
    }
}

/// The raw number of a mode.
pub open spec fn spec_mode_raw(mode: Mode) -> u16 {
    match mode {
        Mode::Named(named) => named.spec_value(),
        Mode::Unknown(m) => m,
    }
}

impl Mode {
    pub fn new(mode: u16) -> (r: Self)
        ensures
            r == spec_mode_new(mode),
    {
        if mode == 4 {
            Mode::Named(NamedMode::Insert)
        } else if mode == 20 {
            Mode::Named(NamedMode::LineFeedNewLine)
        } else {
            Mode::Unknown(mode)
        }
    }

    /// Get the raw value of the mode.
    pub fn raw(self) -> (r: u16)
        ensures
            r == spec_mode_raw(self),
    {
        match self {
            Mode::Named(named) => named.value(),
            Mode::Unknown(mode) => mode,
        }
    }

    /// The mode for a named mode.
    pub fn from_named(mode: NamedMode) -> (r: Self)
        ensures
            r == Mode::Named(mode),
    {
        Mode::Named(mode)
    }
}

/// Reading a raw mode number and writing it back gives the same number.
pub proof fn lemma_mode_raw_new(mode: u16)
    ensures
        spec_mode_raw(spec_mode_new(mode)) == mode,
{
}

/// ANSI modes.
#[derive(Debug, Clone, Copy, Eq, PartialEq, Structural)]
pub enum NamedMode {
    /// IRM insert mode (4).
    Insert,
    /// LNM line feed / new line mode (20).
    LineFeedNewLine,
}

impl NamedMode {
    pub open spec fn spec_value(self) -> u16 {
        match self {
            NamedMode::Insert => 4,
            NamedMode::LineFeedNewLine => 20,
        }
    }

    /// The mode's number.
    pub fn value(self) -> (r: u16)
        ensures
            r == self.spec_value(),
    {
        match self {
            NamedMode::Insert => 4,
            NamedMode::LineFeedNewLine => 20,
        }
    }
}

/// Wrapper for the private DEC modes.
#[derive(Debug, Clone, Copy, Eq, PartialEq, Structural)]
pub enum PrivateMode {
    /// Known private mode.
    Named(NamedPrivateMode),
    /// Unknown private mode.
    Unknown(u16),
}

/// The private mode that the raw number `mode` selects.
pub open spec fn spec_private_mode_new(mode: u16) -> PrivateMode {
    if mode == 1 {
        PrivateMode::Named(NamedPrivateMode::CursorKeys)
    } else if mode == 3 {
        PrivateMode::Named(NamedPrivateMode::ColumnMode)
    } else if mode == 6 {
        PrivateMode::Named(NamedPrivateMode::Origin)
    } else if mode == 7 {
        PrivateMode::Named(NamedPrivateMode::LineWrap)
    } else if mode == 12 {
        PrivateMode::Named(NamedPrivateMode::BlinkingCursor)
    } else if mode == 25 {
        PrivateMode::Named(NamedPrivateMode::ShowCursor)
    } else if mode == 1000 {
        PrivateMode::Named(NamedPrivateMode::ReportMouseClicks)
    } else if mode == 1002 {
        PrivateMode::Named(NamedPrivateMode::ReportCellMouseMotion)
    } else if mode == 1003 {
        PrivateMode::Named(NamedPrivateMode::ReportAllMouseMotion)
    } else if mode == 1004 {
        PrivateMode::Named(NamedPrivateMode::ReportFocusInOut)
    } else if mode == 1005 {
        PrivateMode::Named(NamedPrivateMode::Utf8Mouse)
    } else if mode == 1006 {
        PrivateMode::Named(NamedPrivateMode::SgrMouse)
    } else if mode == 1007 {
        PrivateMode::Named(NamedPrivateMode::AlternateScroll)
    } else if mode == 1042 {
        PrivateMode::Named(NamedPrivateMode::UrgencyHints)
    } else if mode == 1049 {
        PrivateMode::Named(NamedPrivateMode::SwapScreenAndSetRestoreCursor)
    } else if mode == 2004 {
        PrivateMode::Named(NamedPrivateMode::BracketedPaste)
    } else if mode == 2026 {
        PrivateMode::Named(NamedPrivateMode::SyncUpdate)
    } else {
        PrivateMode::Unknown(mode)
    }
}

/// The raw number of a private mode.
pub open spec fn spec_private_mode_raw(mode: PrivateMode) -> u16 {
    match mode {
        PrivateMode::Named(named) => named.spec_value(),
        PrivateMode::Unknown(m) => m,
    }
}

impl PrivateMode {
    pub fn new(mode: u16) -> (r: Self)
        ensures
            r == spec_private_mode_new(mode),
    {
        if mode == 1 {
            PrivateMode::Named(NamedPrivateMode::CursorKeys)
        } else if mode == 3 {
            PrivateMode::Named(NamedPrivateMode::ColumnMode)
        } else if mode == 6 {
            PrivateMode::Named(NamedPrivateMode::Origin)
        } else if mode == 7 {
            PrivateMode::Named(NamedPrivateMode::LineWrap)
        } else if mode == 12 {
            PrivateMode::Named(NamedPrivateMode::BlinkingCursor)
        } else if mode == 25 {
            PrivateMode::Named(NamedPrivateMode::ShowCursor)
        } else if mode == 1000 {
            PrivateMode::Named(NamedPrivateMode::ReportMouseClicks)
        } else if mode == 1002 {
            PrivateMode::Named(NamedPrivateMode::ReportCellMouseMotion)
        } else if mode == 1003 {
            PrivateMode::Named(NamedPrivateMode::ReportAllMouseMotion)
        } else if mode == 1004 {
            PrivateMode::Named(NamedPrivateMode::ReportFocusInOut)
        } else if mode == 1005 {
            PrivateMode::Named(NamedPrivateMode::Utf8Mouse)
        } else if mode == 1006 {
            PrivateMode::Named(NamedPrivateMode::SgrMouse)
        } else if mode == 1007 {
            PrivateMode::Named(NamedPrivateMode::AlternateScroll)
        } else if mode == 1042 {
            PrivateMode::Named(NamedPrivateMode::UrgencyHints)
        } else if mode == 1049 {
            PrivateMode::Named(NamedPrivateMode::SwapScreenAndSetRestoreCursor)
        } else if mode == 2004 {
            PrivateMode::Named(NamedPrivateMode::BracketedPaste)
        } else if mode == 2026 {
            PrivateMode::Named(NamedPrivateMode::SyncUpdate)
        } else {
            PrivateMode::Unknown(mode)
        }
    }

    /// Get the raw value of the mode.
    pub fn raw(self) -> (r: u16)
        ensures
            r == spec_private_mode_raw(self),
    {
        match self {
            PrivateMode::Named(named) => named.value(),
            PrivateMode::Unknown(mode) => mode,
        }
    }

    /// The private mode for a named private mode.
    pub fn from_named(mode: NamedPrivateMode) -> (r: Self)
        ensures
            r == PrivateMode::Named(mode),
    {
        PrivateMode::Named(mode)
    }
}

/// Reading a raw private mode number and writing it back gives the same number.
pub proof fn lemma_private_mode_raw_new(mode: u16)
    ensures
        spec_private_mode_raw(spec_private_mode_new(mode)) == mode,
{
}

/// A named private mode is what its own number reads as.
pub proof fn lemma_private_mode_new_raw(mode: NamedPrivateMode)
    ensures
        spec_private_mode_new(mode.spec_value()) == PrivateMode::Named(mode),
{
}

/// A named mode is what its own number reads as.
pub proof fn lemma_mode_new_raw(mode: NamedMode)
    ensures
        spec_mode_new(mode.spec_value()) == Mode::Named(mode),
{
}

/// Private DEC modes.
#[derive(Debug, Clone, Copy, Eq, PartialEq, Structural)]
pub enum NamedPrivateMode {
    CursorKeys,
    /// Select 80 or 132 columns per page (DECCOLM).
    ColumnMode,
    Origin,
    LineWrap,
    BlinkingCursor,
    ShowCursor,
    ReportMouseClicks,
    ReportCellMouseMotion,
    ReportAllMouseMotion,
    ReportFocusInOut,
    Utf8Mouse,
    SgrMouse,
    AlternateScroll,
    UrgencyHints,
    SwapScreenAndSetRestoreCursor,
    BracketedPaste,
    /// Synchronized updates; handled by the processor itself.
    SyncUpdate,
}

impl NamedPrivateMode {
    pub open spec fn spec_value(self) -> u16 {
        match self {
            NamedPrivateMode::CursorKeys => 1,
            NamedPrivateMode::ColumnMode => 3,
            NamedPrivateMode::Origin => 6,
            NamedPrivateMode::LineWrap => 7,
            NamedPrivateMode::BlinkingCursor => 12,
            NamedPrivateMode::ShowCursor => 25,
            NamedPrivateMode::ReportMouseClicks => 1000,
            NamedPrivateMode::ReportCellMouseMotion => 1002,
            NamedPrivateMode::ReportAllMouseMotion => 1003,
            NamedPrivateMode::ReportFocusInOut => 1004,
            NamedPrivateMode::Utf8Mouse => 1005,
            NamedPrivateMode::SgrMouse => 1006,
            NamedPrivateMode::AlternateScroll => 1007,
            NamedPrivateMode::UrgencyHints => 1042,
            NamedPrivateMode::SwapScreenAndSetRestoreCursor => 1049,
            NamedPrivateMode::BracketedPaste => 2004,
            NamedPrivateMode::SyncUpdate => 2026,
        }
    }

    /// The mode's number.
    pub fn value(self) -> (r: u16)
        ensures
            r == self.spec_value(),
    {
        match self {
            NamedPrivateMode::CursorKeys => 1,
            NamedPrivateMode::ColumnMode => 3,
            NamedPrivateMode::Origin => 6,
            NamedPrivateMode::LineWrap => 7,
            NamedPrivateMode::BlinkingCursor => 12,
            NamedPrivateMode::ShowCursor => 25,
            NamedPrivateMode::ReportMouseClicks => 1000,
            NamedPrivateMode::ReportCellMouseMotion => 1002,
            NamedPrivateMode::ReportAllMouseMotion => 1003,
            NamedPrivateMode::ReportFocusInOut => 1004,
            NamedPrivateMode::Utf8Mouse => 1005,
            NamedPrivateMode::SgrMouse => 1006,
            NamedPrivateMode::AlternateScroll => 1007,
            NamedPrivateMode::UrgencyHints => 1042,
            NamedPrivateMode::SwapScreenAndSetRestoreCursor => 1049,
            NamedPrivateMode::BracketedPaste => 2004,
            NamedPrivateMode::SyncUpdate => 2026,
        }
    }
}

#[derive(Debug, Clone, Copy, PartialEq, Eq, Structural)]
pub enum Color {
    Named(NamedColor),
    Spec(Rgb),
    Indexed(u8),
}

/// A set of kitty keyboard protocol modes, as bits.
#[derive(Debug, Clone, Copy, PartialEq, Eq, Structural)]
pub struct KeyboardModes {
    pub bits: u8,
}

impl KeyboardModes {
    /// No keyboard protocol mode is set.
    pub fn no_mode() -> (r: KeyboardModes)
        ensures
            r.bits == 0,
    {
        KeyboardModes { bits: 0 }
    }

    /// The modes whose bits are set in `bits`.
    pub fn from_bits(bits: u8) -> (r: KeyboardModes)
        ensures
            r.bits == bits,
    {
        KeyboardModes { bits }
    }
}

/// XTMODKEYS modifyOtherKeys state.
#[derive(Debug, Clone, Copy, PartialEq, Eq, Structural)]
pub enum ModifyOtherKeys {
    /// Reset the state.
    Reset,
    /// Enables this feature except for keys with well-known behavior.
    EnableExceptWellDefined,
    /// Enables this feature for all keys.
    EnableAll,
}

/// Describes how new keyboard modes should be applied.
#[derive(Clone, Copy, PartialEq, Eq, Structural)]
pub enum KeyboardModesApplyBehavior {
    /// Replace the active flags with the new ones.
    Replace,
    /// Merge the given flags with currently active ones.
    Union,
    /// Remove the given flags from the active ones.
    Difference,
}

/// Terminal cursor configuration.
#[derive(Debug, Eq, PartialEq, Copy, Clone, Structural)]
pub struct CursorStyle {
    pub shape: CursorShape,
    pub blinking: bool,
}

/// Terminal cursor shape.
#[derive(Debug, Eq, PartialEq, Copy, Clone, Structural)]
pub enum CursorShape {
    /// Cursor is a block.
    Block,
    /// Cursor is an underscore.
    Underline,
    /// Cursor is a vertical bar.
    Beam,
    /// Cursor is a hollow box.
    HollowBlock,
    /// Invisible cursor.
    Hidden,
}

/// Identifiers which can be assigned to a graphic character set.
#[derive(Clone, Copy, Debug, Eq, PartialEq, Structural)]
pub enum CharsetIndex {
    /// Default set, is designated as ASCII at startup.
    G0,
    G1,
    G2,
    G3,
}

/// The charset slot that an intermediate byte of a designation names.
pub open spec fn spec_charset_index_from_byte(value: u8) -> Option<CharsetIndex> {
    if value == 0x28 {
        Some(CharsetIndex::G0)
    } else if value == 0x29 {
        Some(CharsetIndex::G1)
    } else if value == 0x2A {
        Some(CharsetIndex::G2)
    } else if value == 0x2B {
        Some(CharsetIndex::G3)
    } else {
        None
    }
}

impl CharsetIndex {
    /// `(`, `)`, `*` and `+` name G0 to G3; other bytes name none.
    pub fn try_from_byte(value: u8) -> (r: Option<CharsetIndex>)
        ensures
            r == spec_charset_index_from_byte(value),
    {
        if value == 0x28 {
            Some(CharsetIndex::G0)
        } else if value == 0x29 {
            Some(CharsetIndex::G1)
        } else if value == 0x2A {
            Some(CharsetIndex::G2)
        } else if value == 0x2B {
            Some(CharsetIndex::G3)
        } else {
            None
        }
    }

    /// The slot's position, 0 to 3.
    pub fn position(self) -> (r: usize)
        ensures
            r < 4,
            r == self.spec_position(),
    {
        match self {
            CharsetIndex::G0 => 0,
            CharsetIndex::G1 => 1,
            CharsetIndex::G2 => 2,
            CharsetIndex::G3 => 3,
        }
    }

    pub open spec fn spec_position(self) -> usize {
        match self {
            CharsetIndex::G0 => 0,
            CharsetIndex::G1 => 1,
            CharsetIndex::G2 => 2,
            CharsetIndex::G3 => 3,
        }
    }
}

/// Standard or common character sets which can be designated as G0-G3.
#[derive(Clone, Copy, Debug, Eq, PartialEq, Structural)]
pub enum Charset {
    Ascii,
    SpecialCharacterAndLineDrawing,
}

/// The DEC special graphics mapping of `c` (the character itself where it
/// has no graphic).
pub open spec fn spec_line_drawing(c: char) -> char {
    if c == '_' {
        ' '
    } else if c == '`' {
        '\u{25c6}'
    } else if c == 'a' {
        '\u{2592}'
    } else if c == 'b' {
        '\u{2409}'
    } else if c == 'c' {
        '\u{240c}'
    } else if c == 'd' {
        '\u{240d}'
    } else if c == 'e' {
        '\u{240a}'
    } else if c == 'f' {
        '\u{b0}'
    } else if c == 'g' {
        '\u{b1}'
    } else if c == 'h' {
        '\u{2424}'
    } else if c == 'i' {
        '\u{240b}'
    } else if c == 'j' {
        '\u{2518}'
    } else if c == 'k' {
        '\u{2510}'
    } else if c == 'l' {
        '\u{250c}'
    } else if c == 'm' {
        '\u{2514}'
    } else if c == 'n' {
        '\u{253c}'
    } else if c == 'o' {
        '\u{23ba}'
    } else if c == 'p' {
        '\u{23bb}'
    } else if c == 'q' {
        '\u{2500}'
    } else if c == 'r' {
        '\u{23bc}'
    } else if c == 's' {
        '\u{23bd}'
    } else if c == 't' {
        '\u{251c}'
    } else if c == 'u' {
        '\u{2524}'
    } else if c == 'v' {
        '\u{2534}'
    } else if c == 'w' {
        '\u{252c}'
    } else if c == 'x' {
        '\u{2502}'
    } else if c == 'y' {
        '\u{2264}'
    } else if c == 'z' {
        '\u{2265}'
    } else if c == '{' {
        '\u{3c0}'
    } else if c == '|' {
        '\u{2260}'
    } else if c == '}' {
        '\u{a3}'
    } else if c == '~' {
        '\u{b7}'
    } else {
        c
    }
}

pub open spec fn spec_charset_map(charset: Charset, c: char) -> char {
    match charset {
        Charset::Ascii => c,
        Charset::SpecialCharacterAndLineDrawing => spec_line_drawing(c),
    }
}

impl Charset {
    /// Maps a character to the charset.
    pub fn map(self, c: char) -> (r: char)
        ensures
            r == spec_charset_map(self, c),
    {
        match self {
            Charset::Ascii => c,
            Charset::SpecialCharacterAndLineDrawing => {
                if c == '_' {
                    ' '
                } else if c == '`' {
                    '\u{25c6}'
                } else if c == 'a' {
                    '\u{2592}'
                } else if c == 'b' {
                    '\u{2409}'
                } else if c == 'c' {
                    '\u{240c}'
                } else if c == 'd' {
                    '\u{240d}'
                } else if c == 'e' {
                    '\u{240a}'
                } else if c == 'f' {
                    '\u{b0}'
                } else if c == 'g' {
                    '\u{b1}'
                } else if c == 'h' {
                    '\u{2424}'
                } else if c == 'i' {
                    '\u{240b}'
                } else if c == 'j' {
                    '\u{2518}'
                } else if c == 'k' {
                    '\u{2510}'
                } else if c == 'l' {
                    '\u{250c}'
                } else if c == 'm' {
                    '\u{2514}'
                } else if c == 'n' {
                    '\u{253c}'
                } else if c == 'o' {
                    '\u{23ba}'
                } else if c == 'p' {
                    '\u{23bb}'
                } else if c == 'q' {
                    '\u{2500}'
                } else if c == 'r' {
                    '\u{23bc}'
                } else if c == 's' {
                    '\u{23bd}'
                } else if c == 't' {
                    '\u{251c}'
                } else if c == 'u' {
                    '\u{2524}'
                } else if c == 'v' {
                    '\u{2534}'
                } else if c == 'w' {
                    '\u{252c}'
                } else if c == 'x' {
                    '\u{2502}'
                } else if c == 'y' {
                    '\u{2264}'
                } else if c == 'z' {
                    '\u{2265}'
                } else if c == '{' {
                    '\u{3c0}'
                } else if c == '|' {
                    '\u{2260}'
                } else if c == '}' {
                    '\u{a3}'
                } else if c == '~' {
                    '\u{b7}'
                } else {
                    c
                }
            },
        }
    }
}

/// The line-drawing set changes only the 32 characters from `_` to `~`;
/// the ASCII set changes nothing.
pub proof fn lemma_charset_map_changes_only_graphics(charset: Charset, c: char)
    ensures
        (c < '_' || c > '~') ==> spec_charset_map(charset, c) == c,
        charset == Charset::Ascii ==> spec_charset_map(charset, c) == c,
{
}

/// A hyperlink.
#[derive(Debug, Clone, PartialEq, Eq)]
pub struct Hyperlink {
    /// Identifier for the given hyperlink.
    pub id: Option<String>,
    /// Resource identifier of the hyperlink.
    pub uri: String,
}

/// Mode for clearing tab stops.
#[derive(Debug, Clone, Copy, PartialEq, Eq, Structural)]
pub enum TabulationClearMode {
    /// Clear stop under cursor.
    Current,
    /// Clear all stops.
    All,
}

/// Mode for clearing terminal, relative to cursor.
#[derive(Debug, Clone, Copy, PartialEq, Eq, Structural)]
pub enum ScreenClearMode {
    /// Clear below cursor.
    Below,
    /// Clear above cursor.
    Above,
    /// Clear entire terminal.
    All,
    /// Clear 'saved' lines (scrollback).
    Saved,
}

/// Mode for clearing line, relative to cursor.
#[derive(Debug, Clone, Copy, Eq, PartialEq, Structural)]
pub enum LineClearMode {
    /// Clear right of cursor.
    Right,
    /// Clear left of cursor.
    Left,
    /// Clear entire line.
    All,
}

/// Standard colors. Each has an index into a color list (see `index`).
#[derive(Debug, Copy, Clone, Eq, PartialEq, Structural)]
pub enum NamedColor {
    Black,
    Red,
    Green,
    Yellow,
    Blue,
    Magenta,
    Cyan,
    White,
    BrightBlack,
    BrightRed,
    BrightGreen,
    BrightYellow,
    BrightBlue,
    BrightMagenta,
    BrightCyan,
    BrightWhite,
    /// The foreground color (index 256).
    Foreground,
    /// The background color.
    Background,
    /// Color for the cursor itself.
    Cursor,
    DimBlack,
    DimRed,
    DimGreen,
    DimYellow,
    DimBlue,
    DimMagenta,
    DimCyan,
    DimWhite,
    /// The bright foreground color.
    BrightForeground,
    /// Dim foreground.
    DimForeground,
}

/// The index of a named color in a color list.
pub open spec fn spec_named_color_index(c: NamedColor) -> usize {
    match c {
        NamedColor::Black => 0,
        NamedColor::Red => 1,
        NamedColor::Green => 2,
        NamedColor::Yellow => 3,
        NamedColor::Blue => 4,
        NamedColor::Magenta => 5,
        NamedColor::Cyan => 6,
        NamedColor::White => 7,
        NamedColor::BrightBlack => 8,
        NamedColor::BrightRed => 9,
        NamedColor::BrightGreen => 10,
        NamedColor::BrightYellow => 11,
        NamedColor::BrightBlue => 12,
        NamedColor::BrightMagenta => 13,
        NamedColor::BrightCyan => 14,
        NamedColor::BrightWhite => 15,
        NamedColor::Foreground => 256,
        NamedColor::Background => 257,
        NamedColor::Cursor => 258,
        NamedColor::DimBlack => 259,
        NamedColor::DimRed => 260,
        NamedColor::DimGreen => 261,
        NamedColor::DimYellow => 262,
        NamedColor::DimBlue => 263,
        NamedColor::DimMagenta => 264,
        NamedColor::DimCyan => 265,
        NamedColor::DimWhite => 266,
        NamedColor::BrightForeground => 267,
        NamedColor::DimForeground => 268,
    }
}

pub open spec fn spec_to_bright(c: NamedColor) -> NamedColor {
    match c {
        NamedColor::Foreground => NamedColor::BrightForeground,
        NamedColor::Black => NamedColor::BrightBlack,
        NamedColor::Red => NamedColor::BrightRed,
        NamedColor::Green => NamedColor::BrightGreen,
        NamedColor::Yellow => NamedColor::BrightYellow,
        NamedColor::Blue => NamedColor::BrightBlue,
        NamedColor::Magenta => NamedColor::BrightMagenta,
        NamedColor::Cyan => NamedColor::BrightCyan,
        NamedColor::White => NamedColor::BrightWhite,
        NamedColor::DimForeground => NamedColor::Foreground,
        NamedColor::DimBlack => NamedColor::Black,
        NamedColor::DimRed => NamedColor::Red,
        NamedColor::DimGreen => NamedColor::Green,
        NamedColor::DimYellow => NamedColor::Yellow,
        NamedColor::DimBlue => NamedColor::Blue,
        NamedColor::DimMagenta => NamedColor::Magenta,
        NamedColor::DimCyan => NamedColor::Cyan,
        NamedColor::DimWhite => NamedColor::White,
        val => val,
    }
}

pub open spec fn spec_to_dim(c: NamedColor) -> NamedColor {
    match c {
        NamedColor::Black => NamedColor::DimBlack,
        NamedColor::Red => NamedColor::DimRed,
        NamedColor::Green => NamedColor::DimGreen,
        NamedColor::Yellow => NamedColor::DimYellow,
        NamedColor::Blue => NamedColor::DimBlue,
        NamedColor::Magenta => NamedColor::DimMagenta,
        NamedColor::Cyan => NamedColor::DimCyan,
        NamedColor::White => NamedColor::DimWhite,
        NamedColor::Foreground => NamedColor::DimForeground,
        NamedColor::BrightBlack => NamedColor::Black,
        NamedColor::BrightRed => NamedColor::Red,
        NamedColor::BrightGreen => NamedColor::Green,
        NamedColor::BrightYellow => NamedColor::Yellow,
        NamedColor::BrightBlue => NamedColor::Blue,
        NamedColor::BrightMagenta => NamedColor::Magenta,
        NamedColor::BrightCyan => NamedColor::Cyan,
        NamedColor::BrightWhite => NamedColor::White,
        NamedColor::BrightForeground => NamedColor::Foreground,
        val => val,
    }
}

impl NamedColor {
    /// The color's index in a color list.
    pub fn index(self) -> (r: usize)
        ensures
            r == spec_named_color_index(self),
    {
        match self {
            NamedColor::Black => 0,
            NamedColor::Red => 1,
            NamedColor::Green => 2,
            NamedColor::Yellow => 3,
            NamedColor::Blue => 4,
            NamedColor::Magenta => 5,
            NamedColor::Cyan => 6,
            NamedColor::White => 7,
            NamedColor::BrightBlack => 8,
            NamedColor::BrightRed => 9,
            NamedColor::BrightGreen => 10,
            NamedColor::BrightYellow => 11,
            NamedColor::BrightBlue => 12,
            NamedColor::BrightMagenta => 13,
            NamedColor::BrightCyan => 14,
            NamedColor::BrightWhite => 15,
            NamedColor::Foreground => 256,
            NamedColor::Background => 257,
            NamedColor::Cursor => 258,
            NamedColor::DimBlack => 259,
            NamedColor::DimRed => 260,
            NamedColor::DimGreen => 261,
            NamedColor::DimYellow => 262,
            NamedColor::DimBlue => 263,
            NamedColor::DimMagenta => 264,
            NamedColor::DimCyan => 265,
            NamedColor::DimWhite => 266,
            NamedColor::BrightForeground => 267,
            NamedColor::DimForeground => 268,
        }
    }

    pub fn to_bright(self) -> (r: Self)
        ensures
            r == spec_to_bright(self),
    {
        match self {
            NamedColor::Foreground => NamedColor::BrightForeground,
            NamedColor::Black => NamedColor::BrightBlack,
            NamedColor::Red => NamedColor::BrightRed,
            NamedColor::Green => NamedColor::BrightGreen,
            NamedColor::Yellow => NamedColor::BrightYellow,
            NamedColor::Blue => NamedColor::BrightBlue,
            NamedColor::Magenta => NamedColor::BrightMagenta,
            NamedColor::Cyan => NamedColor::BrightCyan,
            NamedColor::White => NamedColor::BrightWhite,
            NamedColor::DimForeground => NamedColor::Foreground,
            NamedColor::DimBlack => NamedColor::Black,
            NamedColor::DimRed => NamedColor::Red,
            NamedColor::DimGreen => NamedColor::Green,
            NamedColor::DimYellow => NamedColor::Yellow,
            NamedColor::DimBlue => NamedColor::Blue,
            NamedColor::DimMagenta => NamedColor::Magenta,
            NamedColor::DimCyan => NamedColor::Cyan,
            NamedColor::DimWhite => NamedColor::White,
            val => val,
        }
    }

    pub fn to_dim(self) -> (r: Self)
        ensures
            r == spec_to_dim(self),
    {
        match self {
            NamedColor::Black => NamedColor::DimBlack,
            NamedColor::Red => NamedColor::DimRed,
            NamedColor::Green => NamedColor::DimGreen,
            NamedColor::Yellow => NamedColor::DimYellow,
            NamedColor::Blue => NamedColor::DimBlue,
            NamedColor::Magenta => NamedColor::DimMagenta,
            NamedColor::Cyan => NamedColor::DimCyan,
            NamedColor::White => NamedColor::DimWhite,
            NamedColor::Foreground => NamedColor::DimForeground,
            NamedColor::BrightBlack => NamedColor::Black,
            NamedColor::BrightRed => NamedColor::Red,
            NamedColor::BrightGreen => NamedColor::Green,
            NamedColor::BrightYellow => NamedColor::Yellow,
            NamedColor::BrightBlue => NamedColor::Blue,
            NamedColor::BrightMagenta => NamedColor::Magenta,
            NamedColor::BrightCyan => NamedColor::Cyan,
            NamedColor::BrightWhite => NamedColor::White,
            NamedColor::BrightForeground => NamedColor::Foreground,
            val => val,
        }
    }
}

/// Dimming undoes brightening, except for the bright colors, which brighten
/// to themselves, and the background and cursor colors, which neither
/// changes.
pub proof fn lemma_dim_undoes_bright(c: NamedColor)
    requires
        !(c == NamedColor::BrightBlack || c == NamedColor::BrightRed || c == NamedColor::BrightGreen
            || c == NamedColor::BrightYellow || c == NamedColor::BrightBlue || c
            == NamedColor::BrightMagenta || c == NamedColor::BrightCyan || c
            == NamedColor::BrightWhite || c == NamedColor::BrightForeground),
    ensures
        spec_to_dim(spec_to_bright(c)) == c,
{
}

/// Brightening undoes dimming, except for the dim colors, which dim to
/// themselves.
pub proof fn lemma_bright_undoes_dim(c: NamedColor)
    requires
        !(c == NamedColor::DimBlack || c == NamedColor::DimRed || c == NamedColor::DimGreen || c
            == NamedColor::DimYellow || c == NamedColor::DimBlue || c == NamedColor::DimMagenta
            || c == NamedColor::DimCyan || c == NamedColor::DimWhite || c
            == NamedColor::DimForeground),
    ensures
        spec_to_bright(spec_to_dim(c)) == c,
{
}

/// Distinct named colors have distinct indices.
pub proof fn lemma_named_color_index_injective(a: NamedColor, b: NamedColor)
    ensures
        spec_named_color_index(a) == spec_named_color_index(b) ==> a == b,
{
}

/// Whether a string is the single character BEL.
pub open spec fn is_bel(s: Seq<char>) -> bool {
    s.len() == 1 && s[0] == '\u{7}'
}

/// A color in RGB.
#[derive(Debug, Eq, PartialEq, Copy, Clone, Structural)]
pub struct Rgb {
    pub r: u8,
    pub g: u8,
    pub b: u8,
}

pub open spec fn saturating_add_u8(a: u8, b: u8) -> u8 {
    if a + b > 255 {
        255
    } else {
        (a + b) as u8
    }
}

pub open spec fn saturating_sub_u8(a: u8, b: u8) -> u8 {
    if a < b {
        0
    } else {
        (a - b) as u8
    }
}

impl Rgb {
    pub fn new(r: u8, g: u8, b: u8) -> (c: Self)
        ensures
            c == (Rgb { r, g, b }),
    {
        Rgb { r, g, b }
    }

    /// Channel-wise saturating sum.
    pub fn add(self, rhs: Rgb) -> (c: Rgb)
        ensures
            c == (Rgb {
                r: saturating_add_u8(self.r, rhs.r),
                g: saturating_add_u8(self.g, rhs.g),
                b: saturating_add_u8(self.b, rhs.b),
            }),
    {
        Rgb {
            r: self.r.saturating_add(rhs.r),
            g: self.g.saturating_add(rhs.g),
            b: self.b.saturating_add(rhs.b),
        }
    }

    /// Channel-wise saturating difference.
    pub fn sub(self, rhs: Rgb) -> (c: Rgb)
        ensures
            c == (Rgb {
                r: saturating_sub_u8(self.r, rhs.r),
                g: saturating_sub_u8(self.g, rhs.g),
                b: saturating_sub_u8(self.b, rhs.b),
            }),
    {
        Rgb {
            r: self.r.saturating_sub(rhs.r),
            g: self.g.saturating_sub(rhs.g),
            b: self.b.saturating_sub(rhs.b),
        }
    }
}

/// The hex digit for `d` below 16, lower case.
pub open spec fn hex_char(d: int) -> char {
    if d < 10 {
        (d + 48) as char
    } else {
        (d - 10 + 97) as char
    }
}

/// `#rrggbb` in lower-case hex.
pub open spec fn spec_rgb_hex(c: Rgb) -> Seq<char> {
    seq![
        '#',
        hex_char(c.r as int / 16),
        hex_char(c.r as int % 16),
        hex_char(c.g as int / 16),
        hex_char(c.g as int % 16),
        hex_char(c.b as int / 16),
        hex_char(c.b as int % 16),
    ]
}

/// Formats three channels as `#rrggbb` with std's `format!`, which writes
/// each with two lower-case hex digits.
#[verifier::external_body]
fn format_rgb_hex(r: u8, g: u8, b: u8) -> (s: String)
    ensures
        s@ == spec_rgb_hex(Rgb { r, g, b }),
{
    format!("#{:02x}{:02x}{:02x}", r, g, b)
}

/// What parsing `#rrggbb` or `0xrrggbb` gives: the six characters after
/// the prefix read as a hexadecimal number (an optional `+` counts as one
/// of them).
pub open spec fn spec_rgb_from_str(bytes: Seq<u8>) -> Option<Rgb> {
    let digits = if bytes.len() == 8 && bytes[0] == 0x30 && bytes[1] == 0x78 {
        Some(bytes.skip(2))
    } else if bytes.len() == 7 && bytes[0] == 0x23 {
        Some(bytes.skip(1))
    } else {
        None
    };
    match digits {
        None => None,
        Some(d) => match crate::saiga_vte::ansi::processor::spec_from_radix16(d, u32::MAX as int) {
            Some(v) => Some(Rgb { r: ((v / 65536) % 256) as u8, g: ((v / 256) % 256) as u8, b: (v % 256) as u8 }),
            None => None,
        },
    }
}

proof fn lemma_hex_char_digit(d: int)
    requires
        0 <= d < 16,
    ensures
        (hex_char(d) as u8) <= 0x7f,
        hex_char(d) as u8 != 0x2B,
        crate::saiga_vte::ansi::processor::spec_hex_digit(hex_char(d) as u8) == Some(d),
{
}

proof fn lemma_hex_six(d0: int, d1: int, d2: int, d3: int, d4: int, d5: int, r: int, g: int, b: int)
    by (nonlinear_arith)
    requires
        0 <= d0 < 16,
        0 <= d1 < 16,
        0 <= d2 < 16,
        0 <= d3 < 16,
        0 <= d4 < 16,
        0 <= d5 < 16,
        r == d0 * 16 + d1,
        g == d2 * 16 + d3,
        b == d4 * 16 + d5,
    ensures
        ((((d0 * 16 + d1) * 16 + d2) * 16 + d3) * 16 + d4) * 16 + d5 == r * 65536 + g * 256 + b,
        r * 65536 + g * 256 + b <= 0xFFFF_FFFF,
        ((r * 65536 + g * 256 + b) / 65536) % 256 == r,
        ((r * 65536 + g * 256 + b) / 256) % 256 == g,
        (r * 65536 + g * 256 + b) % 256 == b,
{
}

/// Parsing what [`Rgb::to_hex_string`] writes gives the color back.
pub proof fn lemma_hex_string_round_trip(c: Rgb)
    ensures
        spec_rgb_from_str(encode_utf8(spec_rgb_hex(c))) == Some(c),
{
    let chars = spec_rgb_hex(c);
    let d0 = c.r as int / 16;
    let d1 = c.r as int % 16;
    let d2 = c.g as int / 16;
    let d3 = c.g as int % 16;
    let d4 = c.b as int / 16;
    let d5 = c.b as int % 16;
    lemma_hex_char_digit(d0);
    lemma_hex_char_digit(d1);
    lemma_hex_char_digit(d2);
    lemma_hex_char_digit(d3);
    lemma_hex_char_digit(d4);
    lemma_hex_char_digit(d5);
    assert(is_ascii_chars(chars));
    is_ascii_chars_encode_utf8(chars);
    let bytes = encode_utf8(chars);
    assert(bytes.len() == 7);
    assert(bytes[0] == 0x23) by {
        assert(chars[0] as u8 == bytes[0]);
    }
    let digits = bytes.skip(1);
    assert(digits =~= seq![
        hex_char(d0) as u8,
        hex_char(d1) as u8,
        hex_char(d2) as u8,
        hex_char(d3) as u8,
        hex_char(d4) as u8,
        hex_char(d5) as u8,
    ]) by {
        assert(chars[1] as u8 == bytes[1]);
        assert(chars[2] as u8 == bytes[2]);
        assert(chars[3] as u8 == bytes[3]);
        assert(chars[4] as u8 == bytes[4]);
        assert(chars[5] as u8 == bytes[5]);
        assert(chars[6] as u8 == bytes[6]);
    }
    assert(crate::saiga_vte::ansi::processor::all_hex_digits(digits));
    reveal_with_fuel(crate::saiga_vte::ansi::processor::spec_hex_value, 7);
    assert(digits.drop_last().drop_last().drop_last().drop_last().drop_last().drop_last()
        =~= Seq::<u8>::empty());
    lemma_hex_six(d0, d1, d2, d3, d4, d5, c.r as int, c.g as int, c.b as int);
    assert(crate::saiga_vte::ansi::processor::spec_hex_value(digits) == c.r as int * 65536
        + c.g as int * 256 + c.b as int);
}

impl Default for Rgb {
    fn default() -> (r: Rgb)
        ensures
            r == (Rgb { r: 0, g: 0, b: 0 }),
    {
        Rgb { r: 0, g: 0, b: 0 }
    }
}

impl Rgb {
    /// `#rrggbb` in lower-case hex.
    pub fn to_hex_string(&self) -> (s: String)
        ensures
            s@ == spec_rgb_hex(*self),
    {
        format_rgb_hex(self.r, self.g, self.b)
    }

    /// Parses `#rrggbb` or `0xrrggbb`.
    pub fn parse(s: &str) -> (r: Result<Rgb, ()>)
        ensures
            r matches Ok(c) ==> spec_rgb_from_str(s.spec_bytes()) == Some(c),
            r is Err ==> spec_rgb_from_str(s.spec_bytes()) is None,
    {
        let bytes = s.as_bytes();
        let digits = if bytes.len() == 8 && bytes[0] == 0x30 && bytes[1] == 0x78 {
            let d = vstd::slice::slice_subrange(bytes, 2, 8);
            assert(d@ =~= bytes@.skip(2));
            d
        } else if bytes.len() == 7 && bytes[0] == 0x23 {
            let d = vstd::slice::slice_subrange(bytes, 1, 7);
            assert(d@ =~= bytes@.skip(1));
            d
        } else {
            return Err(());
        };
        match crate::saiga_vte::ansi::processor::from_radix16(digits) {
            Some(v) => {
                if v > 0xFFFF_FFFF {
                    return Err(());
                }
                Ok(Rgb { r: ((v / 65536) % 256) as u8, g: ((v / 256) % 256) as u8, b: (v % 256) as u8 })
            },
            None => {
                proof {
                    let d = digits@;
                    if crate::saiga_vte::ansi::processor::spec_radix16_digits(d) is Some {
                        assert(crate::saiga_vte::ansi::processor::spec_from_radix16(d, u64::MAX as int) is None);
                    }
                }
                Err(())
            },
        }
    }
}

impl core::str::FromStr for Rgb {
    type Err = ();

    /// Parses `#rrggbb` or `0xrrggbb`, as [`Rgb::parse`] does.
    fn from_str(s: &str) -> (r: Result<Rgb, ()>)
        ensures
            r matches Ok(c) ==> spec_rgb_from_str(s.spec_bytes()) == Some(c),
            r is Err ==> spec_rgb_from_str(s.spec_bytes()) is None,
    {
        Rgb::parse(s)
    }
}

#[derive(Debug, Clone, Copy, Eq, PartialEq, Structural)]
pub enum Direction {
    Up,
    Right,
    Down,
    Left,
}

/// SCP control's first parameter which determines character path.
#[derive(Debug, Clone, Copy, PartialEq, Eq, Structural)]
pub enum ScpCharPath {
    /// Behavior is implementation defined.
    Default,
    /// Left to right.
    LTR,
    /// Right to left.
    RTL,
}

/// SCP control's second parameter which determines update mode/direction.
#[derive(Debug, Clone, Copy, PartialEq, Eq, Structural)]
pub enum ScpUpdateMode {
    ImplementationDependant,
    DataToPresentation,
    PresentationToData,
}

/// Receives what the processor decodes from the byte stream. Every method
/// does nothing unless an implementation overrides it.
pub trait Handler {
    /// The record of the calls this handler has received, oldest first. The
    /// methods that the processor calls each add their call to it. An
    /// implementation that does not define the record (the closed default
    /// is always empty) does not meet those methods' contracts.
    closed spec fn calls(&self) -> Seq<HandlerCallV> {
        Seq::empty()
    }

    /// OSC to set window title.
    fn set_title(&mut self, arg: Option<String>)
        ensures
            final(self).calls() == old(self).calls().push(HandlerCallV::SetTitle(
                match arg {
                    Some(t) => Some(t@),
                    None => None,
                },
            )),
    ;

    /// Set the cursor style.
    fn set_cursor_style(&mut self, _arg: Option<CursorStyle>) {}

    /// Set the cursor shape.
    fn set_cursor_shape(&mut self, _shape: CursorShape) {}

    /// A character to be displayed.
    fn input(&mut self, c: char)
        ensures
            final(self).calls() == old(self).calls().push(HandlerCallV::Input(c)),
    ;

    /// Set cursor to position.
    fn goto(&mut self, line: i32, col: usize)
        ensures
            final(self).calls() == old(self).calls().push(HandlerCallV::Goto(line, col)),
    ;

    /// Set cursor to specific row.
    fn goto_line(&mut self, line: i32)
        ensures
            final(self).calls() == old(self).calls().push(HandlerCallV::GotoLine(line)),
    ;

    /// Set cursor to specific column.
    fn goto_col(&mut self, col: usize)
        ensures
            final(self).calls() == old(self).calls().push(HandlerCallV::GotoCol(col)),
    ;

    /// Insert blank characters in current line starting from cursor.
    fn insert_blank(&mut self, arg: usize)
        ensures
            final(self).calls() == old(self).calls().push(HandlerCallV::InsertBlank(arg)),
    ;

    /// Move cursor up `rows`.
    fn move_up(&mut self, arg: usize)
        ensures
            final(self).calls() == old(self).calls().push(HandlerCallV::MoveUp(arg)),
    ;

    /// Move cursor down `rows`.
    fn move_down(&mut self, arg: usize)
        ensures
            final(self).calls() == old(self).calls().push(HandlerCallV::MoveDown(arg)),
    ;

    /// Identify the terminal (should write back to the pty stream).
    fn identify_terminal(&mut self, intermediate: Option<char>)
        ensures
            final(self).calls() == old(self).calls().push(HandlerCallV::IdentifyTerminal(intermediate)),
    ;

    /// Report device status.
    fn device_status(&mut self, _arg: usize) {}

    /// Move cursor forward `cols`.
    fn move_forward(&mut self, col: usize)
        ensures
            final(self).calls() == old(self).calls().push(HandlerCallV::MoveForward(col)),
    ;

    /// Move cursor backward `cols`.
    fn move_backward(&mut self, col: usize)
        ensures
            final(self).calls() == old(self).calls().push(HandlerCallV::MoveBackward(col)),
    ;

    /// Move cursor down `rows` and set to column 1.
    fn move_down_and_cr(&mut self, _row: usize) {}

    /// Move cursor up `rows` and set to column 1.
    fn move_up_and_cr(&mut self, _row: usize) {}

    /// Put `count` tabs.
    fn put_tab(&mut self, count: u16)
        ensures
            final(self).calls() == old(self).calls().push(HandlerCallV::PutTab(count)),
    ;

    /// Backspace `count` characters.
    fn backspace(&mut self)
        ensures
            final(self).calls() == old(self).calls().push(HandlerCallV::Backspace),
    ;

    /// Carriage return.
    fn carriage_return(&mut self)
        ensures
            final(self).calls() == old(self).calls().push(HandlerCallV::CarriageReturn),
    ;

    /// Linefeed.
    fn linefeed(&mut self)
        ensures
            final(self).calls() == old(self).calls().push(HandlerCallV::Linefeed),
    ;

    /// Ring the bell.
    ///
    /// Hopefully this is never implemented.
    fn bell(&mut self)
        ensures
            final(self).calls() == old(self).calls().push(HandlerCallV::Bell),
    ;

    /// Substitute char under cursor.
    fn substitute(&mut self)
        ensures
            final(self).calls() == old(self).calls().push(HandlerCallV::Substitute),
    ;

    /// Newline.
    fn newline(&mut self) {}

    /// Set current position as a tabstop.
    fn set_horizontal_tabstop(&mut self) {}

    /// Scroll up `rows` rows.
    fn scroll_up(&mut self, _arg: usize) {}

    /// Scroll down `rows` rows.
    fn scroll_down(&mut self, _arg: usize) {}

    /// Insert `count` blank lines.
    fn insert_blank_lines(&mut self, _arg: usize) {}

    /// Delete `count` lines.
    fn delete_lines(&mut self, arg: usize)
        ensures
            final(self).calls() == old(self).calls().push(HandlerCallV::DeleteLines(arg)),
    ;

    /// Erase `count` chars in current line following cursor.
    ///
    /// Erase means resetting to the default state (default colors, no content,
    /// no mode flags).
    fn erase_chars(&mut self, arg: usize)
        ensures
            final(self).calls() == old(self).calls().push(HandlerCallV::EraseChars(arg)),
    ;

    /// Delete `count` chars.
    ///
    /// Deleting a character is like the delete key on the keyboard - everything
    /// to the right of the deleted things is shifted left.
    fn delete_chars(&mut self, arg: usize)
        ensures
            final(self).calls() == old(self).calls().push(HandlerCallV::DeleteChars(arg)),
    ;

    /// Move backward `count` tabs.
    fn move_backward_tabs(&mut self, _count: u16) {}

    /// Move forward `count` tabs.
    fn move_forward_tabs(&mut self, _count: u16) {}

    /// Save current cursor position.
    fn save_cursor_position(&mut self)
        ensures
            final(self).calls() == old(self).calls().push(HandlerCallV::SaveCursorPosition),
    ;

    /// Restore cursor position.
    fn restore_cursor_position(&mut self)
        ensures
            final(self).calls() == old(self).calls().push(HandlerCallV::RestoreCursorPosition),
    ;

    /// Clear current line.
    fn clear_line(&mut self, mode: LineClearMode)
        ensures
            final(self).calls() == old(self).calls().push(HandlerCallV::ClearLine(mode)),
    ;

    /// Clear screen.
    fn clear_screen(&mut self, mode: ScreenClearMode)
        ensures
            final(self).calls() == old(self).calls().push(HandlerCallV::ClearScreen(mode)),
    ;

    /// Clear tab stops.
    fn clear_tabs(&mut self, _mode: TabulationClearMode) {}

    /// Reset terminal state.
    fn reset_state(&mut self)
        ensures
            final(self).calls() == old(self).calls().push(HandlerCallV::ResetState),
    ;

    /// Reverse Index.
    ///
    /// Move the active position to the same horizontal position on the
    /// preceding line. If the active position is at the top margin, a scroll
    /// down is performed.
    fn reverse_index(&mut self) {}

    /// Set a terminal attribute.
    fn terminal_attribute(&mut self, attr: Attribute)
        ensures
            final(self).calls() == old(self).calls().push(HandlerCallV::TerminalAttribute(attr)),
    ;

    /// Set mode.
    fn set_mode(&mut self, mode: Mode)
        ensures
            final(self).calls() == old(self).calls().push(HandlerCallV::SetMode(mode)),
    ;

    /// Unset mode.
    fn unset_mode(&mut self, _mode: Mode) {}

    /// DECRPM - report mode.
    fn report_mode(&mut self, mode: Mode)
        ensures
            final(self).calls() == old(self).calls().push(HandlerCallV::ReportMode(mode)),
    ;

    /// Set private mode.
    fn set_private_mode(&mut self, mode: PrivateMode)
        ensures
            final(self).calls() == old(self).calls().push(HandlerCallV::SetPrivateMode(mode)),
    ;

    /// Unset private mode.
    fn unset_private_mode(&mut self, mode: PrivateMode)
        ensures
            final(self).calls() == old(self).calls().push(HandlerCallV::UnsetPrivateMode(mode)),
    ;

    /// DECRPM - report private mode.
    fn report_private_mode(&mut self, _mode: PrivateMode) {}

    /// DECSTBM - Set the terminal scrolling region.
    fn set_scrolling_region(&mut self, _top: usize, _bottom: Option<usize>) {}

    /// DECKPAM - Set keypad to applications mode (ESCape instead of digits).
    fn set_keypad_application_mode(&mut self) {}

    /// DECKPNM - Set keypad to numeric mode (digits instead of ESCape seq).
    fn unset_keypad_application_mode(&mut self) {}

    /// Set one of the graphic character sets, G0 to G3, as the active charset.
    ///
    /// 'Invoke' one of G0 to G3 in the GL area. Also referred to as shift in,
    /// shift out and locking shift depending on the set being activated.
    fn set_active_charset(&mut self, arg: CharsetIndex)
        ensures
            final(self).calls() == old(self).calls().push(HandlerCallV::SetActiveCharset(arg)),
    ;

    /// Assign a graphic character set to G0, G1, G2 or G3.
    ///
    /// 'Designate' a graphic character set as one of G0 to G3, so that it can
    /// later be 'invoked' by `set_active_charset`.
    fn configure_charset(&mut self, index: CharsetIndex, charset: Charset)
        ensures
            final(self).calls() == old(self).calls().push(HandlerCallV::ConfigureCharset(index, charset)),
    ;

    /// Set an indexed color value.
    fn set_color(&mut self, index: usize, color: Rgb)
        ensures
            final(self).calls() == old(self).calls().push(HandlerCallV::SetColor(index, color)),
    ;

    /// Respond to a color query escape sequence.
    fn dynamic_color_sequence(&mut self, prefix: String, index: usize, terminator: &str)
        ensures
            final(self).calls() == old(self).calls().push(HandlerCallV::DynamicColorSequence(
                prefix@,
                index,
                is_bel(terminator@),
            )),
    ;

    /// Reset an indexed color to original value.
    fn reset_color(&mut self, arg: usize)
        ensures
            final(self).calls() == old(self).calls().push(HandlerCallV::ResetColor(arg)),
    ;

    /// Store data into clipboard.
    fn clipboard_store(&mut self, clipboard: u8, data: &[u8])
        ensures
            final(self).calls() == old(self).calls().push(HandlerCallV::ClipboardStore(clipboard, data@)),
    ;

    /// Load data from clipboard.
    fn clipboard_load(&mut self, clipboard: u8, terminator: &str)
        ensures
            final(self).calls() == old(self).calls().push(HandlerCallV::ClipboardLoad(clipboard)),
    ;

    /// Run the decaln routine.
    fn decaln(&mut self) {}

    /// Push a title onto the stack.
    fn push_title(&mut self) {}

    /// Pop the last title from the stack.
    fn pop_title(&mut self) {}

    /// Report text area size in pixels.
    fn text_area_size_pixels(&mut self) {}

    /// Report text area size in characters.
    fn text_area_size_chars(&mut self) {}

    /// Set hyperlink.
    fn set_hyperlink(&mut self, arg: Option<Hyperlink>)
        ensures
            final(self).calls() == old(self).calls().push(HandlerCallV::SetHyperlink(
                match arg {
                    Some(h) => Some(h@),
                    None => None,
                },
            )),
    ;

    /// Report current keyboard mode.
    fn report_keyboard_mode(&mut self)
        ensures
            final(self).calls() == old(self).calls().push(HandlerCallV::ReportKeyboardMode),
    ;

    /// Push keyboard mode into the keyboard mode stack.
    fn push_keyboard_mode(&mut self, _mode: KeyboardModes) {}

    /// Pop the given amount of keyboard modes from the
    /// keyboard mode stack.
    fn pop_keyboard_modes(&mut self, _to_pop: u16) {}

    /// Set the [`keyboard mode`] using the given [`behavior`].
    ///
    /// [`keyboard mode`]: crate::ansi::KeyboardModes
    /// [`behavior`]: crate::ansi::KeyboardModesApplyBehavior
    fn set_keyboard_mode(&mut self, _mode: KeyboardModes, _behavior: KeyboardModesApplyBehavior) {}

    /// Set XTerm's [`ModifyOtherKeys`] option.
    fn set_modify_other_keys(&mut self, _mode: ModifyOtherKeys) {}

    /// Report XTerm's [`ModifyOtherKeys`] state.
    ///
    /// The output is of form `CSI > 4 ; mode m`.
    fn report_modify_other_keys(&mut self) {}

    // Set SCP control.
    fn set_scp(&mut self, _char_path: ScpCharPath, _update_mode: ScpUpdateMode) {}
}

} // verus!
