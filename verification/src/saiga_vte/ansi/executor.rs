//! What a [`Handler`] is asked to do for each control function, escape
//! sequence, control sequence and operating system command.
use vstd::prelude::*;
use vstd::utf8::{decode_utf8, valid_utf8};

use super::c0;
use super::handler::{
    spec_charset_index_from_byte, spec_mode_new, spec_private_mode_new, Attribute, Charset,
    CharsetIndex, Handler, Hyperlink, LineClearMode, Mode, PrivateMode, Rgb, ScreenClearMode,
};
use super::processor::{
    attrs_from_sgr_parameters, byte_seqs, params_nonempty, parse_number, spec_parse_number,
    spec_sgr_attrs, spec_sgr_readable, spec_split, spec_xparse_color, split_bytes, u16_seqs,
    xparse_color,
};
use crate::saiga_vte::utf8::from_utf8;
use crate::swiftty_vte::intermediate::MAX_INTERMEDIATES;

verus! {

/// One call of a [`Handler`] method, with its arguments.
#[derive(Debug, PartialEq, Eq)]
pub enum HandlerCall {
    SetTitle(Option<String>),
    Input(char),
    Goto(i32, usize),
    GotoLine(i32),
    GotoCol(usize),
    InsertBlank(usize),
    MoveUp(usize),
    MoveDown(usize),
    IdentifyTerminal(Option<char>),
    MoveForward(usize),
    MoveBackward(usize),
    PutTab(u16),
    Backspace,
    CarriageReturn,
    Linefeed,
    Bell,
    Substitute,
    DeleteLines(usize),
    EraseChars(usize),
    DeleteChars(usize),
    SaveCursorPosition,
    RestoreCursorPosition,
    ClearLine(LineClearMode),
    ClearScreen(ScreenClearMode),
    ResetState,
    TerminalAttribute(Attribute),
    SetMode(Mode),
    ReportMode(Mode),
    SetPrivateMode(PrivateMode),
    UnsetPrivateMode(PrivateMode),
    SetActiveCharset(CharsetIndex),
    ConfigureCharset(CharsetIndex, Charset),
    SetColor(usize, Rgb),
    /// The prefix, the color index, and whether the query was terminated by
    /// BEL (else by ST).
    DynamicColorSequence(String, usize, bool),
    ResetColor(usize),
    ClipboardStore(u8, Vec<u8>),
    ClipboardLoad(u8),
    SetHyperlink(Option<Hyperlink>),
    ReportKeyboardMode,
}

/// The content of a [`Hyperlink`].
pub struct HyperlinkV {
    pub id: Option<Seq<char>>,
    pub uri: Seq<char>,
}

/// The content of a [`HandlerCall`].
pub enum HandlerCallV {
    SetTitle(Option<Seq<char>>),
    Input(char),
    Goto(i32, usize),
    GotoLine(i32),
    GotoCol(usize),
    InsertBlank(usize),
    MoveUp(usize),
    MoveDown(usize),
    IdentifyTerminal(Option<char>),
    MoveForward(usize),
    MoveBackward(usize),
    PutTab(u16),
    Backspace,
    CarriageReturn,
    Linefeed,
    Bell,
    Substitute,
    DeleteLines(usize),
    EraseChars(usize),
    DeleteChars(usize),
    SaveCursorPosition,
    RestoreCursorPosition,
    ClearLine(LineClearMode),
    ClearScreen(ScreenClearMode),
    ResetState,
    TerminalAttribute(Attribute),
    SetMode(Mode),
    ReportMode(Mode),
    SetPrivateMode(PrivateMode),
    UnsetPrivateMode(PrivateMode),
    SetActiveCharset(CharsetIndex),
    ConfigureCharset(CharsetIndex, Charset),
    SetColor(usize, Rgb),
    DynamicColorSequence(Seq<char>, usize, bool),
    ResetColor(usize),
    ClipboardStore(u8, Seq<u8>),
    ClipboardLoad(u8),
    SetHyperlink(Option<HyperlinkV>),
    ReportKeyboardMode,
}

impl View for Hyperlink {
    type V = HyperlinkV;

    open spec fn view(&self) -> HyperlinkV {
        HyperlinkV {
            id: match self.id {
                Some(s) => Some(s@),
                None => None,
            },
            uri: self.uri@,
        }
    }
}

impl View for HandlerCall {
    type V = HandlerCallV;

    open spec fn view(&self) -> HandlerCallV {
        match self {
            HandlerCall::SetTitle(t) => HandlerCallV::SetTitle(
                match t {
                    Some(s) => Some(s@),
                    None => None,
                },
            ),
            HandlerCall::Input(c) => HandlerCallV::Input(*c),
            HandlerCall::Goto(l, c) => HandlerCallV::Goto(*l, *c),
            HandlerCall::GotoLine(l) => HandlerCallV::GotoLine(*l),
            HandlerCall::GotoCol(c) => HandlerCallV::GotoCol(*c),
            HandlerCall::InsertBlank(n) => HandlerCallV::InsertBlank(*n),
            HandlerCall::MoveUp(n) => HandlerCallV::MoveUp(*n),
            HandlerCall::MoveDown(n) => HandlerCallV::MoveDown(*n),
            HandlerCall::IdentifyTerminal(c) => HandlerCallV::IdentifyTerminal(*c),
            HandlerCall::MoveForward(n) => HandlerCallV::MoveForward(*n),
            HandlerCall::MoveBackward(n) => HandlerCallV::MoveBackward(*n),
            HandlerCall::PutTab(n) => HandlerCallV::PutTab(*n),
            HandlerCall::Backspace => HandlerCallV::Backspace,
            HandlerCall::CarriageReturn => HandlerCallV::CarriageReturn,
            HandlerCall::Linefeed => HandlerCallV::Linefeed,
            HandlerCall::Bell => HandlerCallV::Bell,
            HandlerCall::Substitute => HandlerCallV::Substitute,
            HandlerCall::DeleteLines(n) => HandlerCallV::DeleteLines(*n),
            HandlerCall::EraseChars(n) => HandlerCallV::EraseChars(*n),
            HandlerCall::DeleteChars(n) => HandlerCallV::DeleteChars(*n),
            HandlerCall::SaveCursorPosition => HandlerCallV::SaveCursorPosition,
            HandlerCall::RestoreCursorPosition => HandlerCallV::RestoreCursorPosition,
            HandlerCall::ClearLine(m) => HandlerCallV::ClearLine(*m),
            HandlerCall::ClearScreen(m) => HandlerCallV::ClearScreen(*m),
            HandlerCall::ResetState => HandlerCallV::ResetState,
            HandlerCall::TerminalAttribute(a) => HandlerCallV::TerminalAttribute(*a),
            HandlerCall::SetMode(m) => HandlerCallV::SetMode(*m),
            HandlerCall::ReportMode(m) => HandlerCallV::ReportMode(*m),
            HandlerCall::SetPrivateMode(m) => HandlerCallV::SetPrivateMode(*m),
            HandlerCall::UnsetPrivateMode(m) => HandlerCallV::UnsetPrivateMode(*m),
            HandlerCall::SetActiveCharset(i) => HandlerCallV::SetActiveCharset(*i),
            HandlerCall::ConfigureCharset(i, c) => HandlerCallV::ConfigureCharset(*i, *c),
            HandlerCall::SetColor(i, c) => HandlerCallV::SetColor(*i, *c),
            HandlerCall::DynamicColorSequence(p, i, b) => HandlerCallV::DynamicColorSequence(
                p@,
                *i,
                *b,
            ),
            HandlerCall::ResetColor(i) => HandlerCallV::ResetColor(*i),
            HandlerCall::ClipboardStore(c, d) => HandlerCallV::ClipboardStore(*c, d@),
            HandlerCall::ClipboardLoad(c) => HandlerCallV::ClipboardLoad(*c),
            HandlerCall::SetHyperlink(h) => HandlerCallV::SetHyperlink(
                match h {
                    Some(h) => Some(h@),
                    None => None,
                },
            ),
            HandlerCall::ReportKeyboardMode => HandlerCallV::ReportKeyboardMode,
        }
    }
}

pub open spec fn calls_view(v: Seq<HandlerCall>) -> Seq<HandlerCallV> {
    v.map_values(|c: HandlerCall| c@)
}

// ---------------------------------------------------------------------------
// Control functions
// ---------------------------------------------------------------------------

/// What a C0 control function asks of the handler.
pub open spec fn spec_execute(byte: u8) -> Seq<HandlerCallV> {
    if byte == c0::HT {
        seq![HandlerCallV::PutTab(1)]
    } else if byte == c0::CR {
        seq![HandlerCallV::CarriageReturn]
    } else if byte == c0::BS {
        seq![HandlerCallV::Backspace]
    } else if byte == c0::BEL {
        seq![HandlerCallV::Bell]
    } else if byte == c0::LF || byte == c0::VT || byte == c0::FF {
        seq![HandlerCallV::Linefeed]
    } else if byte == c0::SI {
        seq![HandlerCallV::SetActiveCharset(CharsetIndex::G0)]
    } else if byte == c0::SO {
        seq![HandlerCallV::SetActiveCharset(CharsetIndex::G1)]
    } else if byte == c0::SUB {
        seq![HandlerCallV::Substitute]
    } else {
        seq![]
    }
}

/// The C0 controls that move the cursor: exactly CR (0x0D) returns the
/// carriage, with that one call; exactly LF, VT and FF (0x0A to 0x0C) feed a
/// line, with that one call; BS (0x08) steps back and HT (0x09) goes to the
/// next tab stop. No control asks for more than one call.
pub proof fn lemma_execute_controls(byte: u8)
    ensures
        spec_execute(byte).len() <= 1,
        spec_execute(byte) == seq![HandlerCallV::CarriageReturn] <==> byte == 0x0D,
        spec_execute(byte) == seq![HandlerCallV::Linefeed] <==> (0x0A <= byte <= 0x0C),
        spec_execute(byte) == seq![HandlerCallV::Backspace] <==> byte == 0x08,
        spec_execute(byte) == seq![HandlerCallV::PutTab(1)] <==> byte == 0x09,
        spec_execute(byte).contains(HandlerCallV::CarriageReturn) <==> byte == 0x0D,
        spec_execute(byte).contains(HandlerCallV::Linefeed) <==> (0x0A <= byte <= 0x0C),
{
    let r = spec_execute(byte);
    if r.len() == 1 {
        assert(r.contains(r[0]));
        assert(forall|c: HandlerCallV| r.contains(c) ==> c == r[0]);
        assert(r == seq![r[0]]);
    } else {
        assert(r =~= seq![]);
    }
}

pub fn execute_calls(byte: u8) -> (r: Vec<HandlerCall>)
    ensures
        calls_view(r@) == spec_execute(byte),
{
    let mut out: Vec<HandlerCall> = Vec::new();
    if byte == c0::HT {
        out.push(HandlerCall::PutTab(1));
    } else if byte == c0::CR {
        out.push(HandlerCall::CarriageReturn);
    } else if byte == c0::BS {
        out.push(HandlerCall::Backspace);
    } else if byte == c0::BEL {
        out.push(HandlerCall::Bell);
    } else if byte == c0::LF || byte == c0::VT || byte == c0::FF {
        out.push(HandlerCall::Linefeed);
    } else if byte == c0::SI {
        out.push(HandlerCall::SetActiveCharset(CharsetIndex::G0));
    } else if byte == c0::SO {
        out.push(HandlerCall::SetActiveCharset(CharsetIndex::G1));
    } else if byte == c0::SUB {
        out.push(HandlerCall::Substitute);
    }
    assert(calls_view(out@) =~= spec_execute(byte));
    out
}

// ---------------------------------------------------------------------------
// Escape sequences
// ---------------------------------------------------------------------------

/// What an escape sequence asks of the handler.
pub open spec fn spec_esc(intermediates: Seq<u8>, byte: u8) -> Seq<HandlerCallV> {
    if intermediates.len() == 1 && (byte == 0x30 || byte == 0x42) {
        match spec_charset_index_from_byte(intermediates[0]) {
            Some(index) => seq![
                HandlerCallV::ConfigureCharset(
                    index,
                    if byte == 0x30 {
                        Charset::SpecialCharacterAndLineDrawing
                    } else {
                        Charset::Ascii
                    },
                ),
            ],
            None => seq![],
        }
    } else if intermediates.len() == 0 {
        if byte == 0x44 {
            seq![HandlerCallV::Linefeed]
        } else if byte == 0x45 {
            seq![HandlerCallV::Linefeed, HandlerCallV::CarriageReturn]
        } else if byte == 0x5A {
            seq![HandlerCallV::IdentifyTerminal(None)]
        } else if byte == 0x63 {
            seq![HandlerCallV::ResetState]
        } else if byte == 0x37 {
            seq![HandlerCallV::SaveCursorPosition]
        } else if byte == 0x38 {
            seq![HandlerCallV::RestoreCursorPosition]
        } else {
            seq![]
        }
    } else {
        seq![]
    }
}

/// The escape sequences: `ESC 7` saves the cursor and `ESC 8` restores it,
/// `ESC D` feeds a line, `ESC E` (next line) feeds a line and then returns
/// the carriage, `ESC c` resets the terminal, and `ESC ( 0` and `ESC ) B`
/// select line drawing for G0 and ASCII for G1.
pub proof fn lemma_esc_sequences()
    ensures
        spec_esc(seq![], 0x37) == seq![HandlerCallV::SaveCursorPosition],
        spec_esc(seq![], 0x38) == seq![HandlerCallV::RestoreCursorPosition],
        spec_esc(seq![], 0x44) == seq![HandlerCallV::Linefeed],
        spec_esc(seq![], 0x45) == seq![HandlerCallV::Linefeed, HandlerCallV::CarriageReturn],
        spec_esc(seq![], 0x63) == seq![HandlerCallV::ResetState],
        spec_esc(seq![0x28u8], 0x30) == seq![
            HandlerCallV::ConfigureCharset(CharsetIndex::G0, Charset::SpecialCharacterAndLineDrawing),
        ],
        spec_esc(seq![0x29u8], 0x42) == seq![
            HandlerCallV::ConfigureCharset(CharsetIndex::G1, Charset::Ascii),
        ],
{
}

pub fn esc_calls(intermediates: &[u8], byte: u8) -> (r: Vec<HandlerCall>)
    ensures
        calls_view(r@) == spec_esc(intermediates@, byte),
{
    let mut out: Vec<HandlerCall> = Vec::new();
    if intermediates.len() == 1 && (byte == 0x30 || byte == 0x42) {
        match CharsetIndex::try_from_byte(intermediates[0]) {
            Some(index) => {
                let charset = if byte == 0x30 {
                    Charset::SpecialCharacterAndLineDrawing
                } else {
                    Charset::Ascii
                };
                out.push(HandlerCall::ConfigureCharset(index, charset));
            },
            None => {},
        }
    } else if intermediates.len() == 0 {
        if byte == 0x44 {
            out.push(HandlerCall::Linefeed);
        } else if byte == 0x45 {
            out.push(HandlerCall::Linefeed);
            out.push(HandlerCall::CarriageReturn);
        } else if byte == 0x5A {
            out.push(HandlerCall::IdentifyTerminal(None));
        } else if byte == 0x63 {
            out.push(HandlerCall::ResetState);
        } else if byte == 0x37 {
            out.push(HandlerCall::SaveCursorPosition);
        } else if byte == 0x38 {
            out.push(HandlerCall::RestoreCursorPosition);
        }
    }
    assert(calls_view(out@) =~= spec_esc(intermediates@, byte));
    out
}

// ---------------------------------------------------------------------------
// Control sequences
// ---------------------------------------------------------------------------

/// The first value of parameter `j`, or `default` when there is no such
/// parameter or the value is zero.
pub open spec fn spec_param_or(ps: Seq<Seq<u16>>, j: int, default: u16) -> u16 {
    if 0 <= j < ps.len() && ps[j].len() > 0 && ps[j][0] != 0 {
        ps[j][0]
    } else {
        default
    }
}

fn param_or(params: &[Vec<u16>], j: usize, default: u16) -> (r: u16)
    ensures
        r == spec_param_or(u16_seqs(params@), j as int, default),
{
    if j < params.len() && params[j].len() > 0 && params[j][0] != 0 {
        params[j][0]
    } else {
        default
    }
}

/// The calls that an SGR sequence makes.
pub open spec fn spec_sgr_calls(ps: Seq<Seq<u16>>) -> Seq<HandlerCallV> {
    if ps.len() == 0 {
        seq![HandlerCallV::TerminalAttribute(Attribute::Reset)]
    } else {
        spec_sgr_attrs(ps).map_values(|a: Attribute| HandlerCallV::TerminalAttribute(a))
    }
}

/// What a control sequence without intermediates asks of the handler.
pub open spec fn spec_csi_plain(ps: Seq<Seq<u16>>, action: char, preceding: Option<char>) -> Seq<
    HandlerCallV,
> {
    let n = spec_param_or(ps, 0, 1);
    if action == '@' {
        seq![HandlerCallV::InsertBlank(n as usize)]
    } else if action == 'A' || action == 'F' {
        seq![HandlerCallV::MoveUp(n as usize)]
    } else if action == 'B' || action == 'e' || action == 'E' {
        seq![HandlerCallV::MoveDown(n as usize)]
    } else if action == 'b' {
        match preceding {
            Some(c) => Seq::new(n as nat, |k: int| HandlerCallV::Input(c)),
            None => seq![],
        }
    } else if action == 'C' || action == 'a' {
        seq![HandlerCallV::MoveForward(n as usize)]
    } else if action == 'D' {
        seq![HandlerCallV::MoveBackward(n as usize)]
    } else if action == 'd' {
        seq![HandlerCallV::GotoLine((n - 1) as i32)]
    } else if action == 'G' || action == '`' {
        seq![HandlerCallV::GotoCol((n - 1) as usize)]
    } else if action == 'H' || action == 'f' {
        seq![HandlerCallV::Goto((n - 1) as i32, (spec_param_or(ps, 1, 1) - 1) as usize)]
    } else if action == 'h' {
        Seq::new(ps.len(), |j: int| HandlerCallV::SetMode(spec_mode_new(ps[j][0])))
    } else if action == 'J' {
        let m = spec_param_or(ps, 0, 0);
        if m == 0 {
            seq![HandlerCallV::ClearScreen(ScreenClearMode::Below)]
        } else if m == 1 {
            seq![HandlerCallV::ClearScreen(ScreenClearMode::Above)]
        } else if m == 2 {
            seq![HandlerCallV::ClearScreen(ScreenClearMode::All)]
        } else if m == 3 {
            seq![HandlerCallV::ClearScreen(ScreenClearMode::Saved)]
        } else {
            seq![]
        }
    } else if action == 'K' {
        let m = spec_param_or(ps, 0, 0);
        if m == 0 {
            seq![HandlerCallV::ClearLine(LineClearMode::Right)]
        } else if m == 1 {
            seq![HandlerCallV::ClearLine(LineClearMode::Left)]
        } else if m == 2 {
            seq![HandlerCallV::ClearLine(LineClearMode::All)]
        } else {
            seq![]
        }
    } else if action == 'M' {
        seq![HandlerCallV::DeleteLines(n as usize)]
    } else if action == 'm' {
        spec_sgr_calls(ps)
    } else if action == 'P' {
        seq![HandlerCallV::DeleteChars(n as usize)]
    } else if action == 'u' {
        seq![HandlerCallV::RestoreCursorPosition]
    } else if action == 'X' {
        seq![HandlerCallV::EraseChars(n as usize)]
    } else {
        seq![]
    }
}

/// Whether some parameter asks for synchronized updates (mode 2026).
pub open spec fn spec_has_sync_param(ps: Seq<Seq<u16>>) -> bool {
    exists|j: int| 0 <= j < ps.len() && (#[trigger] ps[j])[0] == 2026
}

/// What a control sequence asks of the handler, and whether it starts a
/// synchronized update.
pub open spec fn spec_csi(
    ps: Seq<Seq<u16>>,
    intermediates: Seq<u8>,
    ignore: bool,
    action: char,
    preceding: Option<char>,
) -> (Seq<HandlerCallV>, bool) {
    if ignore || intermediates.len() > MAX_INTERMEDIATES {
        (seq![], false)
    } else if action == 'c' {
        if spec_param_or(ps, 0, 0) == 0 {
            (
                seq![
                    HandlerCallV::IdentifyTerminal(
                        if intermediates.len() > 0 {
                            Some(intermediates[0] as char)
                        } else {
                            None
                        },
                    ),
                ],
                false,
            )
        } else {
            (seq![], false)
        }
    } else if intermediates.len() == 0 {
        (spec_csi_plain(ps, action, preceding), false)
    } else if intermediates == seq![0x3Fu8] {
        if action == 'h' {
            (
                Seq::new(
                    ps.len(),
                    |j: int| HandlerCallV::SetPrivateMode(spec_private_mode_new(ps[j][0])),
                ),
                spec_has_sync_param(ps),
            )
        } else if action == 'u' {
            (seq![HandlerCallV::ReportKeyboardMode], false)
        } else {
            (seq![], false)
        }
    } else if intermediates == seq![0x24u8] && action == 'p' {
        (seq![HandlerCallV::ReportMode(spec_mode_new(spec_param_or(ps, 0, 0)))], false)
    } else {
        (seq![], false)
    }
}

/// Erase in line and erase in display, and the cursor moves. `CSI K` with
/// no parameter or 0 clears from the cursor to the end of the line, with 1
/// from the start of the line to the cursor, with 2 the whole line, and with
/// any other value nothing. `CSI J` clears below the cursor (none or 0),
/// above it (1), the whole screen (2) or the saved lines (3). `CSI A`, `B`,
/// `C` and `D` move up, down, forward and backward by the first value, one
/// when it is missing or 0. None of them starts a synchronized update.
pub proof fn lemma_csi_erase_and_move(ps: Seq<Seq<u16>>, preceding: Option<char>)
    ensures
        ({
            let m: int = if ps.len() == 0 || ps[0].len() == 0 {
                0
            } else {
                ps[0][0] as int
            };
            let n: int = if m == 0 {
                1
            } else {
                m
            };
            let el = spec_csi(ps, seq![], false, 'K', preceding);
            let ed = spec_csi(ps, seq![], false, 'J', preceding);
            &&& !el.1 && !ed.1
            &&& m == 0 ==> el.0 == seq![HandlerCallV::ClearLine(LineClearMode::Right)]
            &&& m == 1 ==> el.0 == seq![HandlerCallV::ClearLine(LineClearMode::Left)]
            &&& m == 2 ==> el.0 == seq![HandlerCallV::ClearLine(LineClearMode::All)]
            &&& m > 2 ==> el.0 == Seq::<HandlerCallV>::empty()
            &&& m == 0 ==> ed.0 == seq![HandlerCallV::ClearScreen(ScreenClearMode::Below)]
            &&& m == 1 ==> ed.0 == seq![HandlerCallV::ClearScreen(ScreenClearMode::Above)]
            &&& m == 2 ==> ed.0 == seq![HandlerCallV::ClearScreen(ScreenClearMode::All)]
            &&& m == 3 ==> ed.0 == seq![HandlerCallV::ClearScreen(ScreenClearMode::Saved)]
            &&& m > 3 ==> ed.0 == Seq::<HandlerCallV>::empty()
            &&& spec_csi(ps, seq![], false, 'A', preceding).0 == seq![
                HandlerCallV::MoveUp(n as usize),
            ]
            &&& spec_csi(ps, seq![], false, 'B', preceding).0 == seq![
                HandlerCallV::MoveDown(n as usize),
            ]
            &&& spec_csi(ps, seq![], false, 'C', preceding).0 == seq![
                HandlerCallV::MoveForward(n as usize),
            ]
            &&& spec_csi(ps, seq![], false, 'D', preceding).0 == seq![
                HandlerCallV::MoveBackward(n as usize),
            ]
        }),
{
}

/// Cursor positioning and the empty SGR: `CSI row ; col H` goes to the
/// 1-based row and column (each 1 when missing or 0), that is to line
/// `row - 1` and column `col - 1`; `CSI m` without parameters resets the
/// attributes.
pub proof fn lemma_csi_goto_and_reset(ps: Seq<Seq<u16>>, preceding: Option<char>)
    ensures
        ({
            let row: int = if ps.len() == 0 || ps[0].len() == 0 || ps[0][0] == 0 {
                1
            } else {
                ps[0][0] as int
            };
            let col: int = if ps.len() < 2 || ps[1].len() == 0 || ps[1][0] == 0 {
                1
            } else {
                ps[1][0] as int
            };
            &&& spec_csi(ps, seq![], false, 'H', preceding).0 == seq![
                HandlerCallV::Goto((row - 1) as i32, (col - 1) as usize),
            ]
            &&& ps.len() == 0 ==> spec_csi(ps, seq![], false, 'm', preceding).0 == seq![
                HandlerCallV::TerminalAttribute(Attribute::Reset),
            ]
        }),
{
}

fn sgr_calls(params: &[Vec<u16>]) -> (r: Vec<HandlerCall>)
    requires
        spec_sgr_readable(u16_seqs(params@), 0),
    ensures
        calls_view(r@) == spec_sgr_calls(u16_seqs(params@)),
{
    let mut out: Vec<HandlerCall> = Vec::new();
    if params.len() == 0 {
        out.push(HandlerCall::TerminalAttribute(Attribute::Reset));
        assert(calls_view(out@) =~= spec_sgr_calls(u16_seqs(params@)));
        return out;
    }
    let attributes = attrs_from_sgr_parameters(params);
    let ghost want = spec_sgr_calls(u16_seqs(params@));
    let mut i: usize = 0;
    while i < attributes.len()
        invariant
            i <= attributes@.len(),
            params@.len() > 0,
            want == spec_sgr_calls(u16_seqs(params@)),
            attributes@ == spec_sgr_attrs(u16_seqs(params@)),
            calls_view(out@) =~= want.take(i as int),
        decreases attributes@.len() - i,
    {
        let ghost prev = calls_view(out@);
        out.push(HandlerCall::TerminalAttribute(attributes[i]));
        assert(calls_view(out@) =~= prev.push(HandlerCallV::TerminalAttribute(attributes@[i as int])));
        assert(want[i as int] == HandlerCallV::TerminalAttribute(attributes@[i as int]));
        assert(want.take(i + 1) =~= want.take(i as int).push(want[i as int]));
        i = i + 1;
    }
    out
}

fn modes_calls(params: &[Vec<u16>], private: bool) -> (r: Vec<HandlerCall>)
    requires
        params_nonempty(u16_seqs(params@)),
    ensures
        !private ==> calls_view(r@) == Seq::new(
            params@.len(),
            |j: int| HandlerCallV::SetMode(spec_mode_new(u16_seqs(params@)[j][0])),
        ),
        private ==> calls_view(r@) == Seq::new(
            params@.len(),
            |j: int| HandlerCallV::SetPrivateMode(spec_private_mode_new(u16_seqs(params@)[j][0])),
        ),
{
    let ghost ps = u16_seqs(params@);
    let mut out: Vec<HandlerCall> = Vec::new();
    let mut i: usize = 0;
    while i < params.len()
        invariant
            i <= params@.len(),
            ps == u16_seqs(params@),
            params_nonempty(ps),
            !private ==> calls_view(out@) =~= Seq::new(
                i as nat,
                |j: int| HandlerCallV::SetMode(spec_mode_new(ps[j][0])),
            ),
            private ==> calls_view(out@) =~= Seq::new(
                i as nat,
                |j: int| HandlerCallV::SetPrivateMode(spec_private_mode_new(ps[j][0])),
            ),
        decreases params@.len() - i,
    {
        assert(ps[i as int].len() > 0);
        let value = params[i][0];
        assert(value == ps[i as int][0]);
        let ghost prev = calls_view(out@);
        if private {
            let call = HandlerCall::SetPrivateMode(PrivateMode::new(value));
            out.push(call);
            assert(calls_view(out@) =~= prev.push(call@));
        } else {
            let call = HandlerCall::SetMode(Mode::new(value));
            out.push(call);
            assert(calls_view(out@) =~= prev.push(call@));
        }
        i = i + 1;
    }
    out
}

fn has_sync_param(params: &[Vec<u16>]) -> (r: bool)
    requires
        params_nonempty(u16_seqs(params@)),
    ensures
        r == spec_has_sync_param(u16_seqs(params@)),
{
    let ghost ps = u16_seqs(params@);
    let mut i: usize = 0;
    while i < params.len()
        invariant
            i <= params@.len(),
            ps == u16_seqs(params@),
            params_nonempty(ps),
            forall|j: int| 0 <= j < i ==> (#[trigger] ps[j])[0] != 2026,
        decreases params@.len() - i,
    {
        assert(ps[i as int].len() > 0);
        if params[i][0] == 2026 {
            assert(ps[i as int][0] == 2026);
            return true;
        }
        i = i + 1;
    }
    false
}

fn repeat_input(c: char, n: u16) -> (r: Vec<HandlerCall>)
    ensures
        calls_view(r@) == Seq::new(n as nat, |j: int| HandlerCallV::Input(c)),
{
    let mut out: Vec<HandlerCall> = Vec::new();
    let mut k: u16 = 0;
    while k < n
        invariant
            k <= n,
            calls_view(out@) =~= Seq::new(k as nat, |j: int| HandlerCallV::Input(c)),
        decreases n - k,
    {
        let ghost prev = calls_view(out@);
        out.push(HandlerCall::Input(c));
        assert(calls_view(out@) =~= prev.push(HandlerCallV::Input(c)));
        k = k + 1;
    }
    out
}

fn csi_plain_calls(params: &[Vec<u16>], action: char, preceding: Option<char>) -> (r: Vec<
    HandlerCall,
>)
    requires
        action == 'h' ==> params_nonempty(u16_seqs(params@)),
        action == 'm' ==> spec_sgr_readable(u16_seqs(params@), 0),
    ensures
        calls_view(r@) == spec_csi_plain(u16_seqs(params@), action, preceding),
{
    let ghost ps = u16_seqs(params@);
    let mut out: Vec<HandlerCall> = Vec::new();
    let n = param_or(params, 0, 1);
    if action == '@' {
        out.push(HandlerCall::InsertBlank(n as usize));
    } else if action == 'A' || action == 'F' {
        out.push(HandlerCall::MoveUp(n as usize));
    } else if action == 'B' || action == 'e' || action == 'E' {
        out.push(HandlerCall::MoveDown(n as usize));
    } else if action == 'b' {
        match preceding {
            Some(c) => {
                out = repeat_input(c, n);
            },
            None => {},
        }
    } else if action == 'C' || action == 'a' {
        out.push(HandlerCall::MoveForward(n as usize));
    } else if action == 'D' {
        out.push(HandlerCall::MoveBackward(n as usize));
    } else if action == 'd' {
        out.push(HandlerCall::GotoLine((n - 1) as i32));
    } else if action == 'G' || action == '`' {
        out.push(HandlerCall::GotoCol((n - 1) as usize));
    } else if action == 'H' || action == 'f' {
        let column = param_or(params, 1, 1);
        out.push(HandlerCall::Goto((n - 1) as i32, (column - 1) as usize));
    } else if action == 'h' {
        out = modes_calls(params, false);
        assert(calls_view(out@) =~= Seq::new(ps.len(), |j: int| HandlerCallV::SetMode(spec_mode_new(ps[j][0]))));
    } else if action == 'J' {
        let m = param_or(params, 0, 0);
        if m == 0 {
            out.push(HandlerCall::ClearScreen(ScreenClearMode::Below));
        } else if m == 1 {
            out.push(HandlerCall::ClearScreen(ScreenClearMode::Above));
        } else if m == 2 {
            out.push(HandlerCall::ClearScreen(ScreenClearMode::All));
        } else if m == 3 {
            out.push(HandlerCall::ClearScreen(ScreenClearMode::Saved));
        }
    } else if action == 'K' {
        let m = param_or(params, 0, 0);
        if m == 0 {
            out.push(HandlerCall::ClearLine(LineClearMode::Right));
        } else if m == 1 {
            out.push(HandlerCall::ClearLine(LineClearMode::Left));
        } else if m == 2 {
            out.push(HandlerCall::ClearLine(LineClearMode::All));
        }
    } else if action == 'M' {
        out.push(HandlerCall::DeleteLines(n as usize));
    } else if action == 'm' {
        out = sgr_calls(params);
        assert(calls_view(out@) =~= spec_sgr_calls(ps));
    } else if action == 'P' {
        out.push(HandlerCall::DeleteChars(n as usize));
    } else if action == 'u' {
        out.push(HandlerCall::RestoreCursorPosition);
    } else if action == 'X' {
        out.push(HandlerCall::EraseChars(n as usize));
    }
    assert(calls_view(out@) =~= spec_csi_plain(ps, action, preceding));
    out
}

/// Whether a control sequence can be carried out: setting modes takes the
/// value of every parameter, and an SGR color specifier takes the value of
/// each parameter that it reads.
pub open spec fn spec_csi_readable(
    ps: Seq<Seq<u16>>,
    intermediates: Seq<u8>,
    ignore: bool,
    action: char,
) -> bool {
    ||| ignore
    ||| intermediates.len() > MAX_INTERMEDIATES
    ||| {
        &&& (intermediates.len() == 0 && action == 'h') ==> params_nonempty(ps)
        &&& (intermediates.len() == 0 && action == 'm') ==> spec_sgr_readable(ps, 0)
        &&& (intermediates == seq![0x3Fu8] && action == 'h') ==> params_nonempty(ps)
    }
}

/// The calls that a control sequence makes, and whether it starts a
/// synchronized update.
pub fn csi_calls(
    params: &[Vec<u16>],
    intermediates: &[u8],
    ignore: bool,
    action: char,
    preceding: Option<char>,
) -> (r: (Vec<HandlerCall>, bool))
    requires
        spec_csi_readable(u16_seqs(params@), intermediates@, ignore, action),
    ensures
        (calls_view(r.0@), r.1) == spec_csi(
            u16_seqs(params@),
            intermediates@,
            ignore,
            action,
            preceding,
        ),
{
    let ghost ps = u16_seqs(params@);
    let mut out: Vec<HandlerCall> = Vec::new();
    if ignore || intermediates.len() > MAX_INTERMEDIATES {
        assert(calls_view(out@) =~= seq![]);
        return (out, false);
    }
    if action == 'c' {
        if param_or(params, 0, 0) == 0 {
            let first = if intermediates.len() > 0 {
                Some(intermediates[0] as char)
            } else {
                None
            };
            out.push(HandlerCall::IdentifyTerminal(first));
        }
        assert(calls_view(out@) =~= spec_csi(ps, intermediates@, ignore, action, preceding).0);
        (out, false)
    } else if intermediates.len() == 0 {
        (csi_plain_calls(params, action, preceding), false)
    } else if intermediates.len() == 1 && intermediates[0] == 0x3F {
        assert(intermediates@ =~= seq![0x3Fu8]);
        if action == 'h' {
            let calls = modes_calls(params, true);
            let sync = has_sync_param(params);
            (calls, sync)
        } else if action == 'u' {
            out.push(HandlerCall::ReportKeyboardMode);
            assert(calls_view(out@) =~= seq![HandlerCallV::ReportKeyboardMode]);
            (out, false)
        } else {
            assert(calls_view(out@) =~= seq![]);
            (out, false)
        }
    } else if intermediates.len() == 1 && intermediates[0] == 0x24 && action == 'p' {
        assert(intermediates@ =~= seq![0x24u8]);
        let mode = Mode::new(param_or(params, 0, 0));
        out.push(HandlerCall::ReportMode(mode));
        assert(calls_view(out@) =~= seq![HandlerCallV::ReportMode(mode)]);
        (out, false)
    } else {
        proof {
            if intermediates@ == seq![0x3Fu8] || intermediates@ == seq![0x24u8] {
                assert(intermediates@.len() == 1);
                assert(intermediates@[0] == seq![0x3Fu8][0] || intermediates@[0] == seq![
                    0x24u8,
                ][0]);
            }
        }
        assert(calls_view(out@) =~= seq![]);
        (out, false)
    }
}

// ---------------------------------------------------------------------------
// Operating system commands
// ---------------------------------------------------------------------------

/// `parts` joined with `sep` between them.
pub open spec fn spec_join(parts: Seq<Seq<u8>>, sep: u8) -> Seq<u8>
    decreases parts.len(),
{
    if parts.len() == 0 {
        seq![]
    } else if parts.len() == 1 {
        parts[0]
    } else {
        spec_join(parts.drop_last(), sep).push(sep) + parts.last()
    }
}

/// Joins `parts` with `sep` between them.
pub fn join_bytes(parts: &[Vec<u8>], sep: u8) -> (r: Vec<u8>)
    ensures
        r@ == spec_join(byte_seqs(parts@), sep),
{
    let ghost ps = byte_seqs(parts@);
    let mut out: Vec<u8> = Vec::new();
    if parts.len() == 0 {
        return out;
    }
    out.extend_from_slice(parts[0].as_slice());
    assert(ps.take(1).drop_last() =~= Seq::<Seq<u8>>::empty());
    assert(out@ =~= spec_join(ps.take(1), sep));
    let mut i: usize = 1;
    while i < parts.len()
        invariant
            1 <= i <= parts@.len(),
            ps == byte_seqs(parts@),
            out@ == spec_join(ps.take(i as int), sep),
        decreases parts@.len() - i,
    {
        assert(ps.take(i + 1).drop_last() =~= ps.take(i as int));
        out.push(sep);
        out.extend_from_slice(parts[i].as_slice());
        assert(out@ =~= spec_join(ps.take(i + 1), sep));
        i = i + 1;
    }
    assert(ps.take(i as int) =~= ps);
    out
}

/// The characters that write `n` in decimal.
pub open spec fn spec_decimal_chars(n: u8) -> Seq<char> {
    if n < 10 {
        seq![(n + 48) as char]
    } else if n < 100 {
        seq![(n / 10 + 48) as char, (n % 10 + 48) as char]
    } else {
        seq![(n / 100 + 48) as char, (n / 10 % 10 + 48) as char, (n % 10 + 48) as char]
    }
}

/// Calls std's `ToString` on a `u8`, which writes it in decimal without
/// leading zeros.
#[verifier::external_body]
fn decimal_string(n: u8) -> (r: String)
    ensures
        r@ == spec_decimal_chars(n),
{
    n.to_string()
}

pub open spec fn starts_with(s: Seq<u8>, prefix: Seq<u8>) -> bool {
    s.len() >= prefix.len() && s.take(prefix.len() as int) == prefix
}

fn bytes_start_with(s: &[u8], prefix: &[u8]) -> (r: bool)
    ensures
        r == starts_with(s@, prefix@),
{
    if s.len() < prefix.len() {
        return false;
    }
    let mut i: usize = 0;
    while i < prefix.len()
        invariant
            i <= prefix@.len() <= s@.len(),
            forall|j: int| 0 <= j < i ==> s@[j] == prefix@[j],
        decreases prefix@.len() - i,
    {
        if s[i] != prefix[i] {
            assert(s@.take(prefix@.len() as int)[i as int] != prefix@[i as int]);
            return false;
        }
        i = i + 1;
    }
    assert(s@.take(prefix@.len() as int) =~= prefix@);
    true
}

fn bytes_equal(s: &[u8], other: &[u8]) -> (r: bool)
    ensures
        r == (s@ == other@),
{
    if s.len() != other.len() {
        return false;
    }
    let r = bytes_start_with(s, other);
    proof {
        if r {
            assert(s@ =~= s@.take(other@.len() as int));
        } else {
            assert(s@.take(other@.len() as int) =~= s@);
        }
    }
    r
}

pub open spec fn https_prefix() -> Seq<u8> {
    seq![0x68u8, 0x74, 0x74, 0x70, 0x73, 0x3A, 0x2F, 0x2F]
}

pub open spec fn http_prefix() -> Seq<u8> {
    seq![0x68u8, 0x74, 0x74, 0x70, 0x3A, 0x2F, 0x2F]
}

pub open spec fn file_prefix() -> Seq<u8> {
    seq![0x66u8, 0x69, 0x6C, 0x65, 0x3A, 0x2F, 0x2F]
}

pub open spec fn mailto_prefix() -> Seq<u8> {
    seq![0x6Du8, 0x61, 0x69, 0x6C, 0x74, 0x6F, 0x3A, 0x2F, 0x2F]
}

pub open spec fn ftp_prefix() -> Seq<u8> {
    seq![0x66u8, 0x74, 0x70, 0x3A, 0x2F, 0x2F]
}

/// `https://`, `http://`, `file://`, `mailto://` or `ftp://` starts `uri`.
pub open spec fn spec_uri_prefixed(uri: Seq<u8>) -> bool {
    ||| starts_with(uri, https_prefix())
    ||| starts_with(uri, http_prefix())
    ||| starts_with(uri, file_prefix())
    ||| starts_with(uri, mailto_prefix())
    ||| starts_with(uri, ftp_prefix())
}

fn uri_prefixed(uri: &[u8]) -> (r: bool)
    ensures
        r == spec_uri_prefixed(uri@),
{
    let https: Vec<u8> = vec![0x68u8, 0x74, 0x74, 0x70, 0x73, 0x3A, 0x2F, 0x2F];
    let http: Vec<u8> = vec![0x68u8, 0x74, 0x74, 0x70, 0x3A, 0x2F, 0x2F];
    let file: Vec<u8> = vec![0x66u8, 0x69, 0x6C, 0x65, 0x3A, 0x2F, 0x2F];
    let mailto: Vec<u8> = vec![0x6Du8, 0x61, 0x69, 0x6C, 0x74, 0x6F, 0x3A, 0x2F, 0x2F];
    let ftp: Vec<u8> = vec![0x66u8, 0x74, 0x70, 0x3A, 0x2F, 0x2F];
    assert(https@ == https_prefix());
    assert(http@ == http_prefix());
    assert(file@ == file_prefix());
    assert(mailto@ == mailto_prefix());
    assert(ftp@ == ftp_prefix());
    bytes_start_with(uri, https.as_slice()) || bytes_start_with(uri, http.as_slice())
        || bytes_start_with(uri, file.as_slice()) || bytes_start_with(uri, mailto.as_slice())
        || bytes_start_with(uri, ftp.as_slice())
}

/// The value after `id=` in the first `:`-separated part that starts with
/// it, when that value is valid UTF-8.
pub open spec fn spec_find_id(parts: Seq<Seq<u8>>, i: int) -> Option<Seq<char>>
    decreases parts.len() - i,
{
    if i < 0 || i >= parts.len() {
        None
    } else if starts_with(parts[i], seq![0x69u8, 0x64, 0x3D]) {
        let value = parts[i].skip(3);
        if valid_utf8(value) {
            Some(decode_utf8(value))
        } else {
            None
        }
    } else {
        spec_find_id(parts, i + 1)
    }
}

/// The `id` of a hyperlink's parameters `key1=value1:key2=value2`.
pub open spec fn spec_link_id(params: Seq<u8>) -> Option<Seq<char>> {
    spec_find_id(spec_split(params, 0x3A), 0)
}

fn link_id(params: &[u8]) -> (r: Option<String>)
    ensures
        (match r {
            Some(s) => Some(s@),
            None => None,
        }) == spec_link_id(params@),
{
    let parts = split_bytes(params, 0x3A);
    let ghost ps = spec_split(params@, 0x3A);
    let id_key: Vec<u8> = vec![0x69u8, 0x64, 0x3D];
    let mut i: usize = 0;
    while i < parts.len()
        invariant
            i <= parts@.len(),
            byte_seqs(parts@) == ps,
            ps == spec_split(params@, 0x3A),
            id_key@ == seq![0x69u8, 0x64, 0x3D],
            spec_find_id(ps, 0) == spec_find_id(ps, i as int),
        decreases parts@.len() - i,
    {
        assert(parts@[i as int]@ == ps[i as int]);
        if bytes_start_with(parts[i].as_slice(), id_key.as_slice()) {
            let value = vstd::slice::slice_subrange(parts[i].as_slice(), 3, parts[i].len());
            assert(value@ =~= ps[i as int].skip(3));
            assert(starts_with(ps[i as int], seq![0x69u8, 0x64, 0x3D]));
            let found = match from_utf8(value) {
                Some(s) => Some(s.to_owned()),
                None => None,
            };
            assert((match found {
                Some(s) => Some(s@),
                None => None,
            }) == spec_find_id(ps, i as int));
            return found;
        }
        i = i + 1;
    }
    None
}

pub open spec fn spec_hyperlink(params: Seq<u8>, uri: Seq<u8>) -> HyperlinkV {
    HyperlinkV {
        id: spec_link_id(params),
        uri: if valid_utf8(uri) {
            decode_utf8(uri)
        } else {
            seq![]
        },
    }
}

/// `4;index;color`: set a color, or query it with `?`.
pub open spec fn spec_osc4_pair(index: Seq<u8>, color: Seq<u8>, bell: bool) -> Seq<HandlerCallV> {
    match spec_parse_number(index) {
        None => seq![],
        Some(ix) => match spec_xparse_color(color) {
            Some(c) => seq![HandlerCallV::SetColor(ix as usize, c)],
            None => if color == seq![0x3Fu8] {
                seq![
                    HandlerCallV::DynamicColorSequence(
                        seq!['4', ';'] + spec_decimal_chars(ix),
                        ix as usize,
                        bell,
                    ),
                ]
            } else {
                seq![]
            },
        },
    }
}

/// The first `n` index/color pairs of `rest`.
pub open spec fn spec_osc4(rest: Seq<Seq<u8>>, n: nat, bell: bool) -> Seq<HandlerCallV>
    decreases n,
{
    if n == 0 {
        seq![]
    } else {
        spec_osc4(rest, (n - 1) as nat, bell) + spec_osc4_pair(
            rest[2 * (n - 1)],
            rest[2 * (n - 1) + 1],
            bell,
        )
    }
}

/// One dynamic color (10 foreground, 11 background, 12 cursor): set, or
/// queried with `?`.
pub open spec fn spec_dynamic_color(param: Seq<u8>, code: u8, bell: bool) -> Seq<HandlerCallV> {
    let index = (256 + code - 10) as usize;
    match spec_xparse_color(param) {
        Some(c) => seq![HandlerCallV::SetColor(index, c)],
        None => if param == seq![0x3Fu8] {
            seq![HandlerCallV::DynamicColorSequence(spec_decimal_chars(code), index, bell)]
        } else {
            seq![]
        },
    }
}

/// The first `n` parameters of a dynamic color command starting at `code`.
pub open spec fn spec_dynamic_colors(rest: Seq<Seq<u8>>, code: u8, n: nat, bell: bool) -> Seq<
    HandlerCallV,
>
    decreases n,
{
    if n == 0 {
        seq![]
    } else {
        spec_dynamic_colors(rest, code, (n - 1) as nat, bell) + spec_dynamic_color(
            rest[n - 1],
            (code + n - 1) as u8,
            bell,
        )
    }
}

/// The first `n` color indexes of `104;...` that parse.
pub open spec fn spec_reset_colors(rest: Seq<Seq<u8>>, n: nat) -> Seq<HandlerCallV>
    decreases n,
{
    if n == 0 {
        seq![]
    } else {
        spec_reset_colors(rest, (n - 1) as nat) + match spec_parse_number(rest[n - 1]) {
            Some(ix) => seq![HandlerCallV::ResetColor(ix as usize)],
            None => seq![],
        }
    }
}

/// `0;title` or `2;title`: the title is the rest joined by `;`.
pub open spec fn spec_osc_title(rest: Seq<Seq<u8>>) -> Seq<HandlerCallV> {
    let title = spec_join(rest, 0x3B);
    if valid_utf8(title) {
        seq![HandlerCallV::SetTitle(Some(decode_utf8(title)))]
    } else {
        seq![]
    }
}

/// `4;index;color;...`: an even, non-zero number of parameters.
pub open spec fn spec_osc_colors(rest: Seq<Seq<u8>>, bell: bool) -> Seq<HandlerCallV> {
    if rest.len() > 0 && rest.len() % 2 == 0 {
        spec_osc4(rest, rest.len() / 2, bell)
    } else {
        seq![]
    }
}

/// `8;params;uri` with a known URI scheme.
pub open spec fn spec_osc_hyperlink(ps: Seq<Seq<u8>>) -> Seq<HandlerCallV> {
    if ps.len() == 3 && spec_uri_prefixed(ps[2]) {
        seq![HandlerCallV::SetHyperlink(Some(spec_hyperlink(ps[1], ps[2])))]
    } else {
        seq![]
    }
}

/// `10;...`, `11;...` or `12;...`: dynamic colors from `code` on, up to the
/// cursor color.
pub open spec fn spec_osc_dynamic(code: u8, rest: Seq<Seq<u8>>, bell: bool) -> Seq<HandlerCallV> {
    let n = if rest.len() < 13 - code {
        rest.len()
    } else {
        (13 - code) as nat
    };
    spec_dynamic_colors(rest, code, n, bell)
}

/// `52;clipboard;data`: store `data`, or load with `?`; the clipboard
/// defaults to `c`.
pub open spec fn spec_osc_clipboard(ps: Seq<Seq<u8>>) -> Seq<HandlerCallV> {
    if ps.len() == 3 {
        let clipboard = if ps[1].len() > 0 {
            ps[1][0]
        } else {
            0x63u8
        };
        if ps[2] == seq![0x3Fu8] {
            seq![HandlerCallV::ClipboardLoad(clipboard)]
        } else {
            seq![HandlerCallV::ClipboardStore(clipboard, ps[2])]
        }
    } else {
        seq![]
    }
}

/// `104;index;...`: reset the listed colors, or all 256 when none is given.
pub open spec fn spec_osc_reset(rest: Seq<Seq<u8>>) -> Seq<HandlerCallV> {
    if rest.len() == 0 || (rest.len() == 1 && rest[0].len() == 0) {
        Seq::new(256, |i: int| HandlerCallV::ResetColor(i as usize))
    } else {
        spec_reset_colors(rest, rest.len())
    }
}

/// What an operating system command asks of the handler.
pub open spec fn spec_osc(ps: Seq<Seq<u8>>, bell: bool) -> Seq<HandlerCallV> {
    if ps.len() == 0 {
        seq![]
    } else {
        let head = ps[0];
        let rest = ps.drop_first();
        if head == seq![0x30u8] || head == seq![0x32u8] {
            spec_osc_title(rest)
        } else if head == seq![0x34u8] {
            spec_osc_colors(rest, bell)
        } else if head == seq![0x38u8] {
            spec_osc_hyperlink(ps)
        } else if head == seq![0x31u8, 0x30] {
            spec_osc_dynamic(10, rest, bell)
        } else if head == seq![0x31u8, 0x31] {
            spec_osc_dynamic(11, rest, bell)
        } else if head == seq![0x31u8, 0x32] {
            spec_osc_dynamic(12, rest, bell)
        } else if head == seq![0x35u8, 0x32] {
            spec_osc_clipboard(ps)
        } else if head == seq![0x31u8, 0x30, 0x34] {
            spec_osc_reset(rest)
        } else if ps.len() == 1 && head == seq![0x31u8, 0x31, 0x30] {
            seq![HandlerCallV::ResetColor(256)]
        } else if ps.len() == 1 && head == seq![0x31u8, 0x31, 0x31] {
            seq![HandlerCallV::ResetColor(257)]
        } else if ps.len() == 1 && head == seq![0x31u8, 0x31, 0x32] {
            seq![HandlerCallV::ResetColor(258)]
        } else {
            seq![]
        }
    }
}

/// OSC 0 and OSC 2 both set the window title: an OSC whose first parameter
/// is `0` asks of the handler what the same OSC with first parameter `2`
/// asks. That is the title made of the remaining parameters joined by `;`
/// when they are valid UTF-8, and nothing otherwise.
pub proof fn lemma_osc_title(ps: Seq<Seq<u8>>, bell: bool)
    requires
        ps.len() > 0,
        ps[0] == seq![0x30u8] || ps[0] == seq![0x32u8],
    ensures
        spec_osc(ps, bell) == spec_osc(ps.update(0, seq![0x32u8]), bell),
        spec_osc(ps, bell) == spec_osc(ps.update(0, seq![0x30u8]), bell),
        valid_utf8(spec_join(ps.drop_first(), 0x3B)) ==> spec_osc(ps, bell) == seq![
            HandlerCallV::SetTitle(Some(decode_utf8(spec_join(ps.drop_first(), 0x3B)))),
        ],
        !valid_utf8(spec_join(ps.drop_first(), 0x3B)) ==> spec_osc(ps, bell)
            == Seq::<HandlerCallV>::empty(),
{
    let two = ps.update(0, seq![0x32u8]);
    let zero = ps.update(0, seq![0x30u8]);
    assert(two.drop_first() =~= ps.drop_first());
    assert(zero.drop_first() =~= ps.drop_first());
    assert(two[0] == seq![0x32u8]);
    assert(zero[0] == seq![0x30u8]);
}

/// The clipboard and color resets of OSC: `52;c;?` asks to load clipboard
/// `c` and `52;c;data` to store `data` in it (clipboard `c` when none is
/// named); `104` with no index resets all 256 indexed colors, and `110`,
/// `111` and `112` reset the foreground, background and cursor colors.
pub proof fn lemma_osc_clipboard_and_reset(ps: Seq<Seq<u8>>, bell: bool)
    ensures
        (ps.len() == 3 && ps[0] == seq![0x35u8, 0x32]) ==> {
            let c = if ps[1].len() > 0 {
                ps[1][0]
            } else {
                0x63u8
            };
            &&& ps[2] == seq![0x3Fu8] ==> spec_osc(ps, bell) == seq![
                HandlerCallV::ClipboardLoad(c),
            ]
            &&& ps[2] != seq![0x3Fu8] ==> spec_osc(ps, bell) == seq![
                HandlerCallV::ClipboardStore(c, ps[2]),
            ]
        },
        (ps.len() == 1 && ps[0] == seq![0x31u8, 0x30, 0x34]) ==> {
            &&& spec_osc(ps, bell).len() == 256
            &&& forall|k: int|
                0 <= k < 256 ==> #[trigger] spec_osc(ps, bell)[k] == HandlerCallV::ResetColor(
                    k as usize,
                )
        },
        (ps.len() == 1 && ps[0] == seq![0x31u8, 0x31, 0x30]) ==> spec_osc(ps, bell) == seq![
            HandlerCallV::ResetColor(256),
        ],
        (ps.len() == 1 && ps[0] == seq![0x31u8, 0x31, 0x31]) ==> spec_osc(ps, bell) == seq![
            HandlerCallV::ResetColor(257),
        ],
        (ps.len() == 1 && ps[0] == seq![0x31u8, 0x31, 0x32]) ==> spec_osc(ps, bell) == seq![
            HandlerCallV::ResetColor(258),
        ],
{
    if ps.len() == 1 && ps[0].len() == 3 {
        let h = ps[0];
        assert(ps.drop_first().len() == 0);
        assert(h != seq![0x30u8] && h != seq![0x32u8] && h != seq![0x34u8] && h != seq![0x38u8]);
        assert(h != seq![0x31u8, 0x30] && h != seq![0x31u8, 0x31] && h != seq![0x31u8, 0x32] && h
            != seq![0x35u8, 0x32]);
        if h == seq![0x31u8, 0x31, 0x30] || h == seq![0x31u8, 0x31, 0x31] || h == seq![
            0x31u8,
            0x31,
            0x32,
        ] {
            assert(h[1] == 0x31);
            assert(h != seq![0x31u8, 0x30, 0x34]);
        }
        if h == seq![0x31u8, 0x31, 0x31] || h == seq![0x31u8, 0x31, 0x32] {
            assert(h[2] != 0x30);
            assert(h != seq![0x31u8, 0x31, 0x30]);
        }
        if h == seq![0x31u8, 0x31, 0x32] {
            assert(h[2] != 0x31);
            assert(h != seq![0x31u8, 0x31, 0x31]);
        }
    }
}

fn is_question_mark(s: &[u8]) -> (r: bool)
    ensures
        r == (s@ == seq![0x3Fu8]),
{
    let r = s.len() == 1 && s[0] == 0x3F;
    proof {
        if s@ == seq![0x3Fu8] {
            assert(s@[0] == seq![0x3Fu8][0]);
        }
        if r {
            assert(s@ =~= seq![0x3Fu8]);
        }
    }
    r
}

fn osc4_pair(index: &[u8], color: &[u8], bell: bool, out: &mut Vec<HandlerCall>)
    ensures
        calls_view(final(out)@) == calls_view(old(out)@) + spec_osc4_pair(index@, color@, bell),
{
    let ghost before = calls_view(out@);
    match parse_number(index) {
        None => {},
        Some(ix) => match xparse_color(color) {
            Some(c) => {
                out.push(HandlerCall::SetColor(ix as usize, c));
            },
            None => {
                if is_question_mark(color) {
                    let mut prefix = "4;".to_owned();
                    let digits = decimal_string(ix);
                    proof {
                        reveal_strlit("4;");
                    }
                    prefix.append(digits.as_str());
                    assert(prefix@ =~= seq!['4', ';'] + spec_decimal_chars(ix));
                    out.push(HandlerCall::DynamicColorSequence(prefix, ix as usize, bell));
                }
            },
        },
    }
    assert(calls_view(out@) =~= before + spec_osc4_pair(index@, color@, bell));
}

fn dynamic_color(param: &[u8], code: u8, bell: bool, out: &mut Vec<HandlerCall>)
    requires
        10 <= code <= 12,
    ensures
        calls_view(final(out)@) == calls_view(old(out)@) + spec_dynamic_color(param@, code, bell),
{
    let ghost before = calls_view(out@);
    let index: usize = 256 + (code - 10) as usize;
    match xparse_color(param) {
        Some(c) => {
            out.push(HandlerCall::SetColor(index, c));
        },
        None => {
            if is_question_mark(param) {
                out.push(HandlerCall::DynamicColorSequence(decimal_string(code), index, bell));
            }
        },
    }
    assert(calls_view(out@) =~= before + spec_dynamic_color(param@, code, bell));
}

fn is_bytes(s: &[u8], a: u8, b: u8, c: u8, len: usize) -> (r: bool)
    requires
        1 <= len <= 3,
    ensures
        r == (s@ == (if len == 1 {
            seq![a]
        } else if len == 2 {
            seq![a, b]
        } else {
            seq![a, b, c]
        })),
{
    let mut want: Vec<u8> = Vec::new();
    want.push(a);
    if len >= 2 {
        want.push(b);
    }
    if len == 3 {
        want.push(c);
    }
    assert(want@ =~= (if len == 1 {
        seq![a]
    } else if len == 2 {
        seq![a, b]
    } else {
        seq![a, b, c]
    }));
    bytes_equal(s, want.as_slice())
}

fn osc_title(rest: &[Vec<u8>]) -> (r: Vec<HandlerCall>)
    ensures
        calls_view(r@) == spec_osc_title(byte_seqs(rest@)),
{
    let mut out: Vec<HandlerCall> = Vec::new();
    let title = join_bytes(rest, 0x3B);
    match from_utf8(title.as_slice()) {
        Some(t) => {
            out.push(HandlerCall::SetTitle(Some(t.to_owned())));
        },
        None => {},
    }
    assert(calls_view(out@) =~= spec_osc_title(byte_seqs(rest@)));
    out
}

fn osc_colors(rest: &[Vec<u8>], bell_terminated: bool) -> (r: Vec<HandlerCall>)
    ensures
        calls_view(r@) == spec_osc_colors(byte_seqs(rest@), bell_terminated),
{
    let ghost rs = byte_seqs(rest@);
    let mut out: Vec<HandlerCall> = Vec::new();
    if rest.len() > 0 && rest.len() % 2 == 0 {
        let total: usize = rest.len();
        let pairs = total / 2;
        let mut k: usize = 0;
        assert(calls_view(out@) =~= spec_osc4(rs, 0, bell_terminated));
        while k < pairs
            invariant
                k <= pairs,
                pairs == rs.len() / 2,
                2 * pairs <= total,
                total == rest@.len(),
                rs.len() == rest@.len(),
                byte_seqs(rest@) == rs,
                calls_view(out@) == spec_osc4(rs, k as nat, bell_terminated),
            decreases pairs - k,
        {
            assert(2 * k + 1 < rest@.len());
            let idx: usize = k + k;
            assert(rest@[idx as int]@ == rs[idx as int]);
            assert(rest@[idx + 1]@ == rs[idx + 1]);
            osc4_pair(rest[idx].as_slice(), rest[idx + 1].as_slice(), bell_terminated, &mut out);
            k = k + 1;
        }
    } else {
        assert(calls_view(out@) =~= seq![]);
    }
    out
}

fn osc_hyperlink(params: &[Vec<u8>]) -> (r: Vec<HandlerCall>)
    ensures
        calls_view(r@) == spec_osc_hyperlink(byte_seqs(params@)),
{
    let ghost ps = byte_seqs(params@);
    let mut out: Vec<HandlerCall> = Vec::new();
    if params.len() == 3 && uri_prefixed(params[2].as_slice()) {
        assert(params@[1]@ == ps[1]);
        assert(params@[2]@ == ps[2]);
        let id = link_id(params[1].as_slice());
        let uri = match from_utf8(params[2].as_slice()) {
            Some(u) => u.to_owned(),
            None => String::new(),
        };
        let link = Hyperlink { id, uri };
        assert(link@ == spec_hyperlink(ps[1], ps[2]));
        out.push(HandlerCall::SetHyperlink(Some(link)));
    }
    assert(calls_view(out@) =~= spec_osc_hyperlink(ps));
    out
}

fn osc_dynamic(code: u8, rest: &[Vec<u8>], bell_terminated: bool) -> (r: Vec<HandlerCall>)
    requires
        10 <= code <= 12,
    ensures
        calls_view(r@) == spec_osc_dynamic(code, byte_seqs(rest@), bell_terminated),
{
    let ghost rs = byte_seqs(rest@);
    let mut out: Vec<HandlerCall> = Vec::new();
    let n: usize = if rest.len() < (13 - code) as usize {
        rest.len()
    } else {
        (13 - code) as usize
    };
    let mut k: usize = 0;
    assert(calls_view(out@) =~= spec_dynamic_colors(rs, code, 0, bell_terminated));
    while k < n
        invariant
            k <= n <= rest@.len(),
            10 <= code <= 12,
            n <= 13 - code,
            byte_seqs(rest@) == rs,
            calls_view(out@) == spec_dynamic_colors(rs, code, k as nat, bell_terminated),
        decreases n - k,
    {
        assert(rest@[k as int]@ == rs[k as int]);
        dynamic_color(rest[k].as_slice(), code + k as u8, bell_terminated, &mut out);
        k = k + 1;
    }
    out
}

fn osc_clipboard(params: &[Vec<u8>]) -> (r: Vec<HandlerCall>)
    ensures
        calls_view(r@) == spec_osc_clipboard(byte_seqs(params@)),
{
    let ghost ps = byte_seqs(params@);
    let mut out: Vec<HandlerCall> = Vec::new();
    if params.len() == 3 {
        assert(params@[1]@ == ps[1]);
        assert(params@[2]@ == ps[2]);
        let clipboard: u8 = if params[1].len() > 0 {
            params[1][0]
        } else {
            0x63
        };
        if is_question_mark(params[2].as_slice()) {
            out.push(HandlerCall::ClipboardLoad(clipboard));
        } else {
            let data = vstd::slice::slice_to_vec(params[2].as_slice());
            out.push(HandlerCall::ClipboardStore(clipboard, data));
        }
    }
    assert(calls_view(out@) =~= spec_osc_clipboard(ps));
    out
}

fn osc_reset(rest: &[Vec<u8>]) -> (r: Vec<HandlerCall>)
    ensures
        calls_view(r@) == spec_osc_reset(byte_seqs(rest@)),
{
    let ghost rs = byte_seqs(rest@);
    let mut out: Vec<HandlerCall> = Vec::new();
    if rest.len() == 0 || (rest.len() == 1 && rest[0].len() == 0) {
        let mut i: usize = 0;
        while i < 256
            invariant
                i <= 256,
                calls_view(out@) =~= Seq::new(i as nat, |j: int| HandlerCallV::ResetColor(j as usize)),
            decreases 256 - i,
        {
            let ghost prev = calls_view(out@);
            out.push(HandlerCall::ResetColor(i));
            assert(calls_view(out@) =~= prev.push(HandlerCallV::ResetColor(i)));
            i = i + 1;
        }
        proof {
            if rest@.len() == 1 {
                assert(rest@[0]@ == rs[0]);
            }
        }
    } else {
        proof {
            if rest@.len() == 1 {
                assert(rest@[0]@ == rs[0]);
            }
        }
        let mut k: usize = 0;
        assert(calls_view(out@) =~= spec_reset_colors(rs, 0));
        while k < rest.len()
            invariant
                k <= rest@.len(),
                byte_seqs(rest@) == rs,
                calls_view(out@) == spec_reset_colors(rs, k as nat),
            decreases rest@.len() - k,
        {
            assert(rest@[k as int]@ == rs[k as int]);
            match parse_number(rest[k].as_slice()) {
                Some(ix) => out.push(HandlerCall::ResetColor(ix as usize)),
                None => {},
            }
            assert(calls_view(out@) =~= spec_reset_colors(rs, (k + 1) as nat));
            k = k + 1;
        }
    }
    out
}

/// The calls that an operating system command makes.
pub fn osc_calls(params: &[Vec<u8>], bell_terminated: bool) -> (r: Vec<HandlerCall>)
    ensures
        calls_view(r@) == spec_osc(byte_seqs(params@), bell_terminated),
{
    let ghost ps = byte_seqs(params@);
    if params.len() == 0 {
        let out: Vec<HandlerCall> = Vec::new();
        assert(calls_view(out@) =~= seq![]);
        return out;
    }
    let head = params[0].as_slice();
    assert(head@ == ps[0]);
    let rest = vstd::slice::slice_subrange(params, 1, params.len());
    assert(byte_seqs(rest@) =~= ps.drop_first());
    if is_bytes(head, 0x30, 0, 0, 1) || is_bytes(head, 0x32, 0, 0, 1) {
        osc_title(rest)
    } else if is_bytes(head, 0x34, 0, 0, 1) {
        osc_colors(rest, bell_terminated)
    } else if is_bytes(head, 0x38, 0, 0, 1) {
        osc_hyperlink(params)
    } else if is_bytes(head, 0x31, 0x30, 0, 2) {
        osc_dynamic(10, rest, bell_terminated)
    } else if is_bytes(head, 0x31, 0x31, 0, 2) {
        osc_dynamic(11, rest, bell_terminated)
    } else if is_bytes(head, 0x31, 0x32, 0, 2) {
        osc_dynamic(12, rest, bell_terminated)
    } else if is_bytes(head, 0x35, 0x32, 0, 2) {
        osc_clipboard(params)
    } else if is_bytes(head, 0x31, 0x30, 0x34, 3) {
        osc_reset(rest)
    } else {
        let mut out: Vec<HandlerCall> = Vec::new();
        if params.len() == 1 && is_bytes(head, 0x31, 0x31, 0x30, 3) {
            out.push(HandlerCall::ResetColor(256));
        } else if params.len() == 1 && is_bytes(head, 0x31, 0x31, 0x31, 3) {
            out.push(HandlerCall::ResetColor(257));
        } else if params.len() == 1 && is_bytes(head, 0x31, 0x31, 0x32, 3) {
            out.push(HandlerCall::ResetColor(258));
        }
        assert(calls_view(out@) =~= spec_osc(ps, bell_terminated));
        out
    }
}

} // verus!
