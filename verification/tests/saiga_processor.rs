use saiga::saiga_vte::ansi::executor::{csi_calls, esc_calls, execute_calls, osc_calls, HandlerCall};
use saiga::saiga_vte::ansi::handler::{
    Attribute, Charset, CharsetIndex, Color, Handler, Hyperlink, LineClearMode, Mode, NamedMode,
    NamedPrivateMode, PrivateMode, Rgb, ScreenClearMode,
};
use saiga::saiga_vte::ansi::processor::Processor;

struct MockHandler {
    index: CharsetIndex,
    charset: Charset,
    attr: Option<Attribute>,
    identity_reported: bool,
    color: Option<Rgb>,
    reset_colors: Vec<usize>,
}

impl Handler for MockHandler {
    fn terminal_attribute(&mut self, attr: Attribute) {
        self.attr = Some(attr);
    }

    fn configure_charset(&mut self, index: CharsetIndex, charset: Charset) {
        self.index = index;
        self.charset = charset;
    }

    fn set_active_charset(&mut self, index: CharsetIndex) {
        self.index = index;
    }

    fn identify_terminal(&mut self, _intermediate: Option<char>) {
        self.identity_reported = true;
    }

    fn reset_state(&mut self) {
        *self = Self::default();
    }

    fn set_color(&mut self, _: usize, c: Rgb) {
        self.color = Some(c);
    }

    fn reset_color(&mut self, index: usize) {
        self.reset_colors.push(index)
    }

    fn set_title(&mut self, _arg: Option<String>) {}

    fn input(&mut self, _c: char) {}

    fn goto(&mut self, _line: i32, _col: usize) {}

    fn goto_line(&mut self, _line: i32) {}

    fn goto_col(&mut self, _col: usize) {}

    fn insert_blank(&mut self, _arg: usize) {}

    fn move_up(&mut self, _arg: usize) {}

    fn move_down(&mut self, _arg: usize) {}

    fn move_forward(&mut self, _col: usize) {}

    fn move_backward(&mut self, _col: usize) {}

    fn put_tab(&mut self, _count: u16) {}

    fn backspace(&mut self) {}

    fn carriage_return(&mut self) {}

    fn linefeed(&mut self) {}

    fn bell(&mut self) {}

    fn substitute(&mut self) {}

    fn delete_lines(&mut self, _arg: usize) {}

    fn erase_chars(&mut self, _arg: usize) {}

    fn delete_chars(&mut self, _arg: usize) {}

    fn save_cursor_position(&mut self) {}

    fn restore_cursor_position(&mut self) {}

    fn clear_line(&mut self, _mode: LineClearMode) {}

    fn clear_screen(&mut self, _mode: ScreenClearMode) {}

    fn set_mode(&mut self, _mode: Mode) {}

    fn report_mode(&mut self, _mode: Mode) {}

    fn set_private_mode(&mut self, _mode: PrivateMode) {}

    fn unset_private_mode(&mut self, _mode: PrivateMode) {}

    fn dynamic_color_sequence(&mut self, _prefix: String, _index: usize, _terminator: &str) {}

    fn clipboard_store(&mut self, _clipboard: u8, _data: &[u8]) {}

    fn clipboard_load(&mut self, _clipboard: u8, _terminator: &str) {}

    fn set_hyperlink(&mut self, _arg: Option<Hyperlink>) {}

    fn report_keyboard_mode(&mut self) {}
}

impl Default for MockHandler {
    fn default() -> MockHandler {
        MockHandler {
            index: CharsetIndex::G0,
            charset: Charset::Ascii,
            attr: None,
            identity_reported: false,
            color: None,
            reset_colors: Vec::new(),
        }
    }
}

#[test]
fn parse_control_attribute() {
    let bytes: &[u8] = &[0x1b, b'[', b'1', b'm'];
    let mut parser = Processor::new();
    let mut handler = MockHandler::default();
    parser.advance(&mut handler, bytes);
    assert_eq!(handler.attr, Some(Attribute::Bold));
}

#[test]
fn parse_terminal_identity_csi() {
    let bytes: &[u8] = &[0x1b, b'[', b'1', b'c'];
    let mut parser = Processor::new();
    let mut handler = MockHandler::default();
    parser.advance(&mut handler, bytes);
    assert!(!handler.identity_reported);
    handler.reset_state();

    let bytes: &[u8] = &[0x1b, b'[', b'c'];
    parser.advance(&mut handler, bytes);
    assert!(handler.identity_reported);
    handler.reset_state();

    let bytes: &[u8] = &[0x1b, b'[', b'0', b'c'];
    parser.advance(&mut handler, bytes);
    assert!(handler.identity_reported);
}

#[test]
fn parse_terminal_identity_esc() {
    let bytes: &[u8] = &[0x1b, b'Z'];
    let mut parser = Processor::new();
    let mut handler = MockHandler::default();
    parser.advance(&mut handler, bytes);
    assert!(handler.identity_reported);
    handler.reset_state();

    let bytes: &[u8] = &[0x1b, b'#', b'Z'];
    let mut parser = Processor::new();
    let mut handler = MockHandler::default();
    parser.advance(&mut handler, bytes);
    assert!(!handler.identity_reported);
    handler.reset_state();
}

#[test]
fn parse_truecolor_attr() {
    let bytes: &[u8] = &[
        0x1b, b'[', b'3', b'8', b';', b'2', b';', b'1', b'2', b'8', b';', b'6', b'6', b';', b'2',
        b'5', b'5', b'm',
    ];
    let mut parser = Processor::new();
    let mut handler = MockHandler::default();
    parser.advance(&mut handler, bytes);
    let spec = Rgb { r: 128, g: 66, b: 255 };
    assert_eq!(handler.attr, Some(Attribute::Foreground(Color::Spec(spec))));
}

#[test]
fn parse_zsh_startup() {
    let bytes: &[u8] = &[
            0x1b, b'[', b'1', b'm', 0x1b, b'[', b'7', b'm', b'%', 0x1b, b'[', b'2', b'7', b'm',
            0x1b, b'[', b'1', b'm', 0x1b, b'[', b'0', b'm', b' ', b' ', b' ', b' ', b' ', b' ',
            b' ', b' ', b' ', b' ', b' ', b' ', b' ', b' ', b' ', b' ', b' ', b' ', b' ', b' ',
            b' ', b' ', b' ', b' ', b' ', b' ', b' ', b' ', b' ', b' ', b' ', b' ', b' ', b' ',
            b' ', b' ', b' ', b' ', b' ', b' ', b' ', b' ', b' ', b' ', b' ', b' ', b' ', b' ',
            b' ', b' ', b' ', b' ', b' ', b' ', b' ', b' ', b' ', b' ', b' ', b' ', b' ', b' ',
            b' ', b' ', b' ', b' ', b' ', b' ', b' ', b' ', b' ', b' ', b' ', b' ', b' ', b' ',
            b' ', b' ', b' ', b'\r', b' ', b'\r', b'\r', 0x1b, b'[', b'0', b'm', 0x1b, b'[', b'2',
            b'7', b'm', 0x1b, b'[', b'2', b'4', b'm', 0x1b, b'[', b'J', b'j', b'w', b'i', b'l',
            b'm', b'@', b'j', b'w', b'i', b'l', b'm', b'-', b'd', b'e', b's', b'k', b' ', 0x1b,
            b'[', b'0', b'1', b';', b'3', b'2', b'm', 0xe2, 0x9e, 0x9c, b' ', 0x1b, b'[', b'0',
            b'1', b';', b'3', b'2', b'm', b' ', 0x1b, b'[', b'3', b'6', b'm', b'~', b'/', b'c',
            b'o', b'd', b'e',
        ];
    let mut handler = MockHandler::default();
    let mut parser = Processor::new();
    parser.advance(&mut handler, bytes);
}

#[test]
fn parse_designate_g0_as_line_drawing() {
    let bytes: &[u8] = &[0x1b, b'(', b'0'];
    let mut parser = Processor::new();
    let mut handler = MockHandler::default();
    parser.advance(&mut handler, bytes);
    assert_eq!(handler.index, CharsetIndex::G0);
    assert_eq!(handler.charset, Charset::SpecialCharacterAndLineDrawing);
}

#[test]
fn parse_designate_g1_as_line_drawing_and_invoke() {
    let bytes: &[u8] = &[0x1b, b')', b'0', 0x0e];
    let mut parser = Processor::new();
    let mut handler = MockHandler::default();
    parser.advance(&mut handler, &bytes[..3]);
    assert_eq!(handler.index, CharsetIndex::G1);
    assert_eq!(handler.charset, Charset::SpecialCharacterAndLineDrawing);

    let mut handler = MockHandler::default();
    parser.advance(&mut handler, &[bytes[3]]);
    assert_eq!(handler.index, CharsetIndex::G1);
}

#[test]
fn parse_osc4_set_color() {
    let bytes: &[u8] = b"\x1b]4;0;#fff\x1b\\";
    let mut parser = Processor::new();
    let mut handler = MockHandler::default();
    parser.advance(&mut handler, bytes);
    assert_eq!(handler.color, Some(Rgb { r: 0xf0, g: 0xf0, b: 0xf0 }));
}

#[test]
fn parse_osc104_reset_color() {
    let bytes: &[u8] = b"\x1b]104;1;\x1b\\";
    let mut parser = Processor::new();
    let mut handler = MockHandler::default();
    parser.advance(&mut handler, bytes);
    assert_eq!(handler.reset_colors, vec![1]);
}

#[test]
fn parse_osc104_reset_all_colors() {
    let bytes: &[u8] = b"\x1b]104;\x1b\\";
    let mut parser = Processor::new();
    let mut handler = MockHandler::default();
    parser.advance(&mut handler, bytes);
    let expected: Vec<usize> = (0..256).collect();
    assert_eq!(handler.reset_colors, expected);
}

#[test]
fn parse_osc104_reset_all_colors_no_semicolon() {
    let bytes: &[u8] = b"\x1b]104\x1b\\";
    let mut parser = Processor::new();
    let mut handler = MockHandler::default();
    parser.advance(&mut handler, bytes);
    let expected: Vec<usize> = (0..256).collect();
    assert_eq!(handler.reset_colors, expected);
}

#[test]
fn process_returns_calls_and_tracks_preceding_char() {
    let mut processor = Processor::new();
    let calls = processor.process(b"x\x1b[3b");
    assert_eq!(
        calls,
        vec![
            HandlerCall::Input('x'),
            HandlerCall::Input('x'),
            HandlerCall::Input('x'),
            HandlerCall::Input('x'),
        ]
    );
}

#[test]
fn synchronized_update_holds_bytes_until_end() {
    let mut processor = Processor::new();
    let calls = processor.process(b"\x1b[?2026h");
    assert_eq!(calls, vec![HandlerCall::SetPrivateMode(PrivateMode::Named(NamedPrivateMode::SyncUpdate))]);
    assert!(processor.sync_timeout().sync_timeout().is_some());
    assert!(processor.process(b"ab").is_empty());
    assert_eq!(processor.sync_bytes_count(), 2);
    let calls = processor.process(b"\x1b[?2026l");
    assert_eq!(
        calls,
        vec![
            HandlerCall::Input('a'),
            HandlerCall::Input('b'),
            HandlerCall::UnsetPrivateMode(PrivateMode::Named(NamedPrivateMode::SyncUpdate)),
        ]
    );
    assert_eq!(processor.sync_bytes_count(), 0);
    assert!(processor.sync_timeout().sync_timeout().is_none());
}

#[test]
fn execute_and_esc_calls() {
    assert_eq!(execute_calls(0x09), vec![HandlerCall::PutTab(1)]);
    assert_eq!(execute_calls(0x0B), vec![HandlerCall::Linefeed]);
    assert!(execute_calls(0x01).is_empty());
    assert_eq!(esc_calls(&[], b'E'), vec![HandlerCall::Linefeed, HandlerCall::CarriageReturn]);
    assert_eq!(esc_calls(&[b'*'], b'B'), vec![HandlerCall::ConfigureCharset(CharsetIndex::G2, Charset::Ascii)]);
    assert!(esc_calls(&[b'!'], b'B').is_empty());
}

#[test]
fn csi_calls_examples() {
    let p = |v: &[&[u16]]| v.iter().map(|x| x.to_vec()).collect::<Vec<_>>();
    assert_eq!(csi_calls(&p(&[&[5], &[0]]), &[], false, 'H', None).0, vec![HandlerCall::Goto(4, 0)]);
    assert_eq!(csi_calls(&p(&[&[2]]), &[], false, 'J', None).0, vec![HandlerCall::ClearScreen(ScreenClearMode::All)]);
    assert!(csi_calls(&p(&[&[9]]), &[], false, 'J', None).0.is_empty());
    assert!(csi_calls(&p(&[&[1]]), &[], true, 'A', None).0.is_empty());
    assert_eq!(csi_calls(&p(&[&[4], &[7]]), &[], false, 'h', None).0, vec![HandlerCall::SetMode(Mode::Named(NamedMode::Insert)), HandlerCall::SetMode(Mode::Unknown(7))]);
    assert_eq!(csi_calls(&p(&[&[0]]), &[], false, 'm', None).0, vec![HandlerCall::TerminalAttribute(Attribute::Reset)]);
    assert_eq!(csi_calls(&p(&[&[3]]), &[b'$'], false, 'p', None).0, vec![HandlerCall::ReportMode(Mode::Unknown(3))]);
    let (calls, sync) = csi_calls(&p(&[&[1], &[2026]]), &[b'?'], false, 'h', None);
    assert_eq!(calls.len(), 2);
    assert!(sync);
}

#[test]
fn osc_calls_examples() {
    let p = |v: &[&[u8]]| v.iter().map(|x| x.to_vec()).collect::<Vec<_>>();
    assert_eq!(osc_calls(&p(&[b"2", b"a", b"b"]), true), vec![HandlerCall::SetTitle(Some("a;b".to_string()))]);
    assert_eq!(osc_calls(&p(&[b"4", b"1", b"?"]), true), vec![HandlerCall::DynamicColorSequence("4;1".to_string(), 1, true)]);
    assert_eq!(osc_calls(&p(&[b"4", b"1"]), true), vec![]);
    assert_eq!(
        osc_calls(&p(&[b"8", b"a=b:id=xy", b"https://x"]), false),
        vec![HandlerCall::SetHyperlink(Some(Hyperlink { id: Some("xy".to_string()), uri: "https://x".to_string() }))]
    );
    assert_eq!(osc_calls(&p(&[b"8", b"", b"gopher://x"]), false), vec![]);
    assert_eq!(
        osc_calls(&p(&[b"11", b"?", b"#000", b"x", b"?"]), false),
        vec![
            HandlerCall::DynamicColorSequence("11".to_string(), 257, false),
            HandlerCall::SetColor(258, Rgb { r: 0, g: 0, b: 0 }),
        ]
    );
    assert_eq!(osc_calls(&p(&[b"52", b"", b"?"]), false), vec![HandlerCall::ClipboardLoad(b'c')]);
    assert_eq!(osc_calls(&p(&[b"52", b"p", b"aGk="]), false), vec![HandlerCall::ClipboardStore(b'p', b"aGk=".to_vec())]);
    assert_eq!(osc_calls(&p(&[b"112"]), false), vec![HandlerCall::ResetColor(258)]);
    assert_eq!(osc_calls(&p(&[b"112", b""]), false), vec![]);
}
