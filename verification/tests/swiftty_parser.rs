use saiga::swiftty_vte::ansi::processor::Processor;
use saiga::swiftty_vte::executor::Executor;
use saiga::swiftty_vte::osc::MAX_OSC_PARAMS;
use saiga::swiftty_vte::param::{Params, MAX_PARAMS};
use saiga::swiftty_vte::parser::{Dispatch, Parser};

#[derive(Debug, PartialEq, Eq)]
enum Sequence {
    Osc(Vec<Vec<u8>>, bool),
    Csi(Vec<Vec<u16>>, Vec<u8>, bool, char),
    Esc(Vec<u8>, bool, u8),
    DcsHook(Vec<Vec<u16>>, Vec<u8>, bool, char),
    DcsPut(u8),
    DcsUnhook,
}

#[derive(Default)]
struct Dispatcher {
    dispatched: Vec<Sequence>,
}

impl Executor for Dispatcher {
    fn osc_dispatch(&mut self, params: &[&[u8]], bell_terminated: bool) {
        let params = params.iter().map(|p| p.to_vec()).collect();
        self.dispatched.push(Sequence::Osc(params, bell_terminated));
    }

    fn csi_dispatch(&mut self, params: &Params, intermediates: &[u8], ignore: bool, c: char) {
        self.dispatched.push(Sequence::Csi(params.to_vecs(), intermediates.to_vec(), ignore, c));
    }

    fn esc_dispatch(&mut self, intermediates: &[u8], ignore: bool, byte: u8) {
        self.dispatched.push(Sequence::Esc(intermediates.to_vec(), ignore, byte));
    }

    fn hook(&mut self, params: &Params, intermediates: &[u8], ignore: bool, c: char) {
        self.dispatched.push(Sequence::DcsHook(params.to_vecs(), intermediates.to_vec(), ignore, c));
    }

    fn put(&mut self, byte: u8) {
        self.dispatched.push(Sequence::DcsPut(byte));
    }

    fn unhook(&mut self) {
        self.dispatched.push(Sequence::DcsUnhook);
    }

    fn print(&mut self, _c: char) {}

    fn execute(&mut self, _byte: u8) {}
}

fn run(input: &[u8]) -> Vec<Sequence> {
    let mut dispatcher = Dispatcher::default();
    let mut parser = Parser::new();
    for byte in input {
        parser.advance(&mut dispatcher, *byte);
    }
    dispatcher.dispatched
}

static OSC_BYTES: &[u8] = &[
    0x1b, 0x5d, // Begin OSC
    b'2', b';', b'j', b'w', b'i', b'l', b'm', b'@', b'j', b'w', b'i', b'l', b'm', b'-',
    b'd', b'e', b's', b'k', b':', b' ', b'~', b'/', b'c', b'o', b'd', b'e', b'/', b'a',
    b'l', b'a', b'c', b'r', b'i', b't', b't', b'y', 0x9c, // End OSC
];

#[test]
fn lib_parse() {
    let dispatched = run(OSC_BYTES);
    assert_eq!(dispatched.len(), 1);
    match &dispatched[0] {
        Sequence::Osc(params, _) => {
            assert_eq!(params.len(), 2);
            assert_eq!(params[0], &OSC_BYTES[2..3]);
            assert_eq!(params[1], &OSC_BYTES[4..(OSC_BYTES.len() - 1)]);
        }
        _ => panic!("expected osc sequence"),
    }
}

#[test]
fn parse_empty() {
    let dispatched = run(&[0x1b, 0x5d, 0x07]);
    assert_eq!(dispatched.len(), 1);
    match &dispatched[0] {
        Sequence::Osc(..) => (),
        _ => panic!("expected osc sequence"),
    }
}

#[test]
fn lib_parse_max_params() {
    let params = ";".repeat(MAX_PARAMS + 1);
    let input = format!("\x1b]{}\x1b", &params[..]).into_bytes();
    let dispatched = run(&input);
    assert_eq!(dispatched.len(), 1);
    match &dispatched[0] {
        Sequence::Osc(params, _) => {
            assert_eq!(params.len(), MAX_OSC_PARAMS);
            assert!(params.iter().all(Vec::is_empty));
        }
        _ => panic!("expected osc sequence"),
    }
}

#[test]
fn exceed_max_buffer_size() {
    const NUM_BYTES: usize = MAX_OSC_PARAMS + 100;
    let input_start: &[u8] = &[0x1b, b']', b'5', b'2', b';', b's'];
    let input_end: &[u8] = &[b'\x07'];
    let mut dispatcher = Dispatcher::default();
    let mut parser = Parser::new();
    for byte in input_start {
        parser.advance(&mut dispatcher, *byte);
    }
    for _ in 0..NUM_BYTES {
        parser.advance(&mut dispatcher, b'a');
    }
    for byte in input_end {
        parser.advance(&mut dispatcher, *byte);
    }
    assert_eq!(dispatcher.dispatched.len(), 1);
    match &dispatcher.dispatched[0] {
        Sequence::Osc(params, _) => {
            assert_eq!(params.len(), 2);
            assert_eq!(params[0], b"52");
            assert_eq!(params[1].len(), NUM_BYTES + input_end.len());
        }
        _ => panic!("expected osc sequence"),
    }
}

#[test]
fn bell_terminated() {
    let dispatched = run(b"\x1b]11;ff/00/ff\x07");
    assert_eq!(dispatched.len(), 1);
    match &dispatched[0] {
        Sequence::Osc(_, true) => (),
        _ => panic!("expected osc with bell terminator"),
    }
}

#[test]
fn csi_parse_max_params() {
    let params = "1;".repeat(MAX_PARAMS - 1);
    let input = format!("\x1b[{}p", &params[..]).into_bytes();
    let dispatched = run(&input);
    assert_eq!(dispatched.len(), 1);
    match &dispatched[0] {
        Sequence::Csi(params, _, ignore, _) => {
            assert_eq!(params.len(), MAX_PARAMS);
            assert!(!ignore);
        }
        _ => panic!("expected csi sequence"),
    }
}

#[test]
fn parse_params_ignore_long_params() {
    let params = "1;".repeat(MAX_PARAMS);
    let input = format!("\x1b[{}p", &params[..]).into_bytes();
    let dispatched = run(&input);
    assert_eq!(dispatched.len(), 1);
    match &dispatched[0] {
        Sequence::Csi(params, _, ignore, _) => {
            assert_eq!(params.len(), MAX_PARAMS);
            assert!(ignore);
        }
        _ => panic!("expected csi sequence"),
    }
}

#[test]
fn parse_params_trailing_semicolon() {
    let dispatched = run(b"\x1b[4;m");
    assert_eq!(dispatched.len(), 1);
    match &dispatched[0] {
        Sequence::Csi(params, ..) => assert_eq!(params, &[[4], [0]]),
        _ => panic!("expected csi sequence"),
    }
}

#[test]
fn parse_params_leading_semicolon() {
    let dispatched = run(b"\x1b[;4m");
    assert_eq!(dispatched.len(), 1);
    match &dispatched[0] {
        Sequence::Csi(params, ..) => assert_eq!(params, &[[0], [4]]),
        _ => panic!("expected csi sequence"),
    }
}

#[test]
fn parse_long_param() {
    let dispatched = run(b"\x1b[9223372036854775808m");
    assert_eq!(dispatched.len(), 1);
    match &dispatched[0] {
        Sequence::Csi(params, ..) => assert_eq!(params, &[[u16::MAX]]),
        _ => panic!("expected csi sequence"),
    }
}

#[test]
fn lib_reset() {
    let dispatched = run(b"\x1b[3;1\x1b[?1049h");
    assert_eq!(dispatched.len(), 1);
    match &dispatched[0] {
        Sequence::Csi(params, intermediates, ignore, _) => {
            assert_eq!(intermediates, &[b'?']);
            assert_eq!(params, &[[1049]]);
            assert!(!ignore);
        }
        _ => panic!("expected csi sequence"),
    }
}

#[test]
fn subparameters() {
    let dispatched = run(b"\x1b[38:2:255:0:255;1m");
    assert_eq!(dispatched.len(), 1);
    match &dispatched[0] {
        Sequence::Csi(params, intermediates, ignore, _) => {
            assert_eq!(params, &[vec![38, 2, 255, 0, 255], vec![1]]);
            assert!(intermediates.is_empty());
            assert!(!ignore);
        }
        _ => panic!("expected csi sequence"),
    }
}

#[test]
fn params_buffer_filled_with_subparam() {
    let dispatched = run(b"\x1b[::::::::::::::::::::::::::::::::;;;;;;;;;;;;;;;;x\x1b");
    assert_eq!(dispatched.len(), 1);
    match &dispatched[0] {
        Sequence::Csi(params, intermediates, ignore, c) => {
            assert!(intermediates.is_empty());
            let mut expected = vec![vec![0u16; 32]];
            for _ in 0..15 {
                expected.push(vec![0]);
            }
            assert_eq!(*params, expected);
            assert_eq!(c, &'x');
            assert!(ignore);
        }
        _ => panic!("expected csi sequence"),
    }
}

#[test]
fn dcs_parse_max_params() {
    let params = "1;".repeat(MAX_PARAMS + 1);
    let input = format!("\x1bP{}p", &params[..]).into_bytes();
    let dispatched = run(&input);
    assert_eq!(dispatched.len(), 1);
    match &dispatched[0] {
        Sequence::DcsHook(params, _, ignore, _) => {
            assert_eq!(params.len(), MAX_PARAMS);
            assert!(params.iter().all(|param| param == &[1]));
            assert!(ignore);
        }
        _ => panic!("expected dcs sequence"),
    }
}

#[test]
fn dcs_reset() {
    let dispatched = run(b"\x1b[3;1\x1bP1$tx\x9c");
    assert_eq!(dispatched.len(), 3);
    match &dispatched[0] {
        Sequence::DcsHook(params, intermediates, ignore, _) => {
            assert_eq!(intermediates, &[b'$']);
            assert_eq!(params, &[[1]]);
            assert!(!ignore);
        }
        _ => panic!("expected dcs sequence"),
    }
    assert_eq!(dispatched[1], Sequence::DcsPut(b'x'));
    assert_eq!(dispatched[2], Sequence::DcsUnhook);
}

#[test]
fn dcs_parse() {
    let dispatched = run(b"\x1bP0;1|17/ab\x9c");
    assert_eq!(dispatched.len(), 7);
    match &dispatched[0] {
        Sequence::DcsHook(params, _, _, c) => {
            assert_eq!(params, &[[0], [1]]);
            assert_eq!(c, &'|');
        }
        _ => panic!("expected dcs sequence"),
    }
    for (i, byte) in b"17/ab".iter().enumerate() {
        assert_eq!(dispatched[1 + i], Sequence::DcsPut(*byte));
    }
    assert_eq!(dispatched[6], Sequence::DcsUnhook);
}

#[test]
fn intermediate_reset_on_exit() {
    let dispatched = run(b"\x1bP=1sZZZ\x1b+\x5c");
    assert_eq!(dispatched.len(), 6);
    match &dispatched[5] {
        Sequence::Esc(intermediates, ..) => assert_eq!(intermediates, &[b'+']),
        _ => panic!("expected esc sequence"),
    }
}

#[test]
fn esc_reset() {
    let dispatched = run(b"\x1b[3;1\x1b(A");
    assert_eq!(dispatched.len(), 1);
    match &dispatched[0] {
        Sequence::Esc(intermediates, ignore, byte) => {
            assert_eq!(intermediates, &[b'(']);
            assert_eq!(*byte, b'A');
            assert!(!ignore);
        }
        _ => panic!("expected esc sequence"),
    }
}

#[test]
fn step_returns_dispatches() {
    let mut parser = Parser::new();
    assert!(!parser.in_escape_sequence());
    assert!(parser.step(0x1b).is_empty());
    assert!(parser.in_escape_sequence());
    assert_eq!(
        parser.step(b'7'),
        vec![Dispatch::Esc { intermediates: vec![], ignore: false, byte: b'7' }]
    );
    assert!(!parser.in_escape_sequence());
    assert!(!parser.can_step(0xE2));
    assert!(parser.can_step(b'a'));
}

#[derive(Debug, PartialEq)]
enum Action {
    Print(char),
    CsiDispatch { params: Vec<Vec<u16>>, intermediates: Vec<u8>, ignore: bool, action: char },
    Execute(u8),
}

#[derive(Default)]
struct ActionDispatcher {
    actions: Vec<Action>,
}

impl Executor for ActionDispatcher {
    fn print(&mut self, c: char) {
        self.actions.push(Action::Print(c));
    }

    fn csi_dispatch(&mut self, params: &Params, intermediates: &[u8], ignore: bool, action: char) {
        self.actions.push(Action::CsiDispatch {
            params: params.to_vecs(),
            intermediates: intermediates.into(),
            ignore,
            action,
        });
    }

    fn execute(&mut self, byte: u8) {
        self.actions.push(Action::Execute(byte));
    }

    fn put(&mut self, _byte: u8) {
        panic!("unexpected call")
    }

    fn hook(&mut self, _params: &Params, _intermediates: &[u8], _ignore: bool, _action: char) {
        panic!("unexpected call")
    }

    fn unhook(&mut self) {
        panic!("unexpected call")
    }

    fn osc_dispatch(&mut self, _params: &[&[u8]], _bell_terminated: bool) {
        panic!("unexpected call")
    }

    fn esc_dispatch(&mut self, _intermediates: &[u8], _ignore: bool, _byte: u8) {
        panic!("unexpected call")
    }
}

#[test]
fn processor_process_mixed() {
    let mut parser = Parser::new();
    let mut dispatcher = ActionDispatcher::default();
    let mut processor = Processor::new();

    processor.process(&mut parser, &mut dispatcher, b"hello\x07\x1b[38:2:255:0:255;1m");
    processor.process(&mut parser, &mut dispatcher, &[0xD0]);
    processor.process(&mut parser, &mut dispatcher, &[0x96]);
    processor.process(&mut parser, &mut dispatcher, &[0xE6, 0xBC, 0xA2]);
    processor.process(&mut parser, &mut dispatcher, &[0xE6, 0xBC, 0x1B]); // abort utf8 sequence

    assert_eq!(
        dispatcher.actions,
        vec![
            Action::Print('h'),
            Action::Print('e'),
            Action::Print('l'),
            Action::Print('l'),
            Action::Print('o'),
            Action::Execute(0x07),
            Action::CsiDispatch {
                params: vec![vec![38, 2, 255, 0, 255], vec![1]],
                intermediates: vec![],
                ignore: false,
                action: 'm',
            },
            Action::Print('\u{416}'),
            Action::Print('\u{6F22}'),
            Action::Print(char::REPLACEMENT_CHARACTER),
        ]
    );
}

#[test]
fn processor_dispatches_undecodable_bytes_as_replacement() {
    let mut parser = Parser::new();
    let mut processor = Processor::new();
    let d = processor.dispatches(&mut parser, &[0x80, b'a', 0xFF]);
    assert_eq!(
        d,
        vec![
            Dispatch::Print(char::REPLACEMENT_CHARACTER),
            Dispatch::Print('a'),
            Dispatch::Print(char::REPLACEMENT_CHARACTER),
        ]
    );
}
