use saiga::swiftty_backend::ansi;
use saiga::swiftty_backend::processor::{first_index_of_c0, Processor};
use saiga::swiftty_backend::utf::{char_from_utf8, expected_utf8_bytes_count, find_utf8_start, UTF8BytesCount};
use saiga::swiftty_vte::executor::Executor;
use saiga::swiftty_vte::param::Params;
use saiga::swiftty_vte::parser::Parser;

#[derive(Debug, PartialEq)]
enum Action {
    Print(char),
    CsiDispatch { params: Vec<Vec<u16>>, intermediates: Vec<u8>, ignore: bool, action: char },
    Execute(u8),
}

#[derive(Default)]
struct Dispatcher {
    actions: Vec<Action>,
}

impl Executor for Dispatcher {
    fn print(&mut self, c: char) {
        self.actions.push(Action::Print(c));
    }

    fn csi_dispatch(&mut self, params: &Params, intermediates: &[u8], ignore: bool, action: char) {
        self.actions.push(Action::CsiDispatch {
            params: params.to_vecs(),
            intermediates: intermediates.into(),
            ignore,
            action,
        });
    }

    fn execute(&mut self, byte: u8) {
        self.actions.push(Action::Execute(byte));
    }

    fn put(&mut self, _byte: u8) {
        panic!("unexpected call")
    }

    fn hook(&mut self, _params: &Params, _intermediates: &[u8], _ignore: bool, _action: char) {
        panic!("unexpected call")
    }

    fn unhook(&mut self) {
        panic!("unexpected call")
    }

    fn osc_dispatch(&mut self, _params: &[&[u8]], _bell_terminated: bool) {
        panic!("unexpected call")
    }

    fn esc_dispatch(&mut self, _intermediates: &[u8], _ignore: bool, _byte: u8) {
        panic!("unexpected call")
    }
}

#[test]
fn backend_processor_process_mixed() {
    let mut parser = Parser::new();
    let mut dispatcher = Dispatcher::default();
    let mut processor = Processor::new();

    processor.process(&mut parser, &mut dispatcher, b"hello\x07\x1b[38:2:255:0:255;1m");
    processor.process(&mut parser, &mut dispatcher, &[0xD0]);
    processor.process(&mut parser, &mut dispatcher, &[0x96]);
    processor.process(&mut parser, &mut dispatcher, &[0xE6, 0xBC, 0xA2]);
    processor.process(&mut parser, &mut dispatcher, &[0xE6, 0xBC, 0x1B]); // abort utf8 sequence

    assert_eq!(
        dispatcher.actions,
        vec![
            Action::Print('h'),
            Action::Print('e'),
            Action::Print('l'),
            Action::Print('l'),
            Action::Print('o'),
            Action::Execute(0x07),
            Action::CsiDispatch {
                params: vec![vec![38, 2, 255, 0, 255], vec![1]],
                intermediates: vec![],
                ignore: false,
                action: 'm',
            },
            Action::Print('\u{416}'),
            Action::Print('\u{6F22}'),
            Action::Print(char::REPLACEMENT_CHARACTER),
        ]
    );
}

#[test]
fn backend_prints_other_controls_as_text() {
    let mut parser = Parser::new();
    let mut dispatcher = Dispatcher::default();
    let mut processor = Processor::new();
    processor.process(&mut parser, &mut dispatcher, &[0x01, b'x']);
    assert_eq!(dispatcher.actions, vec![Action::Print('\u{1}'), Action::Print('x')]);
}

#[test]
fn c0_searches() {
    assert_eq!(first_index_of_c0(b"abc\x1bdef"), Some(3));
    assert_eq!(first_index_of_c0(b"ab\x01"), None);
    assert_eq!(ansi::first_index_of_c0(b"ab\x01"), Some(2));
    assert_eq!(ansi::first_index_of_c0(b"ab\x7f"), Some(2));
    assert_eq!(ansi::first_index_of_c0(b"abc"), None);
}

#[test]
fn utf_helpers() {
    assert_eq!(find_utf8_start(&[0x80, 0xC1, 0xC2]), Some(2));
    assert_eq!(find_utf8_start(&[0x80, 0xF5]), None);
    assert_eq!(expected_utf8_bytes_count(0x41), Some(UTF8BytesCount::One));
    assert_eq!(expected_utf8_bytes_count(0xDF), Some(UTF8BytesCount::Two));
    assert_eq!(expected_utf8_bytes_count(0xE0), Some(UTF8BytesCount::Three));
    assert_eq!(expected_utf8_bytes_count(0xF4).map(|c| c.count()), Some(4));
    assert_eq!(expected_utf8_bytes_count(0xC0), None);
    assert_eq!(char_from_utf8(&[0xE6, 0xBC, 0xA2, b'a']), '\u{6F22}');
}
