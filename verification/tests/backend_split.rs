use saiga::swiftty_backend::action::{index_of, Action, Dispatcher};
use saiga::swiftty_vte::parser::Parser;
use saiga::swiftty_backend::backend::{Backend, Executor, Step};

#[test]
fn executor_splits_ascii_into_single_bytes() {
    let mut executor = Executor::new();
    assert_eq!(
        executor.split(b"hi"),
        vec![Step::Text(b"h".to_vec()), Step::Text(b"i".to_vec())]
    );
    assert_eq!(executor.split(b""), vec![]);
}

#[test]
fn executor_split_keeps_a_whole_character() {
    let mut executor = Executor::new();
    assert_eq!(executor.split("é".as_bytes()), vec![Step::Text(vec![0xC3, 0xA9])]);
}

#[test]
fn executor_split_sizes_chunks_by_the_first_byte() {
    // Every chunk is as long as the character that the first byte starts;
    // where no start is left, the whole input goes to the parser.
    let mut executor = Executor::new();
    assert_eq!(
        executor.split("aé".as_bytes()),
        vec![
            Step::Text(vec![b'a']),
            Step::Text(vec![0xC3]),
            Step::Advance(b'a'),
            Step::Advance(0xC3),
            Step::Advance(0xA9),
        ]
    );
    // Bytes before a start come from the front of the input.
    assert_eq!(
        executor.split(&[0x1B, 0x80, 0x42]),
        vec![Step::Text(vec![0x1B]), Step::Advance(0x1B), Step::Text(vec![0x42])]
    );
}

#[test]
fn backend_returns_text_chunks() {
    let mut backend = Backend::new();
    assert_eq!(backend.process(&[0x1B, 0x80, 0x42]), vec![vec![0x1B], vec![0x42]]);
    let mut backend = Backend::default();
    assert_eq!(backend.process(b"ok"), vec![b"o".to_vec(), b"k".to_vec()]);
}

#[test]
fn dispatcher_and_index_of() {
    let mut dispatcher = Dispatcher::new();
    assert!(dispatcher.take_dispatched_actions().is_empty());
    assert!(Dispatcher::default().take_dispatched_actions().is_empty());
    assert_eq!(index_of(b"ab\x1bc\x1b", 0x1B), Some(2));
    assert_eq!(index_of(b"abc", 0x1B), None);
    assert_eq!(index_of(b"", 0x1B), None);
}

#[test]
fn dispatcher_records_inside_escape_sequences() {
    let mut parser = Parser::new();
    for byte in b"\x1bPq" {
        parser.step(*byte);
    }
    let mut dispatcher = Dispatcher::new();
    dispatcher.process(&mut parser, b"ab\x1b");
    assert_eq!(
        dispatcher.take_dispatched_actions(),
        vec![Action::Put(b'a'), Action::Put(b'b'), Action::Unhook]
    );
    assert!(parser.in_escape_sequence());

    let mut parser = Parser::new();
    for byte in b"\x1b[" {
        parser.step(*byte);
    }
    dispatcher.process(&mut parser, b"\x07");
    assert_eq!(dispatcher.take_dispatched_actions(), vec![Action::Execute(0x07)]);
    dispatcher.process(&mut parser, b"");
    assert!(dispatcher.take_dispatched_actions().is_empty());
}
