use saiga::saiga_vte::ansi::executor::HandlerCall;
use saiga::saiga_vte::ansi::processor::Processor as HandlerProcessor;
use saiga::swiftty_backend::processor::Processor as BackendProcessor;
use saiga::swiftty_vte::ansi::processor::Processor;
use saiga::swiftty_vte::parser::{Dispatch, Parser};

const TEXT: &str = "héllo wörld €100 😀!";

fn prints(text: &str) -> Vec<Dispatch> {
    text.chars().map(Dispatch::Print).collect()
}

#[test]
fn text_is_printed_character_by_character() {
    let mut parser = Parser::new();
    let mut processor = Processor::new();
    assert_eq!(processor.dispatches(&mut parser, TEXT.as_bytes()), prints(TEXT));
    assert!(!processor.has_unfinished_char());
    assert!(!parser.in_escape_sequence());
}

#[test]
fn a_stream_may_be_cut_anywhere() {
    let bytes = b"ab\xC3\xA9\x1b[1;2mc\xE2\x82\xAC\x07d\xF0\x9F\x98\x80";
    let mut parser = Parser::new();
    let mut processor = Processor::new();
    let whole = processor.dispatches(&mut parser, bytes);
    for cut in 0..=bytes.len() {
        let mut parser = Parser::new();
        let mut processor = Processor::new();
        let mut parts = processor.dispatches(&mut parser, &bytes[..cut]);
        parts.extend(processor.dispatches(&mut parser, &bytes[cut..]));
        assert_eq!(parts, whole, "cut at {}", cut);
    }
}

#[test]
fn backend_processor_prints_text() {
    let mut parser = Parser::new();
    let mut processor = BackendProcessor::new();
    let mut out = Vec::new();
    for byte in TEXT.as_bytes() {
        out.extend(processor.feed(&mut parser, *byte));
    }
    assert_eq!(out, prints(TEXT));
    assert!(!processor.has_unfinished_char());
}

#[test]
fn handler_processor_inputs_text_in_any_chunks() {
    let expected: Vec<HandlerCall> = TEXT.chars().map(HandlerCall::Input).collect();
    let mut processor = HandlerProcessor::new();
    assert_eq!(processor.process(TEXT.as_bytes()), expected);
    let bytes = TEXT.as_bytes();
    for cut in 0..=bytes.len() {
        let mut processor = HandlerProcessor::new();
        let mut calls = processor.process(&bytes[..cut]);
        calls.extend(processor.process(&bytes[cut..]));
        assert_eq!(calls, expected, "cut at {}", cut);
    }
}
