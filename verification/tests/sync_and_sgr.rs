use saiga::saiga_vte::ansi::executor::{csi_calls, HandlerCall};
use saiga::saiga_vte::ansi::handler::{Attribute, Color, NamedPrivateMode, PrivateMode};
use saiga::saiga_vte::ansi::processor::{attrs_from_sgr_parameters, Processor};

#[test]
fn expired_update_parses_at_once() {
    let mut processor = Processor::new();
    processor.process(b"\x1b[?2026h");
    // While the deadline has not passed the bytes are held back.
    assert!(processor.process_with_timeout(b"a", true).is_empty());
    assert_eq!(processor.sync_bytes_count(), 1);
    // Once it has passed they are parsed as they come.
    assert_eq!(processor.process_with_timeout(b"b", false), vec![HandlerCall::Input('b')]);
    // Ending the update hands over what was held.
    assert_eq!(
        processor.end_sync(),
        vec![
            HandlerCall::Input('a'),
            HandlerCall::UnsetPrivateMode(PrivateMode::Named(NamedPrivateMode::SyncUpdate)),
        ]
    );
    assert_eq!(processor.sync_bytes_count(), 0);
    assert!(processor.sync_timeout().sync_timeout().is_none());
}

#[test]
fn empty_sgr_parameters_set_nothing() {
    assert_eq!(attrs_from_sgr_parameters(&[vec![], vec![1]]), vec![Attribute::Bold]);
    assert_eq!(
        attrs_from_sgr_parameters(&[vec![38], vec![5], vec![100], vec![], vec![3]]),
        vec![Attribute::Foreground(Color::Indexed(100)), Attribute::Italic]
    );
    // The value after a lone 38 that is neither 2 nor 5 ends the specifier.
    assert_eq!(attrs_from_sgr_parameters(&[vec![38], vec![7], vec![]]), vec![]);
    assert_eq!(
        csi_calls(&[vec![], vec![4]], &[], false, 'm', None).0,
        vec![HandlerCall::TerminalAttribute(Attribute::Underline)]
    );
}
