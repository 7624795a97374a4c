use saiga::saiga_input::encoder::{ctrl_seq, pc_style_function_key, Encoder};
use saiga::saiga_input::function_keys::{get_key_entries, modifiers, ModifyKeys};
use saiga::saiga_input::key::{Action, Key, KeyEvent, Mods};
use winit::keyboard::{KeyCode, NativeKeyCode, PhysicalKey};

#[test]
fn from_ascii_reads_keys_back() {
    assert_eq!(Key::from_ascii(b'a'), Some(Key::A));
    assert_eq!(Key::from_ascii(b'0'), Some(Key::Zero));
    assert_eq!(Key::from_ascii(b'\t'), Some(Key::Tab));
    assert_eq!(Key::from_ascii(b'*'), None);
    assert_eq!(Key::from_ascii(0xE9), None);
    assert_eq!(Key::KP1.char(), Some('1'));
    assert_eq!(Key::from_ascii(b'1'), Some(Key::One));
}

#[test]
fn key_classes() {
    assert!(Key::A.is_printable());
    assert!(!Key::Up.is_printable());
    assert!(Key::RightShift.is_shift() && Key::RightShift.is_modifier());
    assert!(Key::LeftAlt.is_alt());
    assert!(Key::LeftControl.is_control());
    assert!(Key::RightSuper.is_super());
    assert!(!Key::A.is_modifier());
    assert!(Key::KPEnter.is_keypad());
    assert!(!Key::Enter.is_keypad());
}

#[test]
fn mods_sets() {
    let m = Mods::left_shift().union(Mods::right_ctrl());
    assert_eq!(m.bits(), 0x21);
    assert!(m.contains(Mods::right_ctrl()));
    assert!(!m.contains(Mods::left_ctrl()));
    assert_eq!(m.difference(Mods::left_shift()).bits(), 0x20);
    let mut n = m;
    n.remove(Mods::right_ctrl());
    assert_eq!(n.bits(), 0x01);
    assert!(Mods::empty().is_empty());
}

#[test]
fn effective_mods_drop_consumed_ones_with_text() {
    let mut event = KeyEvent::new_default();
    event.mods = Mods::left_shift().union(Mods::left_ctrl());
    event.consumed_mods = Mods::left_shift();
    assert_eq!(event.effective_mods().bits(), 0x03);
    event.utf8 = "A";
    assert_eq!(event.effective_mods().bits(), 0x02);
}

#[test]
fn modifier_table() {
    let mods: Vec<u8> = modifiers().iter().map(|m| m.bits()).collect();
    assert_eq!(mods, vec![1, 4, 5, 2, 3, 6, 7, 8, 9, 12, 13, 10, 11, 14, 15]);
}

#[test]
fn function_key_entries() {
    let up = get_key_entries(Key::Up);
    assert_eq!(up.len(), 15);
    assert_eq!(up[3].mods.bits(), 0x02);
    assert_eq!(up[3].sequence.as_bytes(), b"\x1b[1;5A");
    assert_eq!(up[14].sequence.as_bytes(), b"\x1b[1;16A");
    let tab = get_key_entries(Key::Tab);
    assert_eq!(tab.len(), 3);
    assert_eq!(tab[0].modify_other_keys, ModifyKeys::IsSet);
    assert!(get_key_entries(Key::A).is_empty());
}

#[test]
fn pc_style_keys() {
    assert_eq!(pc_style_function_key(Key::Up, Mods::left_ctrl(), false), Some(b"\x1b[1;5A".to_vec()));
    assert_eq!(pc_style_function_key(Key::Up, Mods::empty(), false), None);
    assert_eq!(pc_style_function_key(Key::Tab, Mods::left_shift(), false), Some(b"\x1b[Z".to_vec()));
    assert_eq!(pc_style_function_key(Key::Tab, Mods::left_shift(), true), Some(b"\x1b[27;2;9~".to_vec()));
    assert_eq!(pc_style_function_key(Key::Backspace, Mods::empty(), false), Some(vec![0x7f]));
    assert_eq!(pc_style_function_key(Key::Backspace, Mods::left_ctrl(), false), Some(vec![0x08]));
    assert_eq!(pc_style_function_key(Key::Enter, Mods::left_alt(), false), Some(b"\r".to_vec()));
}

#[test]
fn ctrl_sequences() {
    assert_eq!(ctrl_seq(Key::C, "", '\0', Mods::left_ctrl()), Some(vec![0x03]));
    assert_eq!(ctrl_seq(Key::C, "c", '\0', Mods::right_ctrl().union(Mods::left_alt())), Some(vec![0x03]));
    assert_eq!(ctrl_seq(Key::C, "", '\0', Mods::empty()), None);
    assert_eq!(ctrl_seq(Key::C, "", '\0', Mods::left_ctrl().union(Mods::left_super())), None);
    assert_eq!(ctrl_seq(Key::Two, "", '\0', Mods::left_ctrl()), Some(vec![0x00]));
    // Shift drops out for characters that are not capital letters.
    assert_eq!(ctrl_seq(Key::A, "_", '\0', Mods::left_ctrl().union(Mods::left_shift())), Some(vec![31]));
    // A capital letter with Shift still held is not a control byte.
    assert_eq!(ctrl_seq(Key::A, "A", 'a', Mods::left_ctrl().union(Mods::left_shift())), None);
    assert_eq!(ctrl_seq(Key::I, "", '\0', Mods::left_ctrl()), None);
}

#[test]
fn encode_events() {
    let mut event = KeyEvent::new_default();
    event.key = Key::C;
    event.mods = Mods::left_ctrl();
    let encoder = Encoder { event, modify_other_keys_state_2: false };
    assert_eq!(encoder.encode(), Some(vec![0x03]));

    let mut event = KeyEvent::new_default();
    event.key = Key::C;
    event.mods = Mods::left_ctrl();
    event.action = Action::Release;
    let encoder = Encoder { event, modify_other_keys_state_2: false };
    assert_eq!(encoder.encode(), None);

    let mut event = KeyEvent::new_default();
    event.key = Key::Left;
    event.mods = Mods::left_shift();
    let encoder = Encoder { event, modify_other_keys_state_2: false };
    assert_eq!(encoder.encode(), Some(b"\x1b[1;2D".to_vec()));
}

#[test]
fn physical_keys() {
    assert_eq!(Key::from(PhysicalKey::Code(KeyCode::KeyQ)), Key::Q);
    assert_eq!(Key::from(PhysicalKey::Code(KeyCode::Numpad7)), Key::KP7);
    assert_eq!(Key::from(PhysicalKey::Code(KeyCode::F25)), Key::F25);
    assert_eq!(Key::from(PhysicalKey::Code(KeyCode::MediaPlayPause)), Key::Invalid);
    assert_eq!(Key::from(PhysicalKey::Unidentified(NativeKeyCode::Xkb(5))), Key::Invalid);
}
