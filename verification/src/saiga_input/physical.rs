use vstd::prelude::*;
use winit::keyboard::{KeyCode, NativeKeyCode, PhysicalKey};

use super::key::Key;

verus! {

#[verifier::external_type_specification]
pub struct ExNativeKeyCode(NativeKeyCode);

#[verifier::external_type_specification]
pub struct ExKeyCode(KeyCode);

#[verifier::external_type_specification]
pub struct ExPhysicalKey(PhysicalKey);

/// The key at a physical key code; codes without a key give
/// [`Key::Invalid`].
pub open spec fn spec_key_from_code(code: KeyCode) -> Key {
    match code {
        KeyCode::Backquote => Key::GraveAccent,
        KeyCode::Backslash => Key::Backslash,
        KeyCode::BracketLeft => Key::LeftBracket,
        KeyCode::BracketRight => Key::RightBracket,
        KeyCode::Comma => Key::Comma,
        KeyCode::Digit0 => Key::Zero,
        KeyCode::Digit1 => Key::One,
        KeyCode::Digit2 => Key::Two,
        KeyCode::Digit3 => Key::Three,
        KeyCode::Digit4 => Key::Four,
        KeyCode::Digit5 => Key::Five,
        KeyCode::Digit6 => Key::Six,
        KeyCode::Digit7 => Key::Seven,
        KeyCode::Digit8 => Key::Eight,
        KeyCode::Digit9 => Key::Nine,
        KeyCode::Equal => Key::Equal,
        KeyCode::KeyA => Key::A,
        KeyCode::KeyB => Key::B,
        KeyCode::KeyC => Key::C,
        KeyCode::KeyD => Key::D,
        KeyCode::KeyE => Key::E,
        KeyCode::KeyF => Key::F,
        KeyCode::KeyG => Key::G,
        KeyCode::KeyH => Key::H,
        KeyCode::KeyI => Key::I,
        KeyCode::KeyJ => Key::J,
        KeyCode::KeyK => Key::K,
        KeyCode::KeyL => Key::L,
        KeyCode::KeyM => Key::M,
        KeyCode::KeyN => Key::N,
        KeyCode::KeyO => Key::O,
        KeyCode::KeyP => Key::P,
        KeyCode::KeyQ => Key::Q,
        KeyCode::KeyR => Key::R,
        KeyCode::KeyS => Key::S,
        KeyCode::KeyT => Key::T,
        KeyCode::KeyU => Key::U,
        KeyCode::KeyV => Key::V,
        KeyCode::KeyW => Key::W,
        KeyCode::KeyX => Key::X,
        KeyCode::KeyY => Key::Y,
        KeyCode::KeyZ => Key::Z,
        KeyCode::Minus => Key::Minus,
        KeyCode::Period => Key::Period,
        KeyCode::Quote => Key::Apostrophe,
        KeyCode::Semicolon => Key::Semicolon,
        KeyCode::Slash => Key::Slash,
        KeyCode::AltLeft => Key::LeftAlt,
        KeyCode::AltRight => Key::RightAlt,
        KeyCode::Backspace => Key::Backspace,
        KeyCode::CapsLock => Key::CapsLock,
        KeyCode::ControlLeft => Key::LeftControl,
        KeyCode::ControlRight => Key::RightControl,
        KeyCode::Enter => Key::Enter,
        KeyCode::SuperLeft => Key::LeftSuper,
        KeyCode::SuperRight => Key::RightSuper,
        KeyCode::ShiftLeft => Key::LeftShift,
        KeyCode::ShiftRight => Key::RightShift,
        KeyCode::Space => Key::Space,
        KeyCode::Tab => Key::Tab,
        KeyCode::Delete => Key::Delete,
        KeyCode::End => Key::End,
        KeyCode::Home => Key::Home,
        KeyCode::PageDown => Key::PageDown,
        KeyCode::PageUp => Key::PageUp,
        KeyCode::ArrowDown => Key::Down,
        KeyCode::ArrowLeft => Key::Left,
        KeyCode::ArrowRight => Key::Right,
        KeyCode::ArrowUp => Key::Up,
        KeyCode::NumLock => Key::NumLock,
        KeyCode::Numpad0 => Key::KP0,
        KeyCode::Numpad1 => Key::KP1,
        KeyCode::Numpad2 => Key::KP2,
        KeyCode::Numpad3 => Key::KP3,
        KeyCode::Numpad4 => Key::KP4,
        KeyCode::Numpad5 => Key::KP5,
        KeyCode::Numpad6 => Key::KP6,
        KeyCode::Numpad7 => Key::KP7,
        KeyCode::Numpad8 => Key::KP8,
        KeyCode::Numpad9 => Key::KP9,
        KeyCode::NumpadAdd => Key::KPAdd,
        KeyCode::NumpadDecimal => Key::KPDecimal,
        KeyCode::NumpadDivide => Key::KPDivide,
        KeyCode::NumpadEnter => Key::KPEnter,
        KeyCode::NumpadEqual => Key::KPEqual,
        KeyCode::NumpadMultiply => Key::KPMultiply,
        KeyCode::NumpadSubtract => Key::KPSubtract,
        KeyCode::F1 => Key::F1,
        KeyCode::F2 => Key::F2,
        KeyCode::F3 => Key::F3,
        KeyCode::F4 => Key::F4,
        KeyCode::F5 => Key::F5,
        KeyCode::F6 => Key::F6,
        KeyCode::F7 => Key::F7,
        KeyCode::F8 => Key::F8,
        KeyCode::F9 => Key::F9,
        KeyCode::F10 => Key::F10,
        KeyCode::F11 => Key::F11,
        KeyCode::F12 => Key::F12,
        KeyCode::F13 => Key::F13,
        KeyCode::F14 => Key::F14,
        KeyCode::F15 => Key::F15,
        KeyCode::F16 => Key::F16,
        KeyCode::F17 => Key::F17,
        KeyCode::F18 => Key::F18,
        KeyCode::F19 => Key::F19,
        KeyCode::F20 => Key::F20,
        KeyCode::F21 => Key::F21,
        KeyCode::F22 => Key::F22,
        KeyCode::F23 => Key::F23,
        KeyCode::F24 => Key::F24,
        KeyCode::F25 => Key::F25,
        _ => Key::Invalid,
    }
}

/// The key at a physical key; unidentified keys give [`Key::Invalid`].
pub open spec fn spec_key_from_physical(key: PhysicalKey) -> Key {
    match key {
        PhysicalKey::Unidentified(_) => Key::Invalid,
        PhysicalKey::Code(code) => spec_key_from_code(code),
    }
}

fn key_from_code(code: KeyCode) -> (r: Key)
    ensures
        r == spec_key_from_code(code),
{
    match code {
        KeyCode::Backquote => Key::GraveAccent,
        KeyCode::Backslash => Key::Backslash,
        KeyCode::BracketLeft => Key::LeftBracket,
        KeyCode::BracketRight => Key::RightBracket,
        KeyCode::Comma => Key::Comma,
        KeyCode::Digit0 => Key::Zero,
        KeyCode::Digit1 => Key::One,
        KeyCode::Digit2 => Key::Two,
        KeyCode::Digit3 => Key::Three,
        KeyCode::Digit4 => Key::Four,
        KeyCode::Digit5 => Key::Five,
        KeyCode::Digit6 => Key::Six,
        KeyCode::Digit7 => Key::Seven,
        KeyCode::Digit8 => Key::Eight,
        KeyCode::Digit9 => Key::Nine,
        KeyCode::Equal => Key::Equal,
        KeyCode::KeyA => Key::A,
        KeyCode::KeyB => Key::B,
        KeyCode::KeyC => Key::C,
        KeyCode::KeyD => Key::D,
        KeyCode::KeyE => Key::E,
        KeyCode::KeyF => Key::F,
        KeyCode::KeyG => Key::G,
        KeyCode::KeyH => Key::H,
        KeyCode::KeyI => Key::I,
        KeyCode::KeyJ => Key::J,
        KeyCode::KeyK => Key::K,
        KeyCode::KeyL => Key::L,
        KeyCode::KeyM => Key::M,
        KeyCode::KeyN => Key::N,
        KeyCode::KeyO => Key::O,
        KeyCode::KeyP => Key::P,
        KeyCode::KeyQ => Key::Q,
        KeyCode::KeyR => Key::R,
        KeyCode::KeyS => Key::S,
        KeyCode::KeyT => Key::T,
        KeyCode::KeyU => Key::U,
        KeyCode::KeyV => Key::V,
        KeyCode::KeyW => Key::W,
        KeyCode::KeyX => Key::X,
        KeyCode::KeyY => Key::Y,
        KeyCode::KeyZ => Key::Z,
        KeyCode::Minus => Key::Minus,
        KeyCode::Period => Key::Period,
        KeyCode::Quote => Key::Apostrophe,
        KeyCode::Semicolon => Key::Semicolon,
        KeyCode::Slash => Key::Slash,
        KeyCode::AltLeft => Key::LeftAlt,
        KeyCode::AltRight => Key::RightAlt,
        KeyCode::Backspace => Key::Backspace,
        KeyCode::CapsLock => Key::CapsLock,
        KeyCode::ControlLeft => Key::LeftControl,
        KeyCode::ControlRight => Key::RightControl,
        KeyCode::Enter => Key::Enter,
        KeyCode::SuperLeft => Key::LeftSuper,
        KeyCode::SuperRight => Key::RightSuper,
        KeyCode::ShiftLeft => Key::LeftShift,
        KeyCode::ShiftRight => Key::RightShift,
        KeyCode::Space => Key::Space,
        KeyCode::Tab => Key::Tab,
        KeyCode::Delete => Key::Delete,
        KeyCode::End => Key::End,
        KeyCode::Home => Key::Home,
        KeyCode::PageDown => Key::PageDown,
        KeyCode::PageUp => Key::PageUp,
        KeyCode::ArrowDown => Key::Down,
        KeyCode::ArrowLeft => Key::Left,
        KeyCode::ArrowRight => Key::Right,
        KeyCode::ArrowUp => Key::Up,
        KeyCode::NumLock => Key::NumLock,
        KeyCode::Numpad0 => Key::KP0,
        KeyCode::Numpad1 => Key::KP1,
        KeyCode::Numpad2 => Key::KP2,
        KeyCode::Numpad3 => Key::KP3,
        KeyCode::Numpad4 => Key::KP4,
        KeyCode::Numpad5 => Key::KP5,
        KeyCode::Numpad6 => Key::KP6,
        KeyCode::Numpad7 => Key::KP7,
        KeyCode::Numpad8 => Key::KP8,
        KeyCode::Numpad9 => Key::KP9,
        KeyCode::NumpadAdd => Key::KPAdd,
        KeyCode::NumpadDecimal => Key::KPDecimal,
        KeyCode::NumpadDivide => Key::KPDivide,
        KeyCode::NumpadEnter => Key::KPEnter,
        KeyCode::NumpadEqual => Key::KPEqual,
        KeyCode::NumpadMultiply => Key::KPMultiply,
        KeyCode::NumpadSubtract => Key::KPSubtract,
        KeyCode::F1 => Key::F1,
        KeyCode::F2 => Key::F2,
        KeyCode::F3 => Key::F3,
        KeyCode::F4 => Key::F4,
        KeyCode::F5 => Key::F5,
        KeyCode::F6 => Key::F6,
        KeyCode::F7 => Key::F7,
        KeyCode::F8 => Key::F8,
        KeyCode::F9 => Key::F9,
        KeyCode::F10 => Key::F10,
        KeyCode::F11 => Key::F11,
        KeyCode::F12 => Key::F12,
        KeyCode::F13 => Key::F13,
        KeyCode::F14 => Key::F14,
        KeyCode::F15 => Key::F15,
        KeyCode::F16 => Key::F16,
        KeyCode::F17 => Key::F17,
        KeyCode::F18 => Key::F18,
        KeyCode::F19 => Key::F19,
        KeyCode::F20 => Key::F20,
        KeyCode::F21 => Key::F21,
        KeyCode::F22 => Key::F22,
        KeyCode::F23 => Key::F23,
        KeyCode::F24 => Key::F24,
        KeyCode::F25 => Key::F25,
        _ => Key::Invalid,
    }
}

impl From<PhysicalKey> for Key {
    fn from(key: PhysicalKey) -> (r: Key) {
        match key {
            PhysicalKey::Unidentified(_) => Key::Invalid,
            PhysicalKey::Code(code) => key_from_code(code),
        }
    }
}

impl vstd::std_specs::convert::FromSpecImpl<PhysicalKey> for Key {
    open spec fn obeys_from_spec() -> bool {
        true
    }

    open spec fn from_spec(v: PhysicalKey) -> Key {
        spec_key_from_physical(v)
    }
}

} // verus!
