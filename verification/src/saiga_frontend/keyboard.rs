use vstd::prelude::*;
use vstd::string::StringSliceAdditionalSpecFns;
use winit::event::ElementState;
use winit::keyboard::{KeyCode, PhysicalKey};

use crate::saiga_input::encoder::{spec_encode_legacy, Encoder};
use crate::saiga_input::key::{Action, Key, KeyEvent, Mods};
use crate::saiga_input::physical::spec_key_from_physical;

verus! {

#[verifier::external_type_specification]
pub struct ExElementState(ElementState);

/// What a key event asks of the window.
#[derive(Debug, PartialEq, Eq)]
pub enum KeyOutcome {
    /// A modifier key went down or up; the modifier state changed.
    ModifiersChanged,
    /// Super and `-`: make the font smaller.
    FontSmaller,
    /// Super and `=`: make the font larger.
    FontLarger,
    /// Send these bytes to the shell.
    Write(Vec<u8>),
    /// Nothing to do.
    Nothing,
}

/// The modifier that a physical key is, if any.
pub open spec fn spec_modifier_of(key: PhysicalKey) -> Option<u8> {
    match key {
        PhysicalKey::Code(KeyCode::AltLeft) => Some(0x04u8),
        PhysicalKey::Code(KeyCode::AltRight) => Some(0x40u8),
        PhysicalKey::Code(KeyCode::ControlLeft) => Some(0x02u8),
        PhysicalKey::Code(KeyCode::ControlRight) => Some(0x20u8),
        PhysicalKey::Code(KeyCode::SuperLeft) => Some(0x08u8),
        PhysicalKey::Code(KeyCode::SuperRight) => Some(0x80u8),
        PhysicalKey::Code(KeyCode::ShiftLeft) => Some(0x01u8),
        PhysicalKey::Code(KeyCode::ShiftRight) => Some(0x10u8),
        _ => None,
    }
}

fn modifier_of(key: PhysicalKey) -> (r: Option<Mods>)
    ensures
        (match r {
            Some(m) => Some(m@),
            None => None,
        }) == spec_modifier_of(key),
{
    match key {
        PhysicalKey::Code(KeyCode::AltLeft) => Some(Mods::left_alt()),
        PhysicalKey::Code(KeyCode::AltRight) => Some(Mods::right_alt()),
        PhysicalKey::Code(KeyCode::ControlLeft) => Some(Mods::left_ctrl()),
        PhysicalKey::Code(KeyCode::ControlRight) => Some(Mods::right_ctrl()),
        PhysicalKey::Code(KeyCode::SuperLeft) => Some(Mods::left_super()),
        PhysicalKey::Code(KeyCode::SuperRight) => Some(Mods::right_super()),
        PhysicalKey::Code(KeyCode::ShiftLeft) => Some(Mods::left_shift()),
        PhysicalKey::Code(KeyCode::ShiftRight) => Some(Mods::right_shift()),
        _ => None,
    }
}

/// The outcome of a key event for the modifiers held before it, and the
/// modifiers held after it.
pub open spec fn spec_handle_key(
    mods: u8,
    pressed: bool,
    physical_key: PhysicalKey,
    text: Option<Seq<u8>>,
    repeat: bool,
) -> (u8, Option<Seq<u8>>, int) {
    match spec_modifier_of(physical_key) {
        Some(m) => (if pressed {
            mods | m
        } else {
            mods & !m
        }, None, 0),
        None => {
            let key = spec_key_from_physical(physical_key);
            if pressed && mods == 0x08 && key == Key::Minus {
                (mods, None, 1)
            } else if pressed && mods == 0x08 && key == Key::Equal {
                (mods, None, 2)
            } else {
                let action = if repeat {
                    Action::Repeat
                } else if pressed {
                    Action::Press
                } else {
                    Action::Release
                };
                let utf8 = match text {
                    Some(t) => t,
                    None => seq![],
                };
                match spec_encode_legacy(action, false, key, utf8, '\0', mods, false) {
                    Some(seq) => (mods, Some(seq), 3),
                    None => match text {
                        Some(t) => (mods, Some(t), 3),
                        None => (mods, None, 4),
                    },
                }
            }
        },
    }
}

/// The number that stands for an outcome: 0 modifiers changed, 1 smaller
/// font, 2 larger font, 3 write, 4 nothing.
pub open spec fn outcome_kind(o: KeyOutcome) -> int {
    match o {
        KeyOutcome::ModifiersChanged => 0,
        KeyOutcome::FontSmaller => 1,
        KeyOutcome::FontLarger => 2,
        KeyOutcome::Write(_) => 3,
        KeyOutcome::Nothing => 4,
    }
}

/// Handles a key event: tracks the modifier keys, turns Super with `-` or
/// `=` into font size changes, and encodes the rest (falling back to the
/// event's text).
pub fn handle_key(
    mods: &mut Mods,
    state: ElementState,
    physical_key: PhysicalKey,
    text: Option<&str>,
    repeat: bool,
) -> (r: KeyOutcome)
    ensures
        ({
            let pressed = state == ElementState::Pressed;
            let t = match text {
                Some(s) => Some(s.spec_bytes()),
                None => None,
            };
            let (m, bytes, kind) = spec_handle_key(old(mods)@, pressed, physical_key, t, repeat);
            &&& final(mods)@ == m
            &&& outcome_kind(r) == kind
            &&& (r matches KeyOutcome::Write(v) ==> Some(v@) == bytes)
        }),
{
    let pressed = match state {
        ElementState::Pressed => true,
        ElementState::Released => false,
    };
    match modifier_of(physical_key) {
        Some(m) => {
            if pressed {
                mods.insert(m);
            } else {
                mods.remove(m);
            }
            return KeyOutcome::ModifiersChanged;
        },
        None => {},
    }
    let key = Key::from(physical_key);
    if pressed && mods.bits() == 0x08 {
        match key {
            Key::Minus => {
                return KeyOutcome::FontSmaller;
            },
            Key::Equal => {
                return KeyOutcome::FontLarger;
            },
            _ => {},
        }
    }
    let empty = "";
    proof {
        reveal_strlit("");
    }
    let utf8 = match text {
        Some(t) => t,
        None => empty,
    };
    let action = if repeat {
        Action::Repeat
    } else if pressed {
        Action::Press
    } else {
        Action::Release
    };
    let encoder = Encoder {
        event: KeyEvent {
            action,
            key,
            physical_key: key,
            mods: *mods,
            consumed_mods: Mods::left_shift().union(Mods::right_shift()),
            composing: false,
            utf8,
            unshifted_char: '\0',
        },
        modify_other_keys_state_2: false,
    };
    match encoder.encode() {
        Some(seq) => KeyOutcome::Write(seq),
        None => match text {
            Some(t) => {
                let bytes = vstd::slice::slice_to_vec(t.as_bytes());
                KeyOutcome::Write(bytes)
            },
            None => KeyOutcome::Nothing,
        },
    }
}

} // verus!
