//! Key encoding types.
use vstd::prelude::*;

verus! {

pub struct KeyEncoder {}

pub struct KeyEncoderEvent {
    pub action: Action,
    pub modifiers: ModifiersState,
}

pub enum Action {
    Press,
    Release,
    Repeat,
}

pub struct ModifiersState {
    pub ctrl: bool,
    pub shift: bool,
    pub alt: bool,
    pub meta: bool,
}

/// The sum of two numbers; it must fit in a `u64`.
pub fn add(left: u64, right: u64) -> (r: u64)
    requires
        left + right <= u64::MAX,
    ensures
        r == left + right,
{
    left + right
}

} // verus!
