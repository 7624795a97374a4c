use vstd::prelude::*;

verus! {

/// States of the DEC ANSI parser state machine.
#[derive(Clone, Copy, PartialEq, Eq, Debug, Structural)]
pub enum State {
    Ground,
    Escape,
    EscapeIntermediate,
    CsiEntry,
    CsiParam,
    CsiIntermediate,
    CsiIgnore,
    DcsEntry,
    DcsParam,
    DcsIntermediate,
    DcsPassthrough,
    DcsIgnore,
    OscString,
    SosPmApcString,
    Anywhere,
}

impl State {
    /// The initial state of a parser.
    pub fn default_state() -> (s: State)
        ensures
            s == State::Ground,
    {
        State::Ground
    }
}

/// An event may cause one of these actions to occur with or without a change of state.
#[derive(Debug, Clone, Copy, PartialEq, Eq, Structural)]
pub enum Action {
    /// Forget the private flag, intermediates, final character and parameters.
    Clear,
    /// Store a private marker or intermediate character.
    Collect,
    /// A final character of a control sequence arrived: dispatch it.
    CsiDispatch,
    /// The final character of an escape sequence arrived: dispatch it.
    EscDispatch,
    /// Execute a C0 or C1 control function.
    Execute,
    /// A final character of a device control string header arrived.
    Hook,
    /// The character or control is not processed.
    Ignore,
    /// The OSC string was terminated.
    OscEnd,
    /// Pass a character of the OSC string on.
    OscPut,
    /// An OSC string starts.
    OscStart,
    /// Collect a parameter character.
    Param,
    /// Display a character.
    Print,
    /// Pass a character of the device control string data on.
    Put,
    /// The device control string was terminated.
    Unhook,
}

/// C0 bytes that execute in most states: 0x00..=0x17, 0x19, 0x1C..=0x1F.
pub open spec fn is_executable_c0(b: u8) -> bool {
    b <= 0x17 || b == 0x19 || (0x1C <= b <= 0x1F)
}

/// The transition table: for a state and an input byte, the next state
/// (`Anywhere` meaning "stay") and the action to perform, or `None` when the
/// table has no entry.
pub open spec fn spec_change_state(state: State, byte: u8) -> Option<(State, Option<Action>)> {
    let b = byte;
    match state {
        State::Anywhere => {
            if b == 0x18 || b == 0x1A || (0x80 <= b <= 0x8F) || (0x91 <= b <= 0x97) || b == 0x99
                || b == 0x9A {
                Some((State::Ground, Some(Action::Execute)))
            } else if b == 0x9C {
                Some((State::Ground, None))
            } else if b == 0x1B {
                Some((State::Escape, None))
            } else if b == 0x98 || b == 0x9E || b == 0x9F {
                Some((State::SosPmApcString, None))
            } else if b == 0x90 {
                Some((State::DcsEntry, None))
            } else if b == 0x9D {
                Some((State::OscString, None))
            } else if b == 0x9B {
                Some((State::CsiEntry, None))
            } else {
                None
            }
        },
        State::Ground => {
            if is_executable_c0(b) {
                Some((State::Anywhere, Some(Action::Execute)))
            } else if 0x20 <= b <= 0x7F {
                Some((State::Anywhere, Some(Action::Print)))
            } else {
                None
            }
        },
        State::Escape => {
            if is_executable_c0(b) {
                Some((State::Anywhere, Some(Action::Execute)))
            } else if b == 0x7F {
                Some((State::Anywhere, Some(Action::Ignore)))
            } else if b == 0x5D {
                Some((State::OscString, None))
            } else if b == 0x50 {
                Some((State::DcsEntry, None))
            } else if b == 0x5B {
                Some((State::CsiEntry, None))
            } else if b == 0x58 || b == 0x5E || b == 0x5F {
                Some((State::SosPmApcString, None))
            } else if 0x20 <= b <= 0x2F {
                Some((State::EscapeIntermediate, Some(Action::Collect)))
            } else if 0x30 <= b <= 0x7E {
                Some((State::Ground, Some(Action::EscDispatch)))
            } else {
                None
            }
        },
        State::EscapeIntermediate => {
            if is_executable_c0(b) {
                Some((State::Anywhere, Some(Action::Execute)))
            } else if 0x20 <= b <= 0x2F {
                Some((State::Anywhere, Some(Action::Collect)))
            } else if b == 0x7F {
                Some((State::Anywhere, Some(Action::Ignore)))
            } else if 0x30 <= b <= 0x7E {
                Some((State::Ground, Some(Action::EscDispatch)))
            } else {
                None
            }
        },
        State::CsiEntry => {
            if is_executable_c0(b) {
                Some((State::Anywhere, Some(Action::Execute)))
            } else if b == 0x7F {
                Some((State::Anywhere, Some(Action::Ignore)))
            } else if 0x20 <= b <= 0x2F {
                Some((State::CsiIntermediate, Some(Action::Collect)))
            } else if 0x40 <= b <= 0x7E {
                Some((State::Ground, Some(Action::CsiDispatch)))
            } else if 0x30 <= b <= 0x3B {
                Some((State::CsiParam, Some(Action::Param)))
            } else if 0x3C <= b <= 0x3F {
                Some((State::CsiParam, Some(Action::Collect)))
            } else {
                None
            }
        },
        State::CsiParam => {
            if is_executable_c0(b) {
                Some((State::Anywhere, Some(Action::Execute)))
            } else if 0x30 <= b <= 0x3B {
                Some((State::Anywhere, Some(Action::Param)))
            } else if b == 0x7F {
                Some((State::Anywhere, Some(Action::Ignore)))
            } else if 0x3C <= b <= 0x3F {
                Some((State::CsiIgnore, None))
            } else if 0x20 <= b <= 0x2F {
                Some((State::CsiIntermediate, None))
            } else if 0x40 <= b <= 0x7E {
                Some((State::Ground, Some(Action::CsiDispatch)))
            } else {
                None
            }
        },
        State::CsiIntermediate => {
            if is_executable_c0(b) {
                Some((State::Anywhere, Some(Action::Execute)))
            } else if 0x20 <= b <= 0x2F {
                Some((State::Anywhere, Some(Action::Collect)))
            } else if b == 0x7F {
                Some((State::Anywhere, Some(Action::Ignore)))
            } else if 0x30 <= b <= 0x3F {
                Some((State::CsiIgnore, None))
            } else if 0x40 <= b <= 0x7E {
                Some((State::Ground, Some(Action::CsiDispatch)))
            } else {
                None
            }
        },
        State::CsiIgnore => {
            if is_executable_c0(b) {
                Some((State::Anywhere, Some(Action::Execute)))
            } else if (0x20 <= b <= 0x3F) || b == 0x7F {
                Some((State::Anywhere, Some(Action::Ignore)))
            } else if 0x40 <= b <= 0x7E {
                Some((State::Ground, None))
            } else {
                None
            }
        },
        State::DcsEntry => {
            if is_executable_c0(b) || b == 0x7F {
                Some((State::Anywhere, Some(Action::Ignore)))
            } else if 0x20 <= b <= 0x2F {
                Some((State::DcsIntermediate, Some(Action::Collect)))
            } else if (0x30 <= b <= 0x39) || b == 0x3B {
                Some((State::DcsParam, Some(Action::Param)))
            } else if 0x3C <= b <= 0x3F {
                Some((State::DcsParam, Some(Action::Collect)))
            } else if 0x40 <= b <= 0x7E {
                Some((State::DcsPassthrough, None))
            } else if b == 0x3A {
                Some((State::DcsIgnore, None))
            } else {
                None
            }
        },
        State::DcsParam => {
            if is_executable_c0(b) || b == 0x7F {
                Some((State::Anywhere, Some(Action::Ignore)))
            } else if (0x30 <= b <= 0x39) || b == 0x3B {
                Some((State::Anywhere, Some(Action::Param)))
            } else if b == 0x3A || (0x3C <= b <= 0x3F) {
                Some((State::DcsIgnore, None))
            } else if 0x20 <= b <= 0x2F {
                Some((State::DcsIntermediate, Some(Action::Collect)))
            } else if 0x40 <= b <= 0x7E {
                Some((State::DcsPassthrough, None))
            } else {
                None
            }
        },
        State::DcsIntermediate => {
            if is_executable_c0(b) || b == 0x7F {
                Some((State::Anywhere, Some(Action::Ignore)))
            } else if 0x20 <= b <= 0x2F {
                Some((State::Anywhere, Some(Action::Collect)))
            } else if 0x30 <= b <= 0x3F {
                Some((State::DcsIgnore, None))
            } else if 0x40 <= b <= 0x7E {
                Some((State::DcsPassthrough, None))
            } else {
                None
            }
        },
        State::DcsPassthrough => {
            if is_executable_c0(b) || (0x20 <= b <= 0x7E) {
                Some((State::Anywhere, Some(Action::Put)))
            } else if b == 0x7F {
                Some((State::Anywhere, Some(Action::Ignore)))
            } else if b == 0x9C {
                Some((State::Ground, None))
            } else {
                None
            }
        },
        State::DcsIgnore => {
            if is_executable_c0(b) || (0x20 <= b <= 0x7F) {
                Some((State::Anywhere, Some(Action::Ignore)))
            } else if b == 0x9C {
                Some((State::Ground, None))
            } else {
                None
            }
        },
        State::OscString => {
            if b == 0x07 {
                Some((State::Ground, None))
            } else if b <= 0x06 || (0x08 <= b <= 0x17) || b == 0x19 || (0x1C <= b <= 0x1F) {
                Some((State::Anywhere, Some(Action::Ignore)))
            } else if 0x20 <= b {
                Some((State::Anywhere, Some(Action::OscPut)))
            } else {
                None
            }
        },
        State::SosPmApcString => {
            if is_executable_c0(b) || (0x20 <= b <= 0x7F) {
                Some((State::Anywhere, Some(Action::Ignore)))
            } else if b == 0x9C {
                Some((State::Ground, None))
            } else {
                None
            }
        },
    }
}

/// The transition for `byte` in `state`, following https://vt100.net/emu/dec_ansi_parser.
///
/// Colons (0x3A) in control sequences are treated as subparameter separators
/// instead of leading to the ignore state.
pub fn change_state(state: State, byte: u8) -> (r: Option<(State, Option<Action>)>)
    ensures
        r == spec_change_state(state, byte),
{
    let b = byte;
    let exec_c0 = b <= 0x17 || b == 0x19 || (0x1C <= b && b <= 0x1F);
    match state {
        State::Anywhere => {
            if b == 0x18 || b == 0x1A || (0x80 <= b && b <= 0x8F) || (0x91 <= b && b <= 0x97)
                || b == 0x99 || b == 0x9A {
                Some((State::Ground, Some(Action::Execute)))
            } else if b == 0x9C {
                Some((State::Ground, None))
            } else if b == 0x1B {
                Some((State::Escape, None))
            } else if b == 0x98 || b == 0x9E || b == 0x9F {
                Some((State::SosPmApcString, None))
            } else if b == 0x90 {
                Some((State::DcsEntry, None))
            } else if b == 0x9D {
                Some((State::OscString, None))
            } else if b == 0x9B {
                Some((State::CsiEntry, None))
            } else {
                None
            }
        },
        State::Ground => {
            if exec_c0 {
                Some((State::Anywhere, Some(Action::Execute)))
            } else if 0x20 <= b && b <= 0x7F {
                Some((State::Anywhere, Some(Action::Print)))
            } else {
                None
            }
        },
        State::Escape => {
            if exec_c0 {
                Some((State::Anywhere, Some(Action::Execute)))
            } else if b == 0x7F {
                Some((State::Anywhere, Some(Action::Ignore)))
            } else if b == 0x5D {
                Some((State::OscString, None))
            } else if b == 0x50 {
                Some((State::DcsEntry, None))
            } else if b == 0x5B {
                Some((State::CsiEntry, None))
            } else if b == 0x58 || b == 0x5E || b == 0x5F {
                Some((State::SosPmApcString, None))
            } else if 0x20 <= b && b <= 0x2F {
                Some((State::EscapeIntermediate, Some(Action::Collect)))
            } else if 0x30 <= b && b <= 0x7E {
                Some((State::Ground, Some(Action::EscDispatch)))
            } else {
                None
            }
        },
        State::EscapeIntermediate => {
            if exec_c0 {
                Some((State::Anywhere, Some(Action::Execute)))
            } else if 0x20 <= b && b <= 0x2F {
                Some((State::Anywhere, Some(Action::Collect)))
            } else if b == 0x7F {
                Some((State::Anywhere, Some(Action::Ignore)))
            } else if 0x30 <= b && b <= 0x7E {
                Some((State::Ground, Some(Action::EscDispatch)))
            } else {
                None
            }
        },
        State::CsiEntry => {
            if exec_c0 {
                Some((State::Anywhere, Some(Action::Execute)))
            } else if b == 0x7F {
                Some((State::Anywhere, Some(Action::Ignore)))
            } else if 0x20 <= b && b <= 0x2F {
                Some((State::CsiIntermediate, Some(Action::Collect)))
            } else if 0x40 <= b && b <= 0x7E {
                Some((State::Ground, Some(Action::CsiDispatch)))
            } else if 0x30 <= b && b <= 0x3B {
                Some((State::CsiParam, Some(Action::Param)))
            } else if 0x3C <= b && b <= 0x3F {
                Some((State::CsiParam, Some(Action::Collect)))
            } else {
                None
            }
        },
        State::CsiParam => {
            if exec_c0 {
                Some((State::Anywhere, Some(Action::Execute)))
            } else if 0x30 <= b && b <= 0x3B {
                Some((State::Anywhere, Some(Action::Param)))
            } else if b == 0x7F {
                Some((State::Anywhere, Some(Action::Ignore)))
            } else if 0x3C <= b && b <= 0x3F {
                Some((State::CsiIgnore, None))
            } else if 0x20 <= b && b <= 0x2F {
                Some((State::CsiIntermediate, None))
            } else if 0x40 <= b && b <= 0x7E {
                Some((State::Ground, Some(Action::CsiDispatch)))
            } else {
                None
            }
        },
        State::CsiIntermediate => {
            if exec_c0 {
                Some((State::Anywhere, Some(Action::Execute)))
            } else if 0x20 <= b && b <= 0x2F {
                Some((State::Anywhere, Some(Action::Collect)))
            } else if b == 0x7F {
                Some((State::Anywhere, Some(Action::Ignore)))
            } else if 0x30 <= b && b <= 0x3F {
                Some((State::CsiIgnore, None))
            } else if 0x40 <= b && b <= 0x7E {
                Some((State::Ground, Some(Action::CsiDispatch)))
            } else {
                None
            }
        },
        State::CsiIgnore => {
            if exec_c0 {
                Some((State::Anywhere, Some(Action::Execute)))
            } else if (0x20 <= b && b <= 0x3F) || b == 0x7F {
                Some((State::Anywhere, Some(Action::Ignore)))
            } else if 0x40 <= b && b <= 0x7E {
                Some((State::Ground, None))
            } else {
                None
            }
        },
        State::DcsEntry => {
            if exec_c0 || b == 0x7F {
                Some((State::Anywhere, Some(Action::Ignore)))
            } else if 0x20 <= b && b <= 0x2F {
                Some((State::DcsIntermediate, Some(Action::Collect)))
            } else if (0x30 <= b && b <= 0x39) || b == 0x3B {
                Some((State::DcsParam, Some(Action::Param)))
            } else if 0x3C <= b && b <= 0x3F {
                Some((State::DcsParam, Some(Action::Collect)))
            } else if 0x40 <= b && b <= 0x7E {
                Some((State::DcsPassthrough, None))
            } else if b == 0x3A {
                Some((State::DcsIgnore, None))
            } else {
                None
            }
        },
        State::DcsParam => {
            if exec_c0 || b == 0x7F {
                Some((State::Anywhere, Some(Action::Ignore)))
            } else if (0x30 <= b && b <= 0x39) || b == 0x3B {
                Some((State::Anywhere, Some(Action::Param)))
            } else if b == 0x3A || (0x3C <= b && b <= 0x3F) {
                Some((State::DcsIgnore, None))
            } else if 0x20 <= b && b <= 0x2F {
                Some((State::DcsIntermediate, Some(Action::Collect)))
            } else if 0x40 <= b && b <= 0x7E {
                Some((State::DcsPassthrough, None))
            } else {
                None
            }
        },
        State::DcsIntermediate => {
            if exec_c0 || b == 0x7F {
                Some((State::Anywhere, Some(Action::Ignore)))
            } else if 0x20 <= b && b <= 0x2F {
                Some((State::Anywhere, Some(Action::Collect)))
            } else if 0x30 <= b && b <= 0x3F {
                Some((State::DcsIgnore, None))
            } else if 0x40 <= b && b <= 0x7E {
                Some((State::DcsPassthrough, None))
            } else {
                None
            }
        },
        State::DcsPassthrough => {
            if exec_c0 || (0x20 <= b && b <= 0x7E) {
                Some((State::Anywhere, Some(Action::Put)))
            } else if b == 0x7F {
                Some((State::Anywhere, Some(Action::Ignore)))
            } else if b == 0x9C {
                Some((State::Ground, None))
            } else {
                None
            }
        },
        State::DcsIgnore => {
            if exec_c0 || (0x20 <= b && b <= 0x7F) {
                Some((State::Anywhere, Some(Action::Ignore)))
            } else if b == 0x9C {
                Some((State::Ground, None))
            } else {
                None
            }
        },
        State::OscString => {
            if b == 0x07 {
                Some((State::Ground, None))
            } else if b <= 0x06 || (0x08 <= b && b <= 0x17) || b == 0x19 || (0x1C <= b && b <= 0x1F) {
                Some((State::Anywhere, Some(Action::Ignore)))
            } else if 0x20 <= b {
                Some((State::Anywhere, Some(Action::OscPut)))
            } else {
                None
            }
        },
        State::SosPmApcString => {
            if exec_c0 || (0x20 <= b && b <= 0x7F) {
                Some((State::Anywhere, Some(Action::Ignore)))
            } else if b == 0x9C {
                Some((State::Ground, None))
            } else {
                None
            }
        },
    }
}

/// The transition used by a parser in `state`: the state-independent
/// ("anywhere") entry when there is one, else the state's own entry.
pub open spec fn spec_transition(state: State, byte: u8) -> Option<(State, Option<Action>)> {
    match spec_change_state(State::Anywhere, byte) {
        Some(t) => Some(t),
        None => spec_change_state(state, byte),
    }
}

/// Every 7-bit byte and every C1 control (below 0xA0) has a transition in
/// every state, and inside an OSC string every byte has one.
pub proof fn lemma_transition_defined(state: State, byte: u8)
    requires
        state != State::Anywhere,
        byte < 0xA0 || state == State::OscString,
    ensures
        spec_transition(state, byte) is Some,
{
}

/// Bytes from 0xA0 up have no transition outside an OSC string.
pub proof fn lemma_high_bytes_undefined(state: State, byte: u8)
    requires
        state != State::OscString,
        byte >= 0xA0,
    ensures
        spec_transition(state, byte) is None,
{
}

/// The state-independent transitions always lead to a concrete state (never
/// `Anywhere`) and perform at most an `Execute`.
pub proof fn lemma_anywhere_targets(byte: u8)
    ensures
        spec_change_state(State::Anywhere, byte) matches Some((s, a)) ==> s != State::Anywhere && (
        a is None || a == Some(Action::Execute)),
{
}

/// What the parser relies on: parameter bytes are digits, `:` or `;`,
/// staying in the current state always comes with an action, and the end of
/// an OSC string is only ever an exit action, never a transition's.
pub proof fn lemma_transition_shape(state: State, byte: u8)
    ensures
        spec_transition(state, byte) matches Some((s, a)) ==> (a == Some(Action::Param) ==> 0x30
            <= byte <= 0x3B) && (s == State::Anywhere ==> a is Some) && a != Some(Action::OscEnd)
            && a != Some(Action::Hook) && (a == Some(Action::CsiDispatch) ==> s == State::Ground),
{
}

} // verus!
