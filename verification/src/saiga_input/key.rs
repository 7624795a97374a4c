use vstd::prelude::*;

verus! {

/// Whether a key is pressed, released or repeated.
#[derive(Debug, PartialEq, Eq, Clone, Copy, Structural)]
pub enum Action {
    Release,
    Press,
    Repeat,
}

/// A key on the keyboard.
#[derive(Clone, Copy, Debug, PartialEq, Eq, Structural)]
pub enum Key {
    Invalid,
    A,
    B,
    C,
    D,
    E,
    F,
    G,
    H,
    I,
    J,
    K,
    L,
    M,
    N,
    O,
    P,
    Q,
    R,
    S,
    T,
    U,
    V,
    W,
    X,
    Y,
    Z,
    Zero,
    One,
    Two,
    Three,
    Four,
    Five,
    Six,
    Seven,
    Eight,
    Nine,
    Semicolon,
    Space,
    Apostrophe,
    Comma,
    GraveAccent,
    Period,
    Slash,
    Minus,
    Plus,
    Equal,
    LeftBracket,
    RightBracket,
    Backslash,
    Up,
    Down,
    Right,
    Left,
    Home,
    End,
    Insert,
    Delete,
    CapsLock,
    ScrollLock,
    NumLock,
    PageUp,
    PageDown,
    Escape,
    Enter,
    Tab,
    Backspace,
    PrintScreen,
    Pause,
    F1,
    F2,
    F3,
    F4,
    F5,
    F6,
    F7,
    F8,
    F9,
    F10,
    F11,
    F12,
    F13,
    F14,
    F15,
    F16,
    F17,
    F18,
    F19,
    F20,
    F21,
    F22,
    F23,
    F24,
    F25,
    KP0,
    KP1,
    KP2,
    KP3,
    KP4,
    KP5,
    KP6,
    KP7,
    KP8,
    KP9,
    KPDecimal,
    KPDivide,
    KPMultiply,
    KPSubtract,
    KPAdd,
    KPEnter,
    KPEqual,
    KPSeparator,
    KPLeft,
    KPRight,
    KPUp,
    KPdown,
    KPPageUp,
    KPPageDown,
    KPHome,
    KPEnd,
    KPInsert,
    KPDelete,
    KPBegin,
    LeftShift,
    LeftControl,
    LeftAlt,
    LeftSuper,
    RightShift,
    RightControl,
    RightAlt,
    RightSuper,
}

/// The character that a key types, if any.
pub open spec fn spec_key_char(key: Key) -> Option<char> {
    match key {
        Key::A => Some('a'),
        Key::B => Some('b'),
        Key::C => Some('c'),
        Key::D => Some('d'),
        Key::E => Some('e'),
        Key::F => Some('f'),
        Key::G => Some('g'),
        Key::H => Some('h'),
        Key::I => Some('i'),
        Key::J => Some('j'),
        Key::K => Some('k'),
        Key::L => Some('l'),
        Key::M => Some('m'),
        Key::N => Some('n'),
        Key::O => Some('o'),
        Key::P => Some('p'),
        Key::Q => Some('q'),
        Key::R => Some('r'),
        Key::S => Some('s'),
        Key::T => Some('t'),
        Key::U => Some('u'),
        Key::V => Some('v'),
        Key::W => Some('w'),
        Key::X => Some('x'),
        Key::Y => Some('y'),
        Key::Z => Some('z'),
        Key::Zero => Some('0'),
        Key::One => Some('1'),
        Key::Two => Some('2'),
        Key::Three => Some('3'),
        Key::Four => Some('4'),
        Key::Five => Some('5'),
        Key::Six => Some('6'),
        Key::Seven => Some('7'),
        Key::Eight => Some('8'),
        Key::Nine => Some('9'),
        Key::Semicolon => Some(';'),
        Key::Space => Some(' '),
        Key::Apostrophe => Some('\''),
        Key::Comma => Some(','),
        Key::GraveAccent => Some('`'),
        Key::Period => Some('.'),
        Key::Slash => Some('/'),
        Key::Minus => Some('-'),
        Key::Plus => Some('+'),
        Key::Equal => Some('='),
        Key::LeftBracket => Some('['),
        Key::RightBracket => Some(']'),
        Key::Backslash => Some('\\'),
        Key::Tab => Some('\t'),
        Key::KP0 => Some('0'),
        Key::KP1 => Some('1'),
        Key::KP2 => Some('2'),
        Key::KP3 => Some('3'),
        Key::KP4 => Some('4'),
        Key::KP5 => Some('5'),
        Key::KP6 => Some('6'),
        Key::KP7 => Some('7'),
        Key::KP8 => Some('8'),
        Key::KP9 => Some('9'),
        Key::KPDecimal => Some('.'),
        Key::KPDivide => Some('/'),
        Key::KPMultiply => Some('*'),
        Key::KPSubtract => Some('-'),
        Key::KPAdd => Some('+'),
        Key::KPEqual => Some('='),
        _ => None,
    }
}

/// The key that types the ASCII character `ascii`, keypad keys aside.
pub open spec fn spec_key_from_ascii(ascii: u8) -> Option<Key> {
    if ascii == 0x09 {
        Some(Key::Tab)
    }
    else if ascii == 0x20 {
        Some(Key::Space)
    }
    else if ascii == 0x27 {
        Some(Key::Apostrophe)
    }
    else if ascii == 0x2B {
        Some(Key::Plus)
    }
    else if ascii == 0x2C {
        Some(Key::Comma)
    }
    else if ascii == 0x2D {
        Some(Key::Minus)
    }
    else if ascii == 0x2E {
        Some(Key::Period)
    }
    else if ascii == 0x2F {
        Some(Key::Slash)
    }
    else if ascii == 0x30 {
        Some(Key::Zero)
    }
    else if ascii == 0x31 {
        Some(Key::One)
    }
    else if ascii == 0x32 {
        Some(Key::Two)
    }
    else if ascii == 0x33 {
        Some(Key::Three)
    }
    else if ascii == 0x34 {
        Some(Key::Four)
    }
    else if ascii == 0x35 {
        Some(Key::Five)
    }
    else if ascii == 0x36 {
        Some(Key::Six)
    }
    else if ascii == 0x37 {
        Some(Key::Seven)
    }
    else if ascii == 0x38 {
        Some(Key::Eight)
    }
    else if ascii == 0x39 {
        Some(Key::Nine)
    }
    else if ascii == 0x3B {
        Some(Key::Semicolon)
    }
    else if ascii == 0x3D {
        Some(Key::Equal)
    }
    else if ascii == 0x5B {
        Some(Key::LeftBracket)
    }
    else if ascii == 0x5C {
        Some(Key::Backslash)
    }
    else if ascii == 0x5D {
        Some(Key::RightBracket)
    }
    else if ascii == 0x60 {
        Some(Key::GraveAccent)
    }
    else if ascii == 0x61 {
        Some(Key::A)
    }
    else if ascii == 0x62 {
        Some(Key::B)
    }
    else if ascii == 0x63 {
        Some(Key::C)
    }
    else if ascii == 0x64 {
        Some(Key::D)
    }
    else if ascii == 0x65 {
        Some(Key::E)
    }
    else if ascii == 0x66 {
        Some(Key::F)
    }
    else if ascii == 0x67 {
        Some(Key::G)
    }
    else if ascii == 0x68 {
        Some(Key::H)
    }
    else if ascii == 0x69 {
        Some(Key::I)
    }
    else if ascii == 0x6A {
        Some(Key::J)
    }
    else if ascii == 0x6B {
        Some(Key::K)
    }
    else if ascii == 0x6C {
        Some(Key::L)
    }
    else if ascii == 0x6D {
        Some(Key::M)
    }
    else if ascii == 0x6E {
        Some(Key::N)
    }
    else if ascii == 0x6F {
        Some(Key::O)
    }
    else if ascii == 0x70 {
        Some(Key::P)
    }
    else if ascii == 0x71 {
        Some(Key::Q)
    }
    else if ascii == 0x72 {
        Some(Key::R)
    }
    else if ascii == 0x73 {
        Some(Key::S)
    }
    else if ascii == 0x74 {
        Some(Key::T)
    }
    else if ascii == 0x75 {
        Some(Key::U)
    }
    else if ascii == 0x76 {
        Some(Key::V)
    }
    else if ascii == 0x77 {
        Some(Key::W)
    }
    else if ascii == 0x78 {
        Some(Key::X)
    }
    else if ascii == 0x79 {
        Some(Key::Y)
    }
    else if ascii == 0x7A {
        Some(Key::Z)
    }
    else {
        None
    }
}

/// The eight modifier keys: left and right shift, control, alt and super.
pub open spec fn spec_is_modifier(key: Key) -> bool {
    match key {
        Key::LeftShift | Key::RightShift | Key::LeftControl | Key::RightControl | Key::LeftAlt
        | Key::RightAlt | Key::LeftSuper | Key::RightSuper => true,
        _ => false,
    }
}

pub open spec fn spec_is_keypad(key: Key) -> bool {
    match key {
        Key::KP0 | Key::KP1 | Key::KP2 | Key::KP3 | Key::KP4 | Key::KP5 | Key::KP6 | Key::KP7 | Key::KP8 | Key::KP9 | Key::KPDecimal | Key::KPDivide | Key::KPMultiply | Key::KPSubtract | Key::KPAdd | Key::KPEnter | Key::KPEqual | Key::KPSeparator | Key::KPLeft | Key::KPRight | Key::KPUp | Key::KPdown | Key::KPPageUp | Key::KPPageDown | Key::KPHome | Key::KPEnd | Key::KPInsert | Key::KPDelete | Key::KPBegin => true,
        _ => false,
    }
}

impl Key {
    /// The key that types `ascii` (keypad keys aside).
    pub fn from_ascii(ascii: u8) -> (r: Option<Key>)
        ensures
            r == spec_key_from_ascii(ascii),
    {
        match ascii {
            0x09 => Some(Key::Tab),
            0x20 => Some(Key::Space),
            0x27 => Some(Key::Apostrophe),
            0x2B => Some(Key::Plus),
            0x2C => Some(Key::Comma),
            0x2D => Some(Key::Minus),
            0x2E => Some(Key::Period),
            0x2F => Some(Key::Slash),
            0x30 => Some(Key::Zero),
            0x31 => Some(Key::One),
            0x32 => Some(Key::Two),
            0x33 => Some(Key::Three),
            0x34 => Some(Key::Four),
            0x35 => Some(Key::Five),
            0x36 => Some(Key::Six),
            0x37 => Some(Key::Seven),
            0x38 => Some(Key::Eight),
            0x39 => Some(Key::Nine),
            0x3B => Some(Key::Semicolon),
            0x3D => Some(Key::Equal),
            0x5B => Some(Key::LeftBracket),
            0x5C => Some(Key::Backslash),
            0x5D => Some(Key::RightBracket),
            0x60 => Some(Key::GraveAccent),
            0x61 => Some(Key::A),
            0x62 => Some(Key::B),
            0x63 => Some(Key::C),
            0x64 => Some(Key::D),
            0x65 => Some(Key::E),
            0x66 => Some(Key::F),
            0x67 => Some(Key::G),
            0x68 => Some(Key::H),
            0x69 => Some(Key::I),
            0x6A => Some(Key::J),
            0x6B => Some(Key::K),
            0x6C => Some(Key::L),
            0x6D => Some(Key::M),
            0x6E => Some(Key::N),
            0x6F => Some(Key::O),
            0x70 => Some(Key::P),
            0x71 => Some(Key::Q),
            0x72 => Some(Key::R),
            0x73 => Some(Key::S),
            0x74 => Some(Key::T),
            0x75 => Some(Key::U),
            0x76 => Some(Key::V),
            0x77 => Some(Key::W),
            0x78 => Some(Key::X),
            0x79 => Some(Key::Y),
            0x7A => Some(Key::Z),
            _ => None,
        }
    }

    /// Whether the key types a character.
    pub fn is_printable(self) -> (r: bool)
        ensures
            r == spec_key_char(self) is Some,
    {
        self.char().is_some()
    }

    /// The character that the key types.
    pub fn char(self) -> (r: Option<char>)
        ensures
            r == spec_key_char(self),
    {
        match self {
            Key::A => Some('a'),
            Key::B => Some('b'),
            Key::C => Some('c'),
            Key::D => Some('d'),
            Key::E => Some('e'),
            Key::F => Some('f'),
            Key::G => Some('g'),
            Key::H => Some('h'),
            Key::I => Some('i'),
            Key::J => Some('j'),
            Key::K => Some('k'),
            Key::L => Some('l'),
            Key::M => Some('m'),
            Key::N => Some('n'),
            Key::O => Some('o'),
            Key::P => Some('p'),
            Key::Q => Some('q'),
            Key::R => Some('r'),
            Key::S => Some('s'),
            Key::T => Some('t'),
            Key::U => Some('u'),
            Key::V => Some('v'),
            Key::W => Some('w'),
            Key::X => Some('x'),
            Key::Y => Some('y'),
            Key::Z => Some('z'),
            Key::Zero => Some('0'),
            Key::One => Some('1'),
            Key::Two => Some('2'),
            Key::Three => Some('3'),
            Key::Four => Some('4'),
            Key::Five => Some('5'),
            Key::Six => Some('6'),
            Key::Seven => Some('7'),
            Key::Eight => Some('8'),
            Key::Nine => Some('9'),
            Key::Semicolon => Some(';'),
            Key::Space => Some(' '),
            Key::Apostrophe => Some('\''),
            Key::Comma => Some(','),
            Key::GraveAccent => Some('`'),
            Key::Period => Some('.'),
            Key::Slash => Some('/'),
            Key::Minus => Some('-'),
            Key::Plus => Some('+'),
            Key::Equal => Some('='),
            Key::LeftBracket => Some('['),
            Key::RightBracket => Some(']'),
            Key::Backslash => Some('\\'),
            Key::Tab => Some('\t'),
            Key::KP0 => Some('0'),
            Key::KP1 => Some('1'),
            Key::KP2 => Some('2'),
            Key::KP3 => Some('3'),
            Key::KP4 => Some('4'),
            Key::KP5 => Some('5'),
            Key::KP6 => Some('6'),
            Key::KP7 => Some('7'),
            Key::KP8 => Some('8'),
            Key::KP9 => Some('9'),
            Key::KPDecimal => Some('.'),
            Key::KPDivide => Some('/'),
            Key::KPMultiply => Some('*'),
            Key::KPSubtract => Some('-'),
            Key::KPAdd => Some('+'),
            Key::KPEqual => Some('='),
            _ => None,
        }
    }

    pub fn is_shift(self) -> (r: bool)
        ensures
            r == (self == Key::LeftShift || self == Key::RightShift),
    {
        match self {
            Key::LeftShift | Key::RightShift => true,
            _ => false,
        }
    }

    pub fn is_alt(self) -> (r: bool)
        ensures
            r == (self == Key::LeftAlt || self == Key::RightAlt),
    {
        match self {
            Key::LeftAlt | Key::RightAlt => true,
            _ => false,
        }
    }

    pub fn is_control(self) -> (r: bool)
        ensures
            r == (self == Key::LeftControl || self == Key::RightControl),
    {
        match self {
            Key::LeftControl | Key::RightControl => true,
            _ => false,
        }
    }

    pub fn is_super(self) -> (r: bool)
        ensures
            r == (self == Key::LeftSuper || self == Key::RightSuper),
    {
        match self {
            Key::LeftSuper | Key::RightSuper => true,
            _ => false,
        }
    }

    /// Whether the key is one of the eight modifier keys.
    pub fn is_modifier(self) -> (r: bool)
        ensures
            r == spec_is_modifier(self),
    {
        self.is_control() || self.is_shift() || self.is_alt() || self.is_super()
    }

    /// Whether the key is on the keypad.
    pub fn is_keypad(self) -> (r: bool)
        ensures
            r == spec_is_keypad(self),
    {
        match self {
            Key::KP0 | Key::KP1 | Key::KP2 | Key::KP3 | Key::KP4 | Key::KP5 | Key::KP6 | Key::KP7 | Key::KP8 | Key::KP9 | Key::KPDecimal | Key::KPDivide | Key::KPMultiply | Key::KPSubtract | Key::KPAdd | Key::KPEnter | Key::KPEqual | Key::KPSeparator | Key::KPLeft | Key::KPRight | Key::KPUp | Key::KPdown | Key::KPPageUp | Key::KPPageDown | Key::KPHome | Key::KPEnd | Key::KPInsert | Key::KPDelete | Key::KPBegin => true,
            _ => false,
        }
    }
}

/// Reading a key back from the character it types gives the key, for every
/// key off the keypad; and a key read from a byte types that byte.
pub proof fn lemma_from_ascii_inverts_char(key: Key, ascii: u8)
    ensures
        spec_key_from_ascii(ascii) == Some(key) <==> (!spec_is_keypad(key) && spec_key_char(key)
            == Some(ascii as char)),
{
}

/// A set of modifier keys, one bit each: left shift, control, alt and
/// super in the low four bits, the right ones in the high four.
#[derive(Debug, Clone, Copy, PartialEq, Eq, Structural)]
pub struct Mods {
    bits: u8,
}

impl View for Mods {
    type V = u8;

    closed spec fn view(&self) -> u8 {
        self.bits
    }
}

impl Mods {
    pub fn empty() -> (r: Mods)
        ensures
            r@ == 0,
    {
        Mods { bits: 0 }
    }

    /// The set with exactly the bits of `bits`.
    pub fn from_bits_retain(bits: u8) -> (r: Mods)
        ensures
            r@ == bits,
    {
        Mods { bits }
    }

    pub fn bits(self) -> (r: u8)
        ensures
            r == self@,
    {
        self.bits
    }

    pub fn left_shift() -> (r: Mods)
        ensures
            r@ == 0x01,
    {
        Mods { bits: 0x01 }
    }

    pub fn left_ctrl() -> (r: Mods)
        ensures
            r@ == 0x02,
    {
        Mods { bits: 0x02 }
    }

    pub fn left_alt() -> (r: Mods)
        ensures
            r@ == 0x04,
    {
        Mods { bits: 0x04 }
    }

    pub fn left_super() -> (r: Mods)
        ensures
            r@ == 0x08,
    {
        Mods { bits: 0x08 }
    }

    pub fn right_shift() -> (r: Mods)
        ensures
            r@ == 0x10,
    {
        Mods { bits: 0x10 }
    }

    pub fn right_ctrl() -> (r: Mods)
        ensures
            r@ == 0x20,
    {
        Mods { bits: 0x20 }
    }

    pub fn right_alt() -> (r: Mods)
        ensures
            r@ == 0x40,
    {
        Mods { bits: 0x40 }
    }

    pub fn right_super() -> (r: Mods)
        ensures
            r@ == 0x80,
    {
        Mods { bits: 0x80 }
    }

    pub fn is_empty(self) -> (r: bool)
        ensures
            r == (self@ == 0),
    {
        self.bits == 0
    }

    /// Whether every modifier of `other` is in the set.
    pub fn contains(self, other: Mods) -> (r: bool)
        ensures
            r == (self@ & other@ == other@),
    {
        self.bits & other.bits == other.bits
    }

    pub fn union(self, other: Mods) -> (r: Mods)
        ensures
            r@ == self@ | other@,
    {
        Mods { bits: self.bits | other.bits }
    }

    /// The modifiers of the set that are not in `other`.
    pub fn difference(self, other: Mods) -> (r: Mods)
        ensures
            r@ == self@ & !other@,
    {
        Mods { bits: self.bits & !other.bits }
    }

    /// Adds the modifiers of `other` to the set.
    pub fn insert(&mut self, other: Mods)
        ensures
            final(self)@ == old(self)@ | other@,
    {
        self.bits = self.bits | other.bits;
    }

    /// Takes the modifiers of `other` out of the set.
    pub fn remove(&mut self, other: Mods)
        ensures
            final(self)@ == old(self)@ & !other@,
    {
        self.bits = self.bits & !other.bits;
    }
}

/// A key event: what happened, to which key, with which modifiers, and the
/// text it produced.
pub struct KeyEvent<'a> {
    pub action: Action,
    pub key: Key,
    pub physical_key: Key,
    pub mods: Mods,
    pub consumed_mods: Mods,
    pub composing: bool,
    pub utf8: &'a str,
    pub unshifted_char: char,
}

/// The modifiers that still apply once the text is produced: when there is
/// text, the modifiers it consumed are gone.
pub open spec fn spec_effective_mods(utf8: Seq<char>, mods: u8, consumed: u8) -> u8 {
    if utf8.len() == 0 {
        mods
    } else {
        mods & !consumed
    }
}

impl<'a> KeyEvent<'a> {
    /// A press of no key, with no modifiers and no text.
    pub fn new_default() -> (r: KeyEvent<'static>)
        ensures
            r.action == Action::Press,
            r.key == Key::Invalid,
            r.physical_key == Key::Invalid,
            r.mods@ == 0,
            r.consumed_mods@ == 0,
            !r.composing,
            r.utf8@ == Seq::<char>::empty(),
            r.unshifted_char == '\0',
    {
        let utf8 = "";
        proof {
            reveal_strlit("");
        }
        KeyEvent {
            action: Action::Press,
            key: Key::Invalid,
            physical_key: Key::Invalid,
            mods: Mods::empty(),
            consumed_mods: Mods::empty(),
            composing: false,
            utf8,
            unshifted_char: '\0',
        }
    }

    /// The modifiers that were not consumed to produce the text.
    pub fn effective_mods(&self) -> (r: Mods)
        ensures
            r@ == spec_effective_mods(self.utf8@, self.mods@, self.consumed_mods@),
    {
        if self.utf8.is_empty() {
            self.mods
        } else {
            self.mods.difference(self.consumed_mods)
        }
    }
}

} // verus!
