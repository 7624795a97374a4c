use vstd::prelude::*;
use vstd::utf8::{decode_utf8, valid_utf8};

use crate::saiga_vte::utf8::lemma_decode_nonempty;

verus! {

/// Whether `byte` can start a UTF-8 encoded character: ASCII or a valid
/// leading byte (`0xC2..=0xF4`).
pub open spec fn is_utf8_start(byte: u8) -> bool {
    byte <= 0x7F || (0xC2 <= byte <= 0xF4)
}

/// The position of the first byte that can start a UTF-8 character.
pub fn find_utf8_start(bytes: &[u8]) -> (r: Option<usize>)
    ensures
        r matches Some(i) ==> i < bytes@.len() && is_utf8_start(bytes@[i as int]) && forall|j: int|
            0 <= j < i ==> !is_utf8_start(#[trigger] bytes@[j]),
        r is None ==> forall|j: int| 0 <= j < bytes@.len() ==> !is_utf8_start(#[trigger] bytes@[j]),
{
    let mut i: usize = 0;
    while i < bytes.len()
        invariant
            i <= bytes@.len(),
            forall|j: int| 0 <= j < i ==> !is_utf8_start(#[trigger] bytes@[j]),
        decreases bytes@.len() - i,
    {
        let byte = bytes[i];
        if byte <= 0x7F || (0xC2 <= byte && byte <= 0xF4) {
            return Some(i);
        }
        i = i + 1;
    }
    None
}

/// The length of a UTF-8 encoding, in bytes.
#[derive(Clone, Copy, Debug, PartialEq, Eq, Structural)]
pub enum UTF8BytesCount {
    One,
    Two,
    Three,
    Four,
}

impl UTF8BytesCount {
    pub open spec fn spec_count(self) -> usize {
        match self {
            UTF8BytesCount::One => 1,
            UTF8BytesCount::Two => 2,
            UTF8BytesCount::Three => 3,
            UTF8BytesCount::Four => 4,
        }
    }

    /// The number of bytes.
    pub fn count(self) -> (r: usize)
        ensures
            r == self.spec_count(),
    {
        match self {
            UTF8BytesCount::One => 1,
            UTF8BytesCount::Two => 2,
            UTF8BytesCount::Three => 3,
            UTF8BytesCount::Four => 4,
        }
    }
}

pub open spec fn spec_expected_utf8_bytes_count(first_byte: u8) -> Option<UTF8BytesCount> {
    if first_byte <= 0x7F {
        Some(UTF8BytesCount::One)
    } else if 0xC2 <= first_byte <= 0xDF {
        Some(UTF8BytesCount::Two)
    } else if 0xE0 <= first_byte <= 0xEF {
        Some(UTF8BytesCount::Three)
    } else if 0xF0 <= first_byte <= 0xF4 {
        Some(UTF8BytesCount::Four)
    } else {
        None
    }
}

/// The length of the encoding that `first_byte` starts; `None` for bytes
/// that cannot start one.
pub fn expected_utf8_bytes_count(first_byte: u8) -> (r: Option<UTF8BytesCount>)
    ensures
        r == spec_expected_utf8_bytes_count(first_byte),
        r is Some <==> is_utf8_start(first_byte),
{
    if first_byte <= 0x7F {
        Some(UTF8BytesCount::One)
    } else if 0xC2 <= first_byte && first_byte <= 0xDF {
        Some(UTF8BytesCount::Two)
    } else if 0xE0 <= first_byte && first_byte <= 0xEF {
        Some(UTF8BytesCount::Three)
    } else if 0xF0 <= first_byte && first_byte <= 0xF4 {
        Some(UTF8BytesCount::Four)
    } else {
        None
    }
}

/// Calls `std::str::from_utf8`, which accepts exactly valid UTF-8 and then
/// holds the characters that the bytes encode.
#[verifier::external_body]
fn std_str_from_utf8(bytes: &[u8]) -> (r: Option<&str>)
    ensures
        r is Some <==> valid_utf8(bytes@),
        r matches Some(s) ==> s@ == decode_utf8(bytes@),
{
    std::str::from_utf8(bytes).ok()
}

/// The first character that valid, non-empty UTF-8 encodes.
pub fn char_from_utf8(utf8: &[u8]) -> (r: char)
    requires
        valid_utf8(utf8@),
        utf8@.len() > 0,
    ensures
        r == decode_utf8(utf8@)[0],
{
    proof {
        lemma_decode_nonempty(utf8@);
    }
    match std_str_from_utf8(utf8) {
        Some(s) => s.get_char(0),
        None => '\u{FFFD}',
    }
}

} // verus!
