use vstd::prelude::*;
use vstd::utf8::*;

verus! {

/// The longest UTF-8 encoding of a character, in bytes.
pub const MAX_LENGTH: usize = 4;

/// The character that stands for undecodable input.
pub const REPLACEMENT_CHARACTER: char = '\u{FFFD}';

/// Calls `simdutf8::basic::from_utf8`, which validates `bytes` as UTF-8 and
/// returns them as a `str` when they are valid.
///
/// Trusted: the result is `Some` exactly for valid UTF-8 (vstd's
/// `valid_utf8`), and then holds the characters that the bytes encode
/// (vstd's `decode_utf8`).
#[verifier::external_body]
pub(crate) fn from_utf8(bytes: &[u8]) -> (r: Option<&str>)
    ensures
        r is Some <==> valid_utf8(bytes@),
        r matches Some(s) ==> s@ == decode_utf8(bytes@),
{
    simdutf8::basic::from_utf8(bytes).ok()
}

/// Valid non-empty UTF-8 encodes at least one character.
pub proof fn lemma_decode_nonempty(bytes: Seq<u8>)
    requires
        valid_utf8(bytes),
        bytes.len() > 0,
    ensures
        decode_utf8(bytes).len() > 0,
        decode_utf8(bytes)[0] == decode_first_scalar(bytes) as char,
{
    assert(decode_utf8(bytes) == seq![decode_first_scalar(bytes) as char] + decode_utf8(
        pop_first_scalar(bytes),
    ));
}

/// The character that `utf8` starts with when it is valid UTF-8, else the
/// replacement character.
pub open spec fn spec_into_char(utf8: Seq<u8>) -> char {
    if valid_utf8(utf8) {
        decode_first_scalar(utf8) as char
    } else {
        REPLACEMENT_CHARACTER
    }
}

/// Decodes the first character of `utf8`; invalid input gives the
/// replacement character.
pub fn into_char(utf8: &[u8]) -> (r: char)
    requires
        utf8@.len() > 0,
    ensures
        r == spec_into_char(utf8@),
{
    match from_utf8(utf8) {
        Some(s) => {
            proof {
                lemma_decode_nonempty(utf8@);
            }
            s.get_char(0)
        },
        None => REPLACEMENT_CHARACTER,
    }
}

/// The length of the UTF-8 encoding that starts with `first_byte`, or `None`
/// when the byte cannot start one (a continuation byte or 0xF8 and above).
pub open spec fn spec_expected_bytes_count(first_byte: u8) -> Option<usize> {
    if first_byte < 0x80 {
        Some(1)
    } else if first_byte < 0xC0 {
        None
    } else if first_byte < 0xE0 {
        Some(2)
    } else if first_byte < 0xF0 {
        Some(3)
    } else if first_byte < 0xF8 {
        Some(4)
    } else {
        None
    }
}

pub fn expected_bytes_count(first_byte: u8) -> (r: Option<usize>)
    ensures
        r == spec_expected_bytes_count(first_byte),
{
    if first_byte < 0x80 {
        Some(1)
    } else if first_byte < 0xC0 {
        None
    } else if first_byte < 0xE0 {
        Some(2)
    } else if first_byte < 0xF0 {
        Some(3)
    } else if first_byte < 0xF8 {
        Some(4)
    } else {
        None
    }
}

/// The length that `expected_bytes_count` gives agrees with the leading-byte
/// classes of UTF-8.
pub proof fn lemma_expected_bytes_count_matches_leading_byte(b: u8)
    ensures
        spec_expected_bytes_count(b) == Some(1usize) <==> is_leading_byte_width_1(b),
        spec_expected_bytes_count(b) == Some(2usize) <==> is_leading_byte_width_2(b),
        spec_expected_bytes_count(b) == Some(3usize) <==> is_leading_byte_width_3(b),
        spec_expected_bytes_count(b) == Some(4usize) <==> is_leading_byte_width_4(b),
        spec_expected_bytes_count(b) is None <==> (is_continuation_byte(b) || b >= 0xF8),
{
}

/// Collects the bytes of one UTF-8 encoded character.
pub struct UTF8Collector {
    bytes: [u8; 4],
    len: usize,
    remaining_count: usize,
}

impl View for UTF8Collector {
    type V = Seq<u8>;

    /// The bytes collected so far.
    closed spec fn view(&self) -> Seq<u8> {
        self.bytes@.subrange(0, self.len as int)
    }
}

impl UTF8Collector {
    /// Well-formed: no more bytes than the array holds.
    pub closed spec fn wf(self) -> bool {
        self.len <= MAX_LENGTH
    }

    /// How many more bytes the character being collected needs.
    pub closed spec fn remaining(self) -> usize {
        self.remaining_count
    }

    pub fn remaining_count(&self) -> (r: usize)
        ensures
            r == self.remaining(),
    {
        self.remaining_count
    }

    pub fn set_remaining_count(&mut self, count: usize)
        ensures
            final(self).remaining() == count,
            final(self)@ == old(self)@,
            final(self).wf() == old(self).wf(),
    {
        self.remaining_count = count;
    }

    pub fn new() -> (r: UTF8Collector)
        ensures
            r.wf(),
            r@ == Seq::<u8>::empty(),
            r.remaining() == 0,
    {
        let r = UTF8Collector { bytes: [0u8; 4], len: 0, remaining_count: 0 };
        assert(r@ =~= Seq::<u8>::empty());
        r
    }

    /// Number of bytes collected so far.
    pub fn len(&self) -> (r: usize)
        requires
            self.wf(),
        ensures
            r == self@.len(),
            r <= MAX_LENGTH,
    {
        self.len
    }

    /// Adds a byte; the collector must not be full.
    pub fn push(&mut self, byte: u8)
        requires
            old(self).wf(),
            old(self)@.len() < MAX_LENGTH,
        ensures
            final(self).wf(),
            final(self)@ == old(self)@.push(byte),
            final(self).remaining() == old(self).remaining(),
    {
        let ghost before = self@;
        self.bytes[self.len] = byte;
        self.len = self.len + 1;
        assert(self@ =~= before.push(byte));
    }

    /// The collected bytes.
    pub fn as_slice(&self) -> (r: &[u8])
        requires
            self.wf(),
        ensures
            r@ == self@,
    {
        &self.bytes.as_slice()[0..self.len]
    }

    /// Forgets the collected bytes and the expected count.
    pub fn reset(&mut self)
        ensures
            final(self).wf(),
            final(self)@ == Seq::<u8>::empty(),
            final(self).remaining() == 0,
    {
        self.len = 0;
        self.remaining_count = 0;
        assert(self@ =~= Seq::<u8>::empty());
    }

    /// The character the collected bytes encode (the replacement character
    /// when they are not valid UTF-8); at least one byte must be collected.
    pub fn char(&self) -> (r: char)
        requires
            self.wf(),
            self@.len() > 0,
        ensures
            r == spec_into_char(self@),
    {
        into_char(self.as_slice())
    }
}

} // verus!
