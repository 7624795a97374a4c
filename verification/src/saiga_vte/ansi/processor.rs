use vstd::prelude::*;
use vstd::utf8::{encode_scalar, encode_utf8, valid_utf8};

use super::executor::{
    calls_view, csi_calls, esc_calls, execute_calls, osc_calls, spec_csi, spec_esc, spec_execute,
    spec_osc, HandlerCall, HandlerCallV,
};
use super::handler::{
    is_bel, spec_named_color_index, Attribute, Color, Handler, NamedColor, NamedPrivateMode,
    PrivateMode, Rgb,
};
use crate::saiga_vte::utf8::from_utf8;
use crate::swiftty_vte::ansi::processor::{
    idle, is_printable_char, lemma_feed_params_nonempty, lemma_run_char, spec_feed,
    spec_feed_defined, spec_run, spec_run_defined, Processor as TextProcessor,
    ProcessorView as TextView,
};
use crate::swiftty_vte::parser::{
    all_dispatch_params_nonempty, dispatch_params_nonempty, dispatches_view, Dispatch, DispatchV,
    Parser, ParserView,
};
use std::time::{Duration, Instant};

verus! {

// ---------------------------------------------------------------------------
// Splitting byte strings
// ---------------------------------------------------------------------------

/// `s` cut at every `sep`; there is always at least one part.
pub open spec fn spec_split(s: Seq<u8>, sep: u8) -> Seq<Seq<u8>>
    decreases s.len(),
{
    if s.len() == 0 {
        seq![Seq::empty()]
    } else {
        let p = spec_split(s.drop_last(), sep);
        if s.last() == sep {
            p.push(Seq::empty())
        } else {
            p.update(p.len() - 1, p.last().push(s.last()))
        }
    }
}

pub proof fn lemma_split_nonempty(s: Seq<u8>, sep: u8)
    ensures
        spec_split(s, sep).len() >= 1,
    decreases s.len(),
{
    if s.len() > 0 {
        lemma_split_nonempty(s.drop_last(), sep);
    }
}

pub open spec fn byte_seqs(v: Seq<Vec<u8>>) -> Seq<Seq<u8>> {
    v.map_values(|p: Vec<u8>| p@)
}

/// Cuts `s` at every `sep`.
pub fn split_bytes(s: &[u8], sep: u8) -> (r: Vec<Vec<u8>>)
    ensures
        byte_seqs(r@) == spec_split(s@, sep),
{
    let mut parts: Vec<Vec<u8>> = Vec::new();
    let mut cur: Vec<u8> = Vec::new();
    let mut i: usize = 0;
    assert(s@.take(0) =~= Seq::<u8>::empty());
    assert(byte_seqs(parts@).push(cur@) =~= spec_split(s@.take(0), sep));
    while i < s.len()
        invariant
            i <= s@.len(),
            byte_seqs(parts@).push(cur@) == spec_split(s@.take(i as int), sep),
        decreases s@.len() - i,
    {
        let ghost prev = s@.take(i as int);
        assert(s@.take(i + 1).drop_last() =~= prev);
        proof {
            lemma_split_nonempty(prev, sep);
        }
        let ghost parts_before = byte_seqs(parts@);
        if s[i] == sep {
            let finished = cur;
            let ghost fv = finished@;
            parts.push(finished);
            cur = Vec::new();
            assert(byte_seqs(parts@) =~= parts_before.push(fv));
            assert(byte_seqs(parts@).push(cur@) =~= spec_split(s@.take(i + 1), sep));
        } else {
            let ghost before = cur@;
            cur.push(s[i]);
            assert(byte_seqs(parts@).push(cur@) =~= spec_split(s@.take(i + 1), sep));
        }
        i = i + 1;
    }
    assert(s@.take(i as int) =~= s@);
    let ghost pv = byte_seqs(parts@);
    let last = cur;
    let ghost lv = last@;
    parts.push(last);
    assert(byte_seqs(parts@) =~= pv.push(lv));
    parts
}

// ---------------------------------------------------------------------------
// Decimal numbers
// ---------------------------------------------------------------------------

pub open spec fn is_decimal_digit(b: u8) -> bool {
    0x30 <= b <= 0x39
}

/// The number that decimal digits `s` write.
pub open spec fn spec_decimal(s: Seq<u8>) -> int
    decreases s.len(),
{
    if s.len() == 0 {
        0
    } else {
        spec_decimal(s.drop_last()) * 10 + (s.last() - 0x30)
    }
}

pub open spec fn all_decimal_digits(s: Seq<u8>) -> bool {
    forall|i: int| 0 <= i < s.len() ==> is_decimal_digit(#[trigger] s[i])
}

/// What `parse_number` gives: the value of a non-empty run of decimal digits
/// that fits in a `u8`.
pub open spec fn spec_parse_number(s: Seq<u8>) -> Option<u8> {
    if s.len() > 0 && all_decimal_digits(s) && spec_decimal(s) <= u8::MAX {
        Some(spec_decimal(s) as u8)
    } else {
        None
    }
}

/// A longer run of digits writes a number no smaller.
pub proof fn lemma_decimal_monotone(s: Seq<u8>, j: int, k: int)
    requires
        all_decimal_digits(s),
        0 <= j <= k <= s.len(),
    ensures
        0 <= spec_decimal(s.take(j)) <= spec_decimal(s.take(k)),
    decreases k,
{
    if k > 0 {
        assert(s.take(k).drop_last() =~= s.take(k - 1));
        assert(is_decimal_digit(s[k - 1]));
        lemma_decimal_monotone(s, if j < k { j } else { k - 1 }, k - 1);
    } else {
        assert(s.take(0) =~= Seq::<u8>::empty());
    }
}

/// Parses a non-empty run of decimal digits into a `u8`.
pub fn parse_number(input: &[u8]) -> (r: Option<u8>)
    ensures
        r == spec_parse_number(input@),
{
    if input.len() == 0 {
        return None;
    }
    let mut num: u8 = 0;
    let mut i: usize = 0;
    assert(input@.take(0) =~= Seq::<u8>::empty());
    while i < input.len()
        invariant
            i <= input@.len(),
            input@.len() > 0,
            all_decimal_digits(input@.take(i as int)),
            num == spec_decimal(input@.take(i as int)),
        decreases input@.len() - i,
    {
        let c = input[i];
        assert(input@.take(i + 1).drop_last() =~= input@.take(i as int));
        if !(0x30 <= c && c <= 0x39) {
            return None;
        }
        assert(all_decimal_digits(input@.take(i + 1)));
        let digit: u8 = c - 0x30;
        if num > 25 || (num == 25 && digit > 5) {
            proof {
                if all_decimal_digits(input@) {
                    lemma_decimal_monotone(input@, i + 1, input@.len() as int);
                    assert(input@.take(input@.len() as int) =~= input@);
                }
            }
            return None;
        }
        num = num * 10 + digit;
        i = i + 1;
    }
    assert(input@.take(i as int) =~= input@);
    Some(num)
}

// ---------------------------------------------------------------------------
// Hexadecimal numbers, as `from_str_radix(_, 16)` reads them
// ---------------------------------------------------------------------------

pub open spec fn spec_hex_digit(b: u8) -> Option<int> {
    if 0x30 <= b <= 0x39 {
        Some(b - 0x30)
    } else if 0x61 <= b <= 0x66 {
        Some(b - 0x61 + 10)
    } else if 0x41 <= b <= 0x46 {
        Some(b - 0x41 + 10)
    } else {
        None
    }
}

pub open spec fn all_hex_digits(s: Seq<u8>) -> bool {
    forall|i: int| 0 <= i < s.len() ==> (#[trigger] spec_hex_digit(s[i])) is Some
}

/// The number that hexadecimal digits `s` write.
pub open spec fn spec_hex_value(s: Seq<u8>) -> int
    decreases s.len(),
{
    if s.len() == 0 {
        0
    } else {
        spec_hex_value(s.drop_last()) * 16 + spec_hex_digit(s.last())->0
    }
}

/// The digits of a number as `from_str_radix` takes them: an optional `+`
/// followed by at least one digit.
pub open spec fn spec_radix16_digits(s: Seq<u8>) -> Option<Seq<u8>> {
    let digits = if s.len() > 0 && s[0] == 0x2B {
        s.drop_first()
    } else {
        s
    };
    if digits.len() > 0 && all_hex_digits(digits) {
        Some(digits)
    } else {
        None
    }
}

/// What `from_str_radix(s, 16)` gives for an unsigned type whose largest
/// value is `max`.
pub open spec fn spec_from_radix16(s: Seq<u8>, max: int) -> Option<int> {
    match spec_radix16_digits(s) {
        Some(d) => if spec_hex_value(d) <= max {
            Some(spec_hex_value(d))
        } else {
            None
        },
        None => None,
    }
}

pub open spec fn pow16(n: nat) -> int
    decreases n,
{
    if n == 0 {
        1
    } else {
        16 * pow16((n - 1) as nat)
    }
}

/// `k` digits write a number below `16^k`; longer runs write larger numbers.
pub proof fn lemma_hex_bounds(s: Seq<u8>, j: int, k: int)
    requires
        all_hex_digits(s),
        0 <= j <= k <= s.len(),
    ensures
        0 <= spec_hex_value(s.take(j)) <= spec_hex_value(s.take(k)),
        spec_hex_value(s.take(k)) < pow16(k as nat),
    decreases k,
{
    if k > 0 {
        assert(s.take(k).drop_last() =~= s.take(k - 1));
        assert(spec_hex_digit(s[k - 1]) is Some);
        lemma_hex_bounds(s, if j < k { j } else { k - 1 }, k - 1);
    } else {
        assert(s.take(0) =~= Seq::<u8>::empty());
    }
}

fn hex_digit(b: u8) -> (r: Option<u64>)
    ensures
        r matches Some(v) ==> spec_hex_digit(b) == Some(v as int),
        r is None ==> spec_hex_digit(b) is None,
{
    if 0x30 <= b && b <= 0x39 {
        Some((b - 0x30) as u64)
    } else if 0x61 <= b && b <= 0x66 {
        Some((b - 0x61 + 10) as u64)
    } else if 0x41 <= b && b <= 0x46 {
        Some((b - 0x41 + 10) as u64)
    } else {
        None
    }
}

/// Reads `s` as `u64::from_str_radix(s, 16)` does.
pub fn from_radix16(s: &[u8]) -> (r: Option<u64>)
    ensures
        r matches Some(v) ==> spec_from_radix16(s@, u64::MAX as int) == Some(v as int),
        r is None ==> spec_from_radix16(s@, u64::MAX as int) is None,
{
    let start: usize = if s.len() > 0 && s[0] == 0x2B {
        1
    } else {
        0
    };
    let ghost digits = s@.subrange(start as int, s@.len() as int);
    assert(start == 1 ==> digits =~= s@.drop_first());
    assert(start == 0 ==> digits =~= s@);
    if start >= s.len() {
        return None;
    }
    assert(spec_radix16_digits(s@) == (if all_hex_digits(digits) {
        Some(digits)
    } else {
        None::<Seq<u8>>
    }));
    let mut value: u64 = 0;
    let mut i: usize = start;
    assert(digits.take(0) =~= Seq::<u8>::empty());
    while i < s.len()
        invariant
            start <= i <= s@.len(),
            start < s@.len(),
            digits == s@.subrange(start as int, s@.len() as int),
            digits.len() > 0,
            spec_radix16_digits(s@) == (if all_hex_digits(digits) {
                Some(digits)
            } else {
                None::<Seq<u8>>
            }),
            all_hex_digits(digits.take(i - start)),
            value == spec_hex_value(digits.take(i - start)),
        decreases s@.len() - i,
    {
        let ghost k: int = i - start;
        assert(digits.take(k + 1).drop_last() =~= digits.take(k));
        assert(digits[k] == s@[i as int]);
        match hex_digit(s[i]) {
            None => {
                assert(spec_hex_digit(digits[k]) is None);
                assert(!all_hex_digits(digits));
                return None;
            },
            Some(d) => {
                assert(all_hex_digits(digits.take(k + 1)));
                if value > (u64::MAX - d) / 16 {
                    proof {
                        if all_hex_digits(digits) {
                            lemma_hex_bounds(digits, k + 1, digits.len() as int);
                            assert(digits.take(digits.len() as int) =~= digits);
                            assert(spec_hex_value(digits.take(k + 1)) == value * 16 + d);
                            assert(value * 16 + d > u64::MAX);
                        }
                    }
                    return None;
                }
                value = value * 16 + d;
            },
        }
        i = i + 1;
    }
    assert(digits.take(i - start) =~= digits);
    Some(value)
}

// ---------------------------------------------------------------------------
// XParseColor
// ---------------------------------------------------------------------------

/// One channel of `rgb:r/g/b`: one to four hex digits, scaled to 0..=255.
pub open spec fn spec_scale(input: Seq<u8>) -> Option<u8> {
    if input.len() > 4 {
        None
    } else {
        match spec_from_radix16(input, u32::MAX as int) {
            Some(v) => Some((255 * v / (pow16(input.len()) - 1)) as u8),
            None => None,
        }
    }
}

/// Colors in `rgb:r(rrr)/g(ggg)/b(bbb)` format, the part after `rgb:`.
pub open spec fn spec_parse_rgb_color(color: Seq<u8>) -> Option<Rgb> {
    if !valid_utf8(color) {
        None
    } else {
        let parts = spec_split(color, 0x2F);
        if parts.len() != 3 {
            None
        } else {
            match (spec_scale(parts[0]), spec_scale(parts[1]), spec_scale(parts[2])) {
                (Some(r), Some(g), Some(b)) => Some(Rgb { r, g, b }),
                _ => None,
            }
        }
    }
}

/// One channel of `#rgb`: its hex digits shifted left by four bits within
/// 64 bits, then right by four bits per digit after the first, truncated to
/// a byte (two digits are kept, one is widened).
pub open spec fn spec_legacy_channel(slice: Seq<u8>) -> Option<u8> {
    if !valid_utf8(slice) {
        None
    } else {
        match spec_from_radix16(slice, u64::MAX as int) {
            Some(v) => if slice.len() - 1 >= 16 {
                None
            } else {
                Some(
                    (((v % 0x1000_0000_0000_0000) * 16) / pow16((slice.len() - 1) as nat)
                        % 256) as u8,
                )
            },
            None => None,
        }
    }
}

/// Colors in `#r(rrr)g(ggg)b(bbb)` format, the part after `#`: the string
/// is cut in three, the last part taking what is left over.
pub open spec fn spec_parse_legacy_color(color: Seq<u8>) -> Option<Rgb> {
    let n = color.len() / 3;
    match (
        spec_legacy_channel(color.subrange(0, n as int)),
        spec_legacy_channel(color.subrange(n as int, 2 * n as int)),
        spec_legacy_channel(color.subrange(2 * n as int, color.len() as int)),
    ) {
        (Some(r), Some(g), Some(b)) => Some(Rgb { r, g, b }),
        _ => None,
    }
}

/// Colors in XParseColor format: `#...` or `rgb:...`.
pub open spec fn spec_xparse_color(color: Seq<u8>) -> Option<Rgb> {
    if color.len() > 0 && color[0] == 0x23 {
        spec_parse_legacy_color(color.drop_first())
    } else if color.len() >= 4 && color.take(4) == seq![0x72u8, 0x67, 0x62, 0x3A] {
        spec_parse_rgb_color(color.skip(4))
    } else {
        None
    }
}

fn scale(input: &[u8]) -> (r: Option<u8>)
    ensures
        r == spec_scale(input@),
{
    let len = input.len();
    if len > 4 {
        return None;
    }
    let max: u32 = if len == 1 {
        15
    } else if len == 2 {
        255
    } else if len == 3 {
        4095
    } else {
        65535
    };
    match from_radix16(input) {
        Some(v) => {
            proof {
                let d = spec_radix16_digits(input@)->0;
                lemma_hex_bounds(d, 0, d.len() as int);
                assert(d.take(d.len() as int) =~= d);
                assert(d.len() <= input@.len());
                reveal_with_fuel(pow16, 5);
                if d.len() < input@.len() {
                    lemma_pow16_monotone(d.len(), input@.len());
                }
                assert(len >= 1);
                assert(v <= max);
            }
            let v32: u32 = v as u32;
            assert((255 * v32) as int / (max as int) <= 255) by (nonlinear_arith)
                requires
                    v32 <= max,
                    max > 0,
            ;
            assert(255 * v32 <= 255 * 65535) by (nonlinear_arith)
                requires
                    v32 <= 65535,
            ;
            Some((255 * v32 / max) as u8)
        },
        None => None,
    }
}

pub proof fn lemma_pow16_monotone(j: nat, k: nat)
    requires
        j <= k,
    ensures
        1 <= pow16(j) <= pow16(k),
    decreases k,
{
    if k > 0 && j < k {
        lemma_pow16_monotone(j, (k - 1) as nat);
    } else if k > 0 {
        lemma_pow16_monotone((k - 1) as nat, (k - 1) as nat);
    }
}

/// Parses colors in `rgb:r(rrr)/g(ggg)/b(bbb)` format (given without `rgb:`).
pub fn parse_rgb_color(color: &[u8]) -> (r: Option<Rgb>)
    ensures
        r == spec_parse_rgb_color(color@),
{
    if from_utf8(color).is_none() {
        return None;
    }
    let colors = split_bytes(color, 0x2F);
    if colors.len() != 3 {
        return None;
    }
    assert(colors@[0]@ == spec_split(color@, 0x2F)[0]);
    assert(colors@[1]@ == spec_split(color@, 0x2F)[1]);
    assert(colors@[2]@ == spec_split(color@, 0x2F)[2]);
    let r = match scale(colors[0].as_slice()) {
        Some(v) => v,
        None => return None,
    };
    let g = match scale(colors[1].as_slice()) {
        Some(v) => v,
        None => return None,
    };
    let b = match scale(colors[2].as_slice()) {
        Some(v) => v,
        None => return None,
    };
    Some(Rgb { r, g, b })
}

fn legacy_channel(slice: &[u8]) -> (r: Option<u8>)
    ensures
        r == spec_legacy_channel(slice@),
{
    if from_utf8(slice).is_none() {
        return None;
    }
    let col = match from_radix16(slice) {
        Some(v) => v,
        None => return None,
    };
    let digits_after_first = if slice.len() > 0 {
        slice.len() - 1
    } else {
        0
    };
    if digits_after_first >= 16 {
        return None;
    }
    let shifted: u64 = (col % 0x1000_0000_0000_0000) * 16;
    let mut divisor: u64 = 1;
    let mut k: usize = 0;
    while k < digits_after_first
        invariant
            k <= digits_after_first < 16,
            divisor == pow16(k as nat),
            1 <= divisor <= 0x1000_0000_0000_0000,
        decreases digits_after_first - k,
    {
        proof {
            lemma_pow16_monotone((k + 1) as nat, 15);
            reveal_with_fuel(pow16, 16);
            assert(pow16(15) == 0x1000_0000_0000_0000);
        }
        divisor = divisor * 16;
        k = k + 1;
    }
    proof {
        assert(spec_radix16_digits(slice@) is Some);
    }
    Some(((shifted / divisor) % 256) as u8)
}

/// Parses colors in `#r(rrr)g(ggg)b(bbb)` format (given without `#`).
pub fn parse_legacy_color(color: &[u8]) -> (r: Option<Rgb>)
    ensures
        r == spec_parse_legacy_color(color@),
{
    let item_len = color.len() / 3;
    let r = match legacy_channel(vstd::slice::slice_subrange(color, 0, item_len)) {
        Some(v) => v,
        None => return None,
    };
    let g = match legacy_channel(vstd::slice::slice_subrange(color, item_len, item_len * 2)) {
        Some(v) => v,
        None => return None,
    };
    let b = match legacy_channel(vstd::slice::slice_subrange(color, item_len * 2, color.len())) {
        Some(v) => v,
        None => return None,
    };
    Some(Rgb { r, g, b })
}

/// Parses colors in XParseColor format.
pub fn xparse_color(color: &[u8]) -> (r: Option<Rgb>)
    ensures
        r == spec_xparse_color(color@),
{
    if color.len() > 0 && color[0] == 0x23 {
        let rest = vstd::slice::slice_subrange(color, 1, color.len());
        assert(rest@ =~= color@.drop_first());
        parse_legacy_color(rest)
    } else if color.len() >= 4 && color[0] == 0x72 && color[1] == 0x67 && color[2] == 0x62
        && color[3] == 0x3A {
        assert(color@.take(4) =~= seq![0x72u8, 0x67, 0x62, 0x3A]);
        let rest = vstd::slice::slice_subrange(color, 4, color.len());
        assert(rest@ =~= color@.skip(4));
        parse_rgb_color(rest)
    } else {
        proof {
            if color@.len() >= 4 && color@.take(4) == seq![0x72u8, 0x67, 0x62, 0x3A] {
                assert(color@.take(4)[0] == color@[0]);
                assert(color@.take(4)[1] == color@[1]);
                assert(color@.take(4)[2] == color@[2]);
                assert(color@.take(4)[3] == color@[3]);
            }
        }
        None
    }
}

// ---------------------------------------------------------------------------
// SGR parameters
// ---------------------------------------------------------------------------

/// A color given as subparameters: `2;r;g;b` or `5;index`. Also says how
/// many values it read: reading stops at the first missing or too large one,
/// which is still read.
pub open spec fn spec_subparam_color(values: Seq<u16>) -> (Option<Color>, int) {
    if values.len() == 0 {
        (None, 0)
    } else if values[0] == 2 {
        if values.len() < 2 {
            (None, 1)
        } else if values[1] > 255 {
            (None, 2)
        } else if values.len() < 3 {
            (None, 2)
        } else if values[2] > 255 {
            (None, 3)
        } else if values.len() < 4 {
            (None, 3)
        } else if values[3] > 255 {
            (None, 4)
        } else {
            (
                Some(
                    Color::Spec(
                        Rgb { r: values[1] as u8, g: values[2] as u8, b: values[3] as u8 },
                    ),
                ),
                4,
            )
        }
    } else if values[0] == 5 {
        if values.len() < 2 {
            (None, 1)
        } else if values[1] > 255 {
            (None, 2)
        } else {
            (Some(Color::Indexed(values[1] as u8)), 2)
        }
    } else {
        (None, 1)
    }
}

/// Parses a color specifier from subparameter values; returns it and how
/// many values were read.
pub fn subparam_sgr_to_color(values: &[u16]) -> (r: (Option<Color>, usize))
    ensures
        (r.0, r.1 as int) == spec_subparam_color(values@),
{
    let n = values.len();
    if n == 0 {
        (None, 0)
    } else if values[0] == 2 {
        if n < 2 {
            (None, 1)
        } else if values[1] > 255 {
            (None, 2)
        } else if n < 3 {
            (None, 2)
        } else if values[2] > 255 {
            (None, 3)
        } else if n < 4 {
            (None, 3)
        } else if values[3] > 255 {
            (None, 4)
        } else {
            (
                Some(
                    Color::Spec(
                        Rgb { r: values[1] as u8, g: values[2] as u8, b: values[3] as u8 },
                    ),
                ),
                4,
            )
        }
    } else if values[0] == 5 {
        if n < 2 {
            (None, 1)
        } else if values[1] > 255 {
            (None, 2)
        } else {
            (Some(Color::Indexed(values[1] as u8)), 2)
        }
    } else {
        (None, 1)
    }
}

/// The color of a colon-separated parameter such as `38:2::r:g:b`, given
/// what follows its first value: with more than four values the second
/// (the color space) is skipped.
pub open spec fn spec_colon_rgb(params: Seq<u16>) -> Option<Color> {
    let start: int = if params.len() > 4 {
        2
    } else {
        1
    };
    spec_subparam_color(seq![params[0]] + params.subrange(start, params.len() as int)).0
}

/// Handles a colon separated rgb color escape sequence.
pub fn handle_colon_rgb(params: &[u16]) -> (r: Option<Color>)
    requires
        params@.len() >= 1,
    ensures
        r == spec_colon_rgb(params@),
{
    let rgb_start: usize = if params.len() > 4 {
        2
    } else {
        1
    };
    let mut values: Vec<u16> = Vec::new();
    values.push(params[0]);
    let mut i: usize = rgb_start;
    while i < params.len()
        invariant
            rgb_start <= i <= params@.len(),
            params@.len() >= 1,
            rgb_start == (if params@.len() > 4 { 2usize } else { 1usize }),
            values@ == seq![params@[0]] + params@.subrange(rgb_start as int, i as int),
        decreases params@.len() - i,
    {
        values.push(params[i]);
        i = i + 1;
        assert(values@ =~= seq![params@[0]] + params@.subrange(rgb_start as int, i as int));
    }
    subparam_sgr_to_color(values.as_slice()).0
}

/// The named color of the eight basic ones (`k` below 8) or their bright
/// variants.
pub open spec fn spec_basic_color(k: u16, bright: bool) -> NamedColor {
    if !bright {
        if k == 0 {
            NamedColor::Black
        } else if k == 1 {
            NamedColor::Red
        } else if k == 2 {
            NamedColor::Green
        } else if k == 3 {
            NamedColor::Yellow
        } else if k == 4 {
            NamedColor::Blue
        } else if k == 5 {
            NamedColor::Magenta
        } else if k == 6 {
            NamedColor::Cyan
        } else {
            NamedColor::White
        }
    } else {
        if k == 0 {
            NamedColor::BrightBlack
        } else if k == 1 {
            NamedColor::BrightRed
        } else if k == 2 {
            NamedColor::BrightGreen
        } else if k == 3 {
            NamedColor::BrightYellow
        } else if k == 4 {
            NamedColor::BrightBlue
        } else if k == 5 {
            NamedColor::BrightMagenta
        } else if k == 6 {
            NamedColor::BrightCyan
        } else {
            NamedColor::BrightWhite
        }
    }
}

fn basic_color(k: u16, bright: bool) -> (r: NamedColor)
    ensures
        r == spec_basic_color(k, bright),
{
    if !bright {
        if k == 0 {
            NamedColor::Black
        } else if k == 1 {
            NamedColor::Red
        } else if k == 2 {
            NamedColor::Green
        } else if k == 3 {
            NamedColor::Yellow
        } else if k == 4 {
            NamedColor::Blue
        } else if k == 5 {
            NamedColor::Magenta
        } else if k == 6 {
            NamedColor::Cyan
        } else {
            NamedColor::White
        }
    } else {
        if k == 0 {
            NamedColor::BrightBlack
        } else if k == 1 {
            NamedColor::BrightRed
        } else if k == 2 {
            NamedColor::BrightGreen
        } else if k == 3 {
            NamedColor::BrightYellow
        } else if k == 4 {
            NamedColor::BrightBlue
        } else if k == 5 {
            NamedColor::BrightMagenta
        } else if k == 6 {
            NamedColor::BrightCyan
        } else {
            NamedColor::BrightWhite
        }
    }
}

/// The attribute that one SGR parameter sets on its own (the parameters
/// `38`, `48` and `58` without subparameters read the following parameters
/// and are handled by [`spec_sgr_attrs_from`]).
pub open spec fn spec_sgr_single(p: Seq<u16>) -> Option<Attribute> {
    if p.len() == 1 {
        let v = p[0];
        if v == 0 {
            Some(Attribute::Reset)
        } else if v == 1 {
            Some(Attribute::Bold)
        } else if v == 2 {
            Some(Attribute::Dim)
        } else if v == 3 {
            Some(Attribute::Italic)
        } else if v == 4 {
            Some(Attribute::Underline)
        } else if v == 5 {
            Some(Attribute::BlinkSlow)
        } else if v == 6 {
            Some(Attribute::BlinkFast)
        } else if v == 7 {
            Some(Attribute::Reverse)
        } else if v == 8 {
            Some(Attribute::Hidden)
        } else if v == 9 {
            Some(Attribute::Strike)
        } else if v == 21 {
            Some(Attribute::CancelBold)
        } else if v == 22 {
            Some(Attribute::CancelBoldDim)
        } else if v == 23 {
            Some(Attribute::CancelItalic)
        } else if v == 24 {
            Some(Attribute::CancelUnderline)
        } else if v == 25 {
            Some(Attribute::CancelBlink)
        } else if v == 27 {
            Some(Attribute::CancelReverse)
        } else if v == 28 {
            Some(Attribute::CancelHidden)
        } else if v == 29 {
            Some(Attribute::CancelStrike)
        } else if 30 <= v <= 37 {
            Some(Attribute::Foreground(Color::Named(spec_basic_color((v - 30) as u16, false))))
        } else if v == 39 {
            Some(Attribute::Foreground(Color::Named(NamedColor::Foreground)))
        } else if 40 <= v <= 47 {
            Some(Attribute::Background(Color::Named(spec_basic_color((v - 40) as u16, false))))
        } else if v == 49 {
            Some(Attribute::Background(Color::Named(NamedColor::Background)))
        } else if v == 59 {
            Some(Attribute::UnderlineColor(None))
        } else if 90 <= v <= 97 {
            Some(Attribute::Foreground(Color::Named(spec_basic_color((v - 90) as u16, true))))
        } else if 100 <= v <= 107 {
            Some(Attribute::Background(Color::Named(spec_basic_color((v - 100) as u16, true))))
        } else {
            None
        }
    } else if p.len() >= 2 {
        let v = p[0];
        if v == 4 {
            if p.len() == 2 && p[1] == 0 {
                Some(Attribute::CancelUnderline)
            } else if p.len() == 2 && p[1] == 2 {
                Some(Attribute::DoubleUnderline)
            } else if p.len() == 2 && p[1] == 3 {
                Some(Attribute::Undercurl)
            } else if p.len() == 2 && p[1] == 4 {
                Some(Attribute::DottedUnderline)
            } else if p.len() == 2 && p[1] == 5 {
                Some(Attribute::DashedUnderline)
            } else {
                Some(Attribute::Underline)
            }
        } else if v == 38 {
            match spec_colon_rgb(p.drop_first()) {
                Some(c) => Some(Attribute::Foreground(c)),
                None => None,
            }
        } else if v == 48 {
            match spec_colon_rgb(p.drop_first()) {
                Some(c) => Some(Attribute::Background(c)),
                None => None,
            }
        } else if v == 58 {
            match spec_colon_rgb(p.drop_first()) {
                Some(c) => Some(Attribute::UnderlineColor(Some(c))),
                None => None,
            }
        } else {
            None
        }
    } else {
        None
    }
}

fn sgr_single(p: &[u16]) -> (r: Option<Attribute>)
    ensures
        r == spec_sgr_single(p@),
{
    if p.len() == 1 {
        let v = p[0];
        if v == 0 {
            Some(Attribute::Reset)
        } else if v == 1 {
            Some(Attribute::Bold)
        } else if v == 2 {
            Some(Attribute::Dim)
        } else if v == 3 {
            Some(Attribute::Italic)
        } else if v == 4 {
            Some(Attribute::Underline)
        } else if v == 5 {
            Some(Attribute::BlinkSlow)
        } else if v == 6 {
            Some(Attribute::BlinkFast)
        } else if v == 7 {
            Some(Attribute::Reverse)
        } else if v == 8 {
            Some(Attribute::Hidden)
        } else if v == 9 {
            Some(Attribute::Strike)
        } else if v == 21 {
            Some(Attribute::CancelBold)
        } else if v == 22 {
            Some(Attribute::CancelBoldDim)
        } else if v == 23 {
            Some(Attribute::CancelItalic)
        } else if v == 24 {
            Some(Attribute::CancelUnderline)
        } else if v == 25 {
            Some(Attribute::CancelBlink)
        } else if v == 27 {
            Some(Attribute::CancelReverse)
        } else if v == 28 {
            Some(Attribute::CancelHidden)
        } else if v == 29 {
            Some(Attribute::CancelStrike)
        } else if 30 <= v && v <= 37 {
            Some(Attribute::Foreground(Color::Named(basic_color(v - 30, false))))
        } else if v == 39 {
            Some(Attribute::Foreground(Color::Named(NamedColor::Foreground)))
        } else if 40 <= v && v <= 47 {
            Some(Attribute::Background(Color::Named(basic_color(v - 40, false))))
        } else if v == 49 {
            Some(Attribute::Background(Color::Named(NamedColor::Background)))
        } else if v == 59 {
            Some(Attribute::UnderlineColor(None))
        } else if 90 <= v && v <= 97 {
            Some(Attribute::Foreground(Color::Named(basic_color(v - 90, true))))
        } else if 100 <= v && v <= 107 {
            Some(Attribute::Background(Color::Named(basic_color(v - 100, true))))
        } else {
            None
        }
    } else if p.len() >= 2 {
        let v = p[0];
        let rest = vstd::slice::slice_subrange(p, 1, p.len());
        assert(rest@ =~= p@.drop_first());
        if v == 4 {
            if p.len() == 2 && p[1] == 0 {
                Some(Attribute::CancelUnderline)
            } else if p.len() == 2 && p[1] == 2 {
                Some(Attribute::DoubleUnderline)
            } else if p.len() == 2 && p[1] == 3 {
                Some(Attribute::Undercurl)
            } else if p.len() == 2 && p[1] == 4 {
                Some(Attribute::DottedUnderline)
            } else if p.len() == 2 && p[1] == 5 {
                Some(Attribute::DashedUnderline)
            } else {
                Some(Attribute::Underline)
            }
        } else if v == 38 {
            match handle_colon_rgb(rest) {
                Some(c) => Some(Attribute::Foreground(c)),
                None => None,
            }
        } else if v == 48 {
            match handle_colon_rgb(rest) {
                Some(c) => Some(Attribute::Background(c)),
                None => None,
            }
        } else if v == 58 {
            match handle_colon_rgb(rest) {
                Some(c) => Some(Attribute::UnderlineColor(Some(c))),
                None => None,
            }
        } else {
            None
        }
    } else {
        None
    }
}

/// The attribute that a lone `38`, `48` or `58` sets with `color`.
pub open spec fn spec_color_attribute(v: u16, color: Color) -> Attribute {
    if v == 38 {
        Attribute::Foreground(color)
    } else if v == 48 {
        Attribute::Background(color)
    } else {
        Attribute::UnderlineColor(Some(color))
    }
}

/// Whether a parameter is a lone `38`, `48` or `58`, which takes its color
/// from the first values of the parameters that follow.
pub open spec fn is_lone_color_param(p: Seq<u16>) -> bool {
    p.len() == 1 && (p[0] == 38 || p[0] == 48 || p[0] == 58)
}

/// A color specifier reads at most four values, and no more than there are.
pub proof fn lemma_subparam_color_count(values: Seq<u16>)
    ensures
        0 <= spec_subparam_color(values).1 <= 4,
        spec_subparam_color(values).1 <= values.len(),
{
}

/// How many parameters from `start` on, at most `limit`, have a value
/// before the first empty one.
pub open spec fn nonempty_run(ps: Seq<Seq<u16>>, start: int, limit: nat) -> nat
    decreases limit,
{
    if limit == 0 || start < 0 || start >= ps.len() || ps[start].len() == 0 {
        0
    } else {
        1 + nonempty_run(ps, start + 1, (limit - 1) as nat)
    }
}

proof fn lemma_nonempty_run(ps: Seq<Seq<u16>>, start: int, limit: nat, n: nat)
    requires
        0 <= start,
        n <= limit,
        start + n <= ps.len(),
        forall|j: int| start <= j < start + n ==> (#[trigger] ps[j]).len() > 0,
        n == limit || start + n >= ps.len() || ps[start + n].len() == 0,
    ensures
        nonempty_run(ps, start, limit) == n,
    decreases n,
{
    if n > 0 {
        assert(ps[start].len() > 0);
        let m = (n - 1) as nat;
        assert(m == n - 1);
        assert forall|j: int| start + 1 <= j < start + 1 + m implies (#[trigger] ps[j]).len() > 0 by {
            assert(start <= j < start + n);
        }
        lemma_nonempty_run(ps, start + 1, (limit - 1) as nat, m);
    }
}

/// A run of parameters with values ends at the end of the list.
pub proof fn lemma_nonempty_run_bound(ps: Seq<Seq<u16>>, start: int, limit: nat)
    ensures
        nonempty_run(ps, start, limit) <= limit,
        0 <= start ==> start + nonempty_run(ps, start, limit) <= ps.len() || nonempty_run(
            ps,
            start,
            limit,
        ) == 0,
    decreases limit,
{
    if limit > 0 {
        lemma_nonempty_run_bound(ps, start + 1, (limit - 1) as nat);
    }
}

/// The first values of the parameters after `i`: at most four, up to the
/// first empty parameter.
pub open spec fn spec_following_values(ps: Seq<Seq<u16>>, i: int) -> Seq<u16> {
    Seq::new(nonempty_run(ps, i + 1, 4), |k: int| ps[i + 1 + k][0])
}

/// Whether reading a color specifier from `values` asks for one value more
/// than `values` holds.
pub open spec fn spec_subparam_runs_out(values: Seq<u16>) -> bool {
    ||| values.len() == 0
    ||| values[0] == 2 && (values.len() < 2 || (values[1] <= 255 && (values.len() < 3 || (values[2]
        <= 255 && values.len() < 4))))
    ||| values[0] == 5 && values.len() < 2
}

/// Whether the color specifier after a lone 38, 48 or 58 at `i` can be read
/// without taking the value of an empty parameter.
pub open spec fn spec_color_readable(ps: Seq<Seq<u16>>, i: int) -> bool {
    let m = nonempty_run(ps, i + 1, 4);
    !(i + 1 + m < ps.len() && m < 4 && spec_subparam_runs_out(spec_following_values(ps, i)))
}

/// Whether the SGR parameters from `i` on can be read: an empty parameter
/// sets nothing, but the value of each parameter that a color specifier
/// reads is taken.
pub open spec fn spec_sgr_readable(ps: Seq<Seq<u16>>, i: int) -> bool
    decreases ps.len() - i,
{
    if i < 0 || i >= ps.len() {
        true
    } else if is_lone_color_param(ps[i]) {
        let k = spec_subparam_color(spec_following_values(ps, i)).1;
        proof {
            lemma_subparam_color_count(spec_following_values(ps, i));
            lemma_nonempty_run_bound(ps, i + 1, 4);
        }
        spec_color_readable(ps, i) && spec_sgr_readable(ps, i + 1 + k)
    } else {
        spec_sgr_readable(ps, i + 1)
    }
}

/// Parameters that all have a value can be read.
pub proof fn lemma_nonempty_sgr_readable(ps: Seq<Seq<u16>>, i: int)
    requires
        params_nonempty(ps),
        0 <= i,
    ensures
        spec_sgr_readable(ps, i),
    decreases ps.len() - i,
{
    if i < ps.len() {
        let n: nat = if ps.len() - i - 1 < 4 {
            (ps.len() - i - 1) as nat
        } else {
            4
        };
        lemma_nonempty_run(ps, i + 1, 4, n);
        if is_lone_color_param(ps[i]) {
            let k = spec_subparam_color(spec_following_values(ps, i)).1;
            lemma_subparam_color_count(spec_following_values(ps, i));
            lemma_nonempty_run_bound(ps, i + 1, 4);
            lemma_nonempty_sgr_readable(ps, i + 1 + k);
        } else {
            lemma_nonempty_sgr_readable(ps, i + 1);
        }
    }
}

/// The attributes that parameters `i..` set, in order.
pub open spec fn spec_sgr_attrs_from(ps: Seq<Seq<u16>>, i: int) -> Seq<Attribute>
    decreases ps.len() - i,
{
    if i < 0 || i >= ps.len() {
        seq![]
    } else if is_lone_color_param(ps[i]) {
        let (c, k) = spec_subparam_color(spec_following_values(ps, i));
        proof {
            lemma_subparam_color_count(spec_following_values(ps, i));
            lemma_nonempty_run_bound(ps, i + 1, 4);
        }
        let head = match c {
            Some(c) => seq![spec_color_attribute(ps[i][0], c)],
            None => seq![],
        };
        head + spec_sgr_attrs_from(ps, i + 1 + k)
    } else {
        let head = match spec_sgr_single(ps[i]) {
            Some(a) => seq![a],
            None => seq![],
        };
        head + spec_sgr_attrs_from(ps, i + 1)
    }
}

/// The attributes that SGR parameters set, in order.
pub open spec fn spec_sgr_attrs(ps: Seq<Seq<u16>>) -> Seq<Attribute> {
    spec_sgr_attrs_from(ps, 0)
}

/// The basic colors of SGR: a lone parameter from 30 to 37 sets the
/// foreground to the color of index `v - 30` (black, red, green, yellow,
/// blue, magenta, cyan, white), one from 40 to 47 sets the background to the
/// color of index `v - 40`, and 90 to 97 and 100 to 107 do the same with the
/// bright colors (indices 8 to 15). Such a parameter sets exactly that one
/// attribute, and the parameters after it go on as if it were not there.
pub proof fn lemma_sgr_basic_colors(ps: Seq<Seq<u16>>, i: int)
    requires
        0 <= i < ps.len(),
        ps[i].len() == 1,
    ensures
        ({
            let v = ps[i][0];
            let attrs = spec_sgr_attrs_from(ps, i);
            &&& (30 <= v <= 37 || 40 <= v <= 47 || 90 <= v <= 97 || 100 <= v <= 107) ==> {
                &&& attrs.len() >= 1
                &&& attrs.drop_first() == spec_sgr_attrs_from(ps, i + 1)
            }
            &&& 30 <= v <= 37 ==> (attrs[0] matches Attribute::Foreground(Color::Named(c))
                && spec_named_color_index(c) == v - 30)
            &&& 40 <= v <= 47 ==> (attrs[0] matches Attribute::Background(Color::Named(c))
                && spec_named_color_index(c) == v - 40)
            &&& 90 <= v <= 97 ==> (attrs[0] matches Attribute::Foreground(Color::Named(c))
                && spec_named_color_index(c) == v - 90 + 8)
            &&& 100 <= v <= 107 ==> (attrs[0] matches Attribute::Background(Color::Named(c))
                && spec_named_color_index(c) == v - 100 + 8)
        }),
{
    let v = ps[i][0];
    assert(!is_lone_color_param(ps[i]) || !(30 <= v <= 37 || 40 <= v <= 47 || 90 <= v <= 97
        || 100 <= v <= 107));
    if 30 <= v <= 37 || 40 <= v <= 47 || 90 <= v <= 97 || 100 <= v <= 107 {
        let a = spec_sgr_single(ps[i]).unwrap();
        assert(spec_sgr_single(ps[i]) is Some);
        assert(spec_sgr_attrs_from(ps, i) == seq![a] + spec_sgr_attrs_from(ps, i + 1));
        assert(spec_sgr_attrs_from(ps, i).drop_first() =~= spec_sgr_attrs_from(ps, i + 1));
        assert(spec_sgr_attrs_from(ps, i)[0] == a);
    }
}

/// SGR 0 resets the attributes, 1 makes text bold, 39 restores the default
/// foreground and 49 the default background; each sets exactly that one
/// attribute.
pub proof fn lemma_sgr_reset_and_defaults(ps: Seq<Seq<u16>>, i: int)
    requires
        0 <= i < ps.len(),
        ps[i].len() == 1,
    ensures
        ({
            let v = ps[i][0];
            let attrs = spec_sgr_attrs_from(ps, i);
            &&& (v == 0 || v == 1 || v == 39 || v == 49) ==> {
                &&& attrs.len() >= 1
                &&& attrs.drop_first() == spec_sgr_attrs_from(ps, i + 1)
            }
            &&& v == 0 ==> attrs[0] == Attribute::Reset
            &&& v == 1 ==> attrs[0] == Attribute::Bold
            &&& v == 39 ==> attrs[0] == Attribute::Foreground(Color::Named(NamedColor::Foreground))
            &&& v == 49 ==> attrs[0] == Attribute::Background(Color::Named(NamedColor::Background))
        }),
{
    let v = ps[i][0];
    if v == 0 || v == 1 || v == 39 || v == 49 {
        assert(!is_lone_color_param(ps[i]));
        assert(spec_sgr_attrs_from(ps, i).drop_first() =~= spec_sgr_attrs_from(ps, i + 1));
    }
}

/// The 256-color and truecolor forms of SGR 38 (foreground) and 48
/// (background): `38;5;n` and `38:5:n` select the indexed color `n`, and
/// `38;2;r;g;b` and `38:2:r:g:b` the color with those red, green and blue
/// components (each at most 255). The form sets that one attribute, and the
/// parameters after the ones it read go on as if it were not there.
pub proof fn lemma_sgr_extended_colors(ps: Seq<Seq<u16>>, i: int)
    requires
        0 <= i < ps.len(),
        ps[i].len() > 0,
        ps[i][0] == 38 || ps[i][0] == 48,
    ensures
        ({
            let attrs = spec_sgr_attrs_from(ps, i);
            let fg = ps[i][0] == 38;
            &&& (ps[i].len() == 1 && i + 2 < ps.len() && ps[i + 1].len() > 0 && ps[i + 1][0] == 5
                && ps[i + 2].len() > 0 && ps[i + 2][0] <= 255) ==> {
                let c = Color::Indexed(ps[i + 2][0] as u8);
                &&& attrs.len() >= 1
                &&& attrs.drop_first() == spec_sgr_attrs_from(ps, i + 3)
                &&& attrs[0] == (if fg {
                    Attribute::Foreground(c)
                } else {
                    Attribute::Background(c)
                })
            }
            &&& (ps[i].len() == 1 && i + 4 < ps.len() && ps[i + 1].len() > 0 && ps[i + 1][0] == 2
                && ps[i + 2].len() > 0 && ps[i + 2][0] <= 255 && ps[i + 3].len() > 0 && ps[i
                + 3][0] <= 255 && ps[i + 4].len() > 0 && ps[i + 4][0] <= 255) ==> {
                let c = Color::Spec(
                    Rgb { r: ps[i + 2][0] as u8, g: ps[i + 3][0] as u8, b: ps[i + 4][0] as u8 },
                );
                &&& attrs.len() >= 1
                &&& attrs.drop_first() == spec_sgr_attrs_from(ps, i + 5)
                &&& attrs[0] == (if fg {
                    Attribute::Foreground(c)
                } else {
                    Attribute::Background(c)
                })
            }
            &&& (ps[i].len() == 3 && ps[i][1] == 5 && ps[i][2] <= 255) ==> {
                let c = Color::Indexed(ps[i][2] as u8);
                &&& attrs.len() >= 1
                &&& attrs.drop_first() == spec_sgr_attrs_from(ps, i + 1)
                &&& attrs[0] == (if fg {
                    Attribute::Foreground(c)
                } else {
                    Attribute::Background(c)
                })
            }
            &&& (ps[i].len() == 5 && ps[i][1] == 2 && ps[i][2] <= 255 && ps[i][3] <= 255
                && ps[i][4] <= 255) ==> {
                let c = Color::Spec(Rgb { r: ps[i][2] as u8, g: ps[i][3] as u8, b: ps[i][4] as u8 });
                &&& attrs.len() >= 1
                &&& attrs.drop_first() == spec_sgr_attrs_from(ps, i + 1)
                &&& attrs[0] == (if fg {
                    Attribute::Foreground(c)
                } else {
                    Attribute::Background(c)
                })
            }
        }),
{
    let attrs = spec_sgr_attrs_from(ps, i);
    if ps[i].len() == 1 && i + 2 < ps.len() && ps[i + 1].len() > 0 && ps[i + 1][0] == 5
        && ps[i + 2].len() > 0 && ps[i + 2][0] <= 255 {
        assert(is_lone_color_param(ps[i]));
        let fv = spec_following_values(ps, i);
        assert(nonempty_run(ps, i + 2, 3) == 1 + nonempty_run(ps, i + 3, 2));
        assert(nonempty_run(ps, i + 1, 4) == 1 + nonempty_run(ps, i + 2, 3));
        assert(fv.len() >= 2);
        assert(fv[0] == 5 && fv[1] == ps[i + 2][0]);
        assert(spec_subparam_color(fv) == (Some(Color::Indexed(ps[i + 2][0] as u8)), 2int));
        assert(attrs.drop_first() =~= spec_sgr_attrs_from(ps, i + 3));
    }
    if ps[i].len() == 1 && i + 4 < ps.len() && ps[i + 1].len() > 0 && ps[i + 1][0] == 2
        && ps[i + 2].len() > 0 && ps[i + 2][0] <= 255 && ps[i + 3].len() > 0 && ps[i + 3][0]
        <= 255 && ps[i + 4].len() > 0 && ps[i + 4][0] <= 255 {
        assert(is_lone_color_param(ps[i]));
        let fv = spec_following_values(ps, i);
        assert(nonempty_run(ps, i + 4, 1) == 1 + nonempty_run(ps, i + 5, 0));
        assert(nonempty_run(ps, i + 3, 2) == 1 + nonempty_run(ps, i + 4, 1));
        assert(nonempty_run(ps, i + 2, 3) == 1 + nonempty_run(ps, i + 3, 2));
        assert(nonempty_run(ps, i + 1, 4) == 1 + nonempty_run(ps, i + 2, 3));
        assert(fv.len() == 4);
        assert(fv[0] == 2 && fv[1] == ps[i + 2][0] && fv[2] == ps[i + 3][0] && fv[3] == ps[i
            + 4][0]);
        assert(attrs.drop_first() =~= spec_sgr_attrs_from(ps, i + 5));
    }
    if ps[i].len() == 3 && ps[i][1] == 5 && ps[i][2] <= 255 {
        let rest = ps[i].drop_first();
        assert(seq![rest[0]] + rest.subrange(1, rest.len() as int) =~= rest);
        assert(attrs.drop_first() =~= spec_sgr_attrs_from(ps, i + 1));
    }
    if ps[i].len() == 5 && ps[i][1] == 2 && ps[i][2] <= 255 && ps[i][3] <= 255 && ps[i][4]
        <= 255 {
        let rest = ps[i].drop_first();
        assert(seq![rest[0]] + rest.subrange(1, rest.len() as int) =~= rest);
        assert(attrs.drop_first() =~= spec_sgr_attrs_from(ps, i + 1));
    }
}

pub open spec fn u16_seqs(v: Seq<Vec<u16>>) -> Seq<Seq<u16>> {
    v.map_values(|p: Vec<u16>| p@)
}

/// Every parameter has at least one value.
pub open spec fn params_nonempty(ps: Seq<Seq<u16>>) -> bool {
    forall|i: int| 0 <= i < ps.len() ==> (#[trigger] ps[i]).len() > 0
}

/// The attributes that the parameters of an SGR sequence set.
pub fn attrs_from_sgr_parameters(params: &[Vec<u16>]) -> (r: Vec<Attribute>)
    requires
        spec_sgr_readable(u16_seqs(params@), 0),
    ensures
        r@ == spec_sgr_attrs(u16_seqs(params@)),
{
    let ghost ps = u16_seqs(params@);
    let mut attributes: Vec<Attribute> = Vec::new();
    let mut i: usize = 0;
    while i < params.len()
        invariant
            i <= params@.len(),
            ps == u16_seqs(params@),
            attributes@ + spec_sgr_attrs_from(ps, i as int) == spec_sgr_attrs(ps),
        decreases params@.len() - i,
    {
        let param = params[i].as_slice();
        assert(param@ == ps[i as int]);
        if param.len() == 1 && (param[0] == 38 || param[0] == 48 || param[0] == 58) {
            let mut values: Vec<u16> = Vec::new();
            let mut k: usize = i + 1;
            while k < params.len() && k - i < 5 && params[k].len() > 0
                invariant
                    i < params@.len(),
                    i + 1 <= k <= params@.len(),
                    k <= i + 5,
                    ps == u16_seqs(params@),
                    forall|j: int| i + 1 <= j < k ==> (#[trigger] ps[j]).len() > 0,
                    values@ =~= Seq::new((k - i - 1) as nat, |j: int| ps[i + 1 + j][0]),
                decreases params@.len() - k,
            {
                assert(ps[k as int] == params@[k as int]@);
                values.push(params[k][0]);
                k = k + 1;
            }
            proof {
                if k < params.len() && k - i < 5 {
                    assert(ps[k as int] == params@[k as int]@);
                }
                lemma_nonempty_run(ps, i + 1, 4, (k - i - 1) as nat);
            }
            assert(values@ =~= spec_following_values(ps, i as int));
            let (color, used) = subparam_sgr_to_color(values.as_slice());
            let ghost before = attributes@;
            match color {
                Some(c) => {
                    let attribute = if param[0] == 38 {
                        Attribute::Foreground(c)
                    } else if param[0] == 48 {
                        Attribute::Background(c)
                    } else {
                        Attribute::UnderlineColor(Some(c))
                    };
                    attributes.push(attribute);
                },
                None => {},
            }
            assert(attributes@ + spec_sgr_attrs_from(ps, i + 1 + used) =~= before
                + spec_sgr_attrs_from(ps, i as int));
            i = i + 1 + used;
        } else {
            let ghost before = attributes@;
            match sgr_single(param) {
                Some(a) => attributes.push(a),
                None => {},
            }
            assert(attributes@ + spec_sgr_attrs_from(ps, i + 1) =~= before + spec_sgr_attrs_from(
                ps,
                i as int,
            ));
            i = i + 1;
        }
    }
    assert(spec_sgr_attrs_from(ps, i as int) =~= seq![]);
    assert(attributes@ =~= attributes@ + spec_sgr_attrs_from(ps, i as int));
    attributes
}

// ---------------------------------------------------------------------------
// Synchronized updates
// ---------------------------------------------------------------------------

/// Maximum time before a synchronized update is aborted, in milliseconds.
pub const SYNC_UPDATE_TIMEOUT_MILLIS: u64 = 150;

/// Maximum number of bytes read in one synchronized update (2MiB).
pub const SYNC_BUFFER_SIZE: usize = 0x20_0000;

/// Number of bytes in the BSU/ESU CSI sequences.
pub const SYNC_ESCAPE_LEN: usize = 8;

/// `ESC [ ? 2 0 2 6` followed by `final_byte`.
pub open spec fn sync_escape(final_byte: u8) -> Seq<u8> {
    seq![0x1Bu8, 0x5B, 0x3F, 0x32, 0x30, 0x32, 0x36, final_byte]
}

/// BSU, which begins or extends a synchronized update.
pub open spec fn bsu_csi() -> Seq<u8> {
    sync_escape(0x68)
}

/// ESU, which ends a synchronized update.
pub open spec fn esu_csi() -> Seq<u8> {
    sync_escape(0x6C)
}

#[verifier::external_type_specification]
#[verifier::external_body]
pub struct ExInstant(Instant);

/// Calls `Instant::now`.
#[verifier::external_body]
fn instant_now() -> Instant {
    Instant::now()
}

/// Calls `Instant::checked_add`, which is `None` only where the result
/// cannot be represented.
#[verifier::external_body]
fn instant_checked_add(start: Instant, duration: Duration) -> Option<Instant> {
    start.checked_add(duration)
}

/// Calls `Duration::from_millis`.
#[verifier::external_body]
fn duration_from_millis(millis: u64) -> Duration {
    Duration::from_millis(millis)
}

/// Calls `<Instant as PartialOrd>::lt`; what it returns depends on the two
/// instants, which are opaque here, so nothing is stated of it.
#[verifier::external_body]
fn instant_lt(a: &Instant, b: &Instant) -> bool {
    a < b
}

/// Interface for creating timeouts and checking their expiry.
///
/// The [`Processor`] itself uses a [`StdSyncHandler`].
pub trait Timeout {
    /// Sets the timeout for the next synchronized update.
    fn set_timeout(&mut self, duration: Duration);

    /// Clears the current timeout.
    fn clear_timeout(&mut self);

    /// Whether a timeout is currently active and has not yet expired.
    fn pending_timeout(&self) -> bool;
}

/// The deadline of a synchronized update, measured with `Instant`.
pub struct StdSyncHandler {
    timeout: Option<Instant>,
}

impl StdSyncHandler {
    /// Whether a deadline is set.
    pub closed spec fn pending(self) -> bool {
        self.timeout is Some
    }

    pub fn new() -> (r: StdSyncHandler)
        ensures
            !r.pending(),
    {
        StdSyncHandler { timeout: None }
    }

    /// Synchronized update expiration time.
    pub fn sync_timeout(&self) -> (r: Option<Instant>)
        ensures
            r is Some == self.pending(),
    {
        self.timeout
    }

    /// Sets the deadline `duration` from now.
    fn set_timeout(&mut self, duration: Duration)
        ensures
            final(self).pending(),
    {
        let now = instant_now();
        let deadline = match instant_checked_add(now, duration) {
            Some(t) => t,
            None => now,
        };
        self.timeout = Some(deadline);
    }

    fn clear_timeout(&mut self)
        ensures
            !final(self).pending(),
    {
        self.timeout = None;
    }

    /// Whether a deadline is set and the clock has not reached it yet. The
    /// clock is read here, so only this holds whatever it shows: without a
    /// deadline the answer is `false`.
    fn pending_timeout(&self) -> (r: bool)
        ensures
            r ==> self.pending(),
    {
        match &self.timeout {
            Some(deadline) => {
                let now = instant_now();
                instant_lt(&now, deadline)
            },
            None => false,
        }
    }
}

// ---------------------------------------------------------------------------
// The processor
// ---------------------------------------------------------------------------

/// The state of a [`Processor`] as values.
pub struct ProcessorStateView {
    pub parser: ParserView,
    pub text: TextView,
    /// Last printed character, for repetition.
    pub preceding_char: Option<char>,
    /// Whether a synchronized update is under way.
    pub syncing: bool,
    /// Bytes held back during a synchronized update.
    pub buffer: Seq<u8>,
}

/// What one dispatched item asks of the handler; the last printed character
/// and whether a synchronized update starts.
pub open spec fn spec_perform(preceding: Option<char>, d: DispatchV) -> (
    Option<char>,
    Seq<HandlerCallV>,
    bool,
) {
    match d {
        DispatchV::Print(c) => (Some(c), seq![HandlerCallV::Input(c)], false),
        DispatchV::Execute(b) => (preceding, spec_execute(b), false),
        DispatchV::Osc { params, bell_terminated } => (
            preceding,
            spec_osc(params, bell_terminated),
            false,
        ),
        DispatchV::Esc { intermediates, ignore, byte } => (
            preceding,
            spec_esc(intermediates, byte),
            false,
        ),
        DispatchV::Csi { params, intermediates, ignore, action } => {
            let (calls, sync) = spec_csi(params, intermediates, ignore, action, preceding);
            (preceding, calls, sync)
        },
        _ => (preceding, seq![], false),
    }
}

/// Dispatched items one after the other.
pub open spec fn spec_perform_all(preceding: Option<char>, ds: Seq<DispatchV>) -> (
    Option<char>,
    Seq<HandlerCallV>,
    bool,
)
    decreases ds.len(),
{
    if ds.len() == 0 {
        (preceding, seq![], false)
    } else {
        let (p1, c1, s1) = spec_perform_all(preceding, ds.drop_last());
        let (p2, c2, s2) = spec_perform(p1, ds.last());
        (p2, c1 + c2, s1 || s2)
    }
}

/// One byte parsed and performed; a byte that the parser cannot take is
/// skipped.
pub open spec fn spec_parse_byte(s: ProcessorStateView, byte: u8) -> (
    ProcessorStateView,
    Seq<HandlerCallV>,
) {
    if !spec_feed_defined(s.parser, byte) {
        (s, seq![])
    } else {
        let (p, t, ds) = spec_feed(s.parser, s.text, byte);
        let (pre, calls, sync) = spec_perform_all(s.preceding_char, ds);
        (
            ProcessorStateView {
                parser: p,
                text: t,
                preceding_char: pre,
                syncing: s.syncing || sync,
                ..s
            },
            calls,
        )
    }
}

/// Bytes parsed and performed one after the other.
pub open spec fn spec_parse_bytes(s: ProcessorStateView, bytes: Seq<u8>) -> (
    ProcessorStateView,
    Seq<HandlerCallV>,
)
    decreases bytes.len(),
{
    if bytes.len() == 0 {
        (s, seq![])
    } else {
        let (s1, c1) = spec_parse_bytes(s, bytes.drop_last());
        let (s2, c2) = spec_parse_byte(s1, bytes.last());
        (s2, c1 + c2)
    }
}

/// The end of a synchronized update: the held bytes are parsed, the handler
/// is told that the update ended, and the buffer and deadline are cleared.
pub open spec fn spec_stop_sync(s: ProcessorStateView) -> (ProcessorStateView, Seq<HandlerCallV>) {
    let (s1, calls) = spec_parse_bytes(s, s.buffer);
    (
        ProcessorStateView { syncing: false, buffer: seq![], ..s1 },
        calls.push(HandlerCallV::UnsetPrivateMode(PrivateMode::Named(NamedPrivateMode::SyncUpdate))),
    )
}

/// The last (up to) eight bytes of `buffer`.
pub open spec fn sync_tail(buffer: Seq<u8>) -> Seq<u8> {
    let len = buffer.len();
    let offset = if len < SYNC_ESCAPE_LEN {
        0
    } else {
        len - SYNC_ESCAPE_LEN
    };
    buffer.subrange(offset, len as int)
}

/// Bytes that arrive during a synchronized update are held back; a BSU at
/// the end extends the update, an ESU at the end (or a nearly full buffer)
/// ends it.
pub open spec fn spec_advance_sync(s: ProcessorStateView, bytes: Seq<u8>) -> (
    ProcessorStateView,
    Seq<HandlerCallV>,
) {
    let buffer = s.buffer + bytes;
    let held = ProcessorStateView { buffer, ..s };
    if sync_tail(buffer) == bsu_csi() {
        (ProcessorStateView { syncing: true, ..held }, seq![])
    } else if sync_tail(buffer) == esu_csi() || buffer.len() >= SYNC_BUFFER_SIZE - 1 {
        spec_stop_sync(held)
    } else {
        (held, seq![])
    }
}

/// What processing `bytes` does, where `timeout_active` tells whether a
/// synchronized update's deadline has not been reached yet.
pub open spec fn spec_advance_at(s: ProcessorStateView, bytes: Seq<u8>, timeout_active: bool) -> (
    ProcessorStateView,
    Seq<HandlerCallV>,
) {
    if s.syncing && timeout_active {
        spec_advance_sync(s, bytes)
    } else {
        spec_parse_bytes(s, bytes)
    }
}

/// What processing `bytes` does while the deadline has not been reached.
pub open spec fn spec_advance(s: ProcessorStateView, bytes: Seq<u8>) -> (
    ProcessorStateView,
    Seq<HandlerCallV>,
) {
    if s.syncing {
        spec_advance_sync(s, bytes)
    } else {
        spec_parse_bytes(s, bytes)
    }
}

/// Parsing may be cut anywhere: parsing `a` and then `b` ends in the same
/// state and asks the same of the handler as parsing `a + b`.
pub proof fn lemma_parse_bytes_concat(s: ProcessorStateView, a: Seq<u8>, b: Seq<u8>)
    ensures
        spec_parse_bytes(s, a + b) == ({
            let (s1, c1) = spec_parse_bytes(s, a);
            let (s2, c2) = spec_parse_bytes(s1, b);
            (s2, c1 + c2)
        }),
    decreases b.len(),
{
    let (s1, c1) = spec_parse_bytes(s, a);
    if b.len() == 0 {
        assert(a + b =~= a);
        assert(c1 + seq![] =~= c1);
    } else {
        assert((a + b).drop_last() =~= a + b.drop_last());
        assert((a + b).last() == b.last());
        lemma_parse_bytes_concat(s, a, b.drop_last());
        let (s2, c2) = spec_parse_bytes(s1, b.drop_last());
        let (s3, c3) = spec_parse_byte(s2, b.last());
        assert(c1 + c2 + c3 =~= c1 + (c2 + c3));
    }
}

/// Outside a synchronized update, processing `a` and then `b` ends in the
/// same state and asks the same of the handler as processing `a + b`, as
/// long as `a` does not begin a synchronized update.
pub proof fn lemma_advance_concat(s: ProcessorStateView, a: Seq<u8>, b: Seq<u8>)
    requires
        !s.syncing,
        !spec_advance(s, a).0.syncing,
    ensures
        spec_advance(s, a + b) == ({
            let (s1, c1) = spec_advance(s, a);
            let (s2, c2) = spec_advance(s1, b);
            (s2, c1 + c2)
        }),
{
    lemma_parse_bytes_concat(s, a, b);
}

/// Performing `a` and then `b` is performing `a + b`.
pub proof fn lemma_perform_all_concat(preceding: Option<char>, a: Seq<DispatchV>, b: Seq<DispatchV>)
    ensures
        spec_perform_all(preceding, a + b) == ({
            let (p1, c1, s1) = spec_perform_all(preceding, a);
            let (p2, c2, s2) = spec_perform_all(p1, b);
            (p2, c1 + c2, s1 || s2)
        }),
    decreases b.len(),
{
    let (p1, c1, s1) = spec_perform_all(preceding, a);
    if b.len() == 0 {
        assert(a + b =~= a);
        assert(c1 + seq![] =~= c1);
    } else {
        assert((a + b).drop_last() =~= a + b.drop_last());
        assert((a + b).last() == b.last());
        lemma_perform_all_concat(preceding, a, b.drop_last());
        let (p2, c2, s2) = spec_perform_all(p1, b.drop_last());
        let (p3, c3, s3) = spec_perform(p2, b.last());
        assert(c1 + c2 + c3 =~= c1 + (c2 + c3));
    }
}

/// Where the parser can take every byte, parsing runs parser and decoder
/// over the bytes and performs what they dispatch.
pub proof fn lemma_parse_bytes_run(s: ProcessorStateView, bytes: Seq<u8>)
    requires
        spec_run_defined(s.parser, s.text, bytes),
    ensures
        spec_parse_bytes(s, bytes) == ({
            let (p, t, ds) = spec_run(s.parser, s.text, bytes);
            let (pre, calls, sync) = spec_perform_all(s.preceding_char, ds);
            (
                ProcessorStateView {
                    parser: p,
                    text: t,
                    preceding_char: pre,
                    syncing: s.syncing || sync,
                    ..s
                },
                calls,
            )
        }),
    decreases bytes.len(),
{
    if bytes.len() == 0 {
        assert(spec_perform_all(s.preceding_char, seq![]).1 =~= Seq::<HandlerCallV>::empty());
    } else {
        lemma_parse_bytes_run(s, bytes.drop_last());
        let (p1, t1, d1) = spec_run(s.parser, s.text, bytes.drop_last());
        let (p2, t2, d2) = spec_feed(p1, t1, bytes.last());
        lemma_perform_all_concat(s.preceding_char, d1, d2);
    }
}

/// Each of `chars` given to the handler as input, in order.
pub open spec fn inputs(chars: Seq<char>) -> Seq<HandlerCallV>
    decreases chars.len(),
{
    if chars.len() == 0 {
        seq![]
    } else {
        seq![HandlerCallV::Input(chars[0])] + inputs(chars.drop_first())
    }
}

proof fn lemma_perform_print(preceding: Option<char>, c: char)
    ensures
        spec_perform_all(preceding, seq![DispatchV::Print(c)]) == (
            Some(c),
            seq![HandlerCallV::Input(c)],
            false,
        ),
{
    let one = seq![DispatchV::Print(c)];
    reveal_with_fuel(spec_perform_all, 2);
    assert(one.drop_last() =~= Seq::<DispatchV>::empty());
    assert(one.last() == DispatchV::Print(c));
    assert(Seq::<HandlerCallV>::empty() + seq![HandlerCallV::Input(c)] =~= seq![
        HandlerCallV::Input(c),
    ]);
}

proof fn lemma_parse_text(s: ProcessorStateView, chars: Seq<char>)
    requires
        s.parser.state == crate::saiga_vte::table::State::Ground,
        s.text == idle(),
        forall|i: int| 0 <= i < chars.len() ==> is_printable_char(#[trigger] chars[i]),
    ensures
        spec_parse_bytes(s, encode_utf8(chars)) == (
            ProcessorStateView {
                preceding_char: if chars.len() == 0 {
                    s.preceding_char
                } else {
                    Some(chars.last())
                },
                ..s
            },
            inputs(chars),
        ),
    decreases chars.len(),
{
    if chars.len() == 0 {
        assert(encode_utf8(chars) =~= Seq::<u8>::empty());
    } else {
        let c = chars[0];
        let rest = chars.drop_first();
        assert forall|i: int| 0 <= i < rest.len() implies is_printable_char(#[trigger] rest[i]) by {
            assert(rest[i] == chars[i + 1]);
        }
        let head = encode_scalar(c as u32);
        lemma_run_char(s.parser, c);
        lemma_parse_bytes_run(s, head);
        lemma_perform_print(s.preceding_char, c);
        let s1 = ProcessorStateView { preceding_char: Some(c), ..s };
        lemma_parse_text(s1, rest);
        lemma_parse_bytes_concat(s, head, encode_utf8(rest));
        if rest.len() > 0 {
            assert(rest.last() == chars.last());
        } else {
            assert(chars.last() == c);
        }
    }
}

/// Text reaches the handler character by character: outside a synchronized
/// update, with the parser in the ground state and no character begun, the
/// UTF-8 encoding of characters that are neither C0 controls nor DEL is
/// handed to the handler as input, one call per character, and only the
/// last printed character changes.
pub proof fn lemma_advance_inputs_text(s: ProcessorStateView, chars: Seq<char>)
    requires
        !s.syncing,
        s.parser.state == crate::saiga_vte::table::State::Ground,
        s.text == idle(),
        forall|i: int| 0 <= i < chars.len() ==> is_printable_char(#[trigger] chars[i]),
    ensures
        spec_advance(s, encode_utf8(chars)) == (
            ProcessorStateView {
                preceding_char: if chars.len() == 0 {
                    s.preceding_char
                } else {
                    Some(chars.last())
                },
                ..s
            },
            inputs(chars),
        ),
{
    lemma_parse_text(s, chars);
}

pub proof fn lemma_perform_all_push(preceding: Option<char>, ds: Seq<DispatchV>, d: DispatchV)
    ensures
        spec_perform_all(preceding, ds.push(d)) == ({
            let (p1, c1, s1) = spec_perform_all(preceding, ds);
            let (p2, c2, s2) = spec_perform(p1, d);
            (p2, c1 + c2, s1 || s2)
        }),
{
    assert(ds.push(d).drop_last() =~= ds);
}

/// Parses escape sequences and text and tells a [`Handler`] what they ask.
pub struct Processor {
    parser: Parser,
    text: TextProcessor,
    preceding_char: Option<char>,
    timeout: StdSyncHandler,
    buffer: Vec<u8>,
}

impl View for Processor {
    type V = ProcessorStateView;

    closed spec fn view(&self) -> ProcessorStateView {
        ProcessorStateView {
            parser: self.parser@,
            text: self.text@,
            preceding_char: self.preceding_char,
            syncing: self.timeout.pending(),
            buffer: self.buffer@,
        }
    }
}

impl Processor {
    /// Well-formed: parser and decoder are, and every parameter collected so
    /// far holds a value.
    pub closed spec fn wf(self) -> bool {
        &&& self.parser.wf()
        &&& self.text.wf()
        &&& params_nonempty(self.parser@.params)
    }

    pub fn new() -> (r: Processor)
        ensures
            r.wf(),
            r@.parser.state == crate::saiga_vte::table::State::Ground,
            r@.text == (TextView { utf8: Seq::empty(), remaining: 0 }),
            r@.preceding_char is None,
            !r@.syncing,
            r@.buffer == Seq::<u8>::empty(),
    {
        let r = Processor {
            parser: Parser::new(),
            text: TextProcessor::new(),
            preceding_char: None,
            timeout: StdSyncHandler::new(),
            buffer: Vec::new(),
        };
        assert(params_nonempty(r.parser@.params));
        r
    }

    /// Synchronized update timeout.
    pub fn sync_timeout(&self) -> (r: &StdSyncHandler)
        ensures
            r.pending() == self@.syncing,
    {
        &self.timeout
    }

    /// Number of bytes in the synchronization buffer.
    pub fn sync_bytes_count(&self) -> (r: usize)
        ensures
            r == self@.buffer.len(),
    {
        self.buffer.len()
    }

    /// What one dispatched item asks of the handler.
    fn perform(&mut self, d: &Dispatch, out: &mut Vec<HandlerCall>)
        requires
            dispatch_params_nonempty(d@),
        ensures
            final(self).parser == old(self).parser,
            final(self).text == old(self).text,
            final(self).buffer == old(self).buffer,
            ({
                let (p, c, sync) = spec_perform(old(self).preceding_char, d@);
                &&& final(self).preceding_char == p
                &&& calls_view(final(out)@) == calls_view(old(out)@) + c
                &&& final(self).timeout.pending() == (old(self).timeout.pending() || sync)
            }),
    {
        let ghost before = calls_view(out@);
        match d {
            Dispatch::Print(c) => {
                out.push(HandlerCall::Input(*c));
                self.preceding_char = Some(*c);
                assert(calls_view(out@) =~= before + seq![HandlerCallV::Input(*c)]);
            },
            Dispatch::Execute(b) => {
                let mut calls = execute_calls(*b);
                let ghost cv = calls_view(calls@);
                let ghost ov = out@;
                out.append(&mut calls);
                assert(calls_view(out@) =~= calls_view(ov) + cv);
            },
            Dispatch::Osc { params, bell_terminated } => {
                let mut calls = osc_calls(params.as_slice(), *bell_terminated);
                let ghost cv = calls_view(calls@);
                let ghost ov = out@;
                out.append(&mut calls);
                assert(calls_view(out@) =~= calls_view(ov) + cv);
            },
            Dispatch::Esc { intermediates, ignore, byte } => {
                let mut calls = esc_calls(intermediates.as_slice(), *byte);
                let ghost cv = calls_view(calls@);
                let ghost ov = out@;
                out.append(&mut calls);
                assert(calls_view(out@) =~= calls_view(ov) + cv);
            },
            Dispatch::Csi { params, intermediates, ignore, action } => {
                assert(u16_seqs(params@) == crate::swiftty_vte::parser::seqs_u16(params@));
                proof {
                    lemma_nonempty_sgr_readable(u16_seqs(params@), 0);
                }
                let (mut calls, sync) = csi_calls(
                    params.as_slice(),
                    intermediates.as_slice(),
                    *ignore,
                    *action,
                    self.preceding_char,
                );
                if sync {
                    self.timeout.set_timeout(duration_from_millis(SYNC_UPDATE_TIMEOUT_MILLIS));
                }
                let ghost cv = calls_view(calls@);
                let ghost ov = out@;
                out.append(&mut calls);
                assert(calls_view(out@) =~= calls_view(ov) + cv);
            },
            _ => {
                assert(calls_view(out@) =~= before + seq![]);
            },
        }
    }

    /// Parses one byte and returns what it asks of the handler.
    fn parse_byte(&mut self, byte: u8, out: &mut Vec<HandlerCall>)
        requires
            old(self).wf(),
        ensures
            final(self).wf(),
            final(self)@ == spec_parse_byte(old(self)@, byte).0,
            calls_view(final(out)@) == calls_view(old(out)@) + spec_parse_byte(old(self)@, byte).1,
    {
        if !self.text.can_feed(&self.parser, byte) {
            assert(calls_view(out@) =~= calls_view(old(out)@) + seq![]);
            return;
        }
        proof {
            lemma_feed_params_nonempty(self.parser@, self.text@, byte);
        }
        let dispatched = self.text.feed(&mut self.parser, byte);
        let ghost ds = dispatches_view(dispatched@);
        let ghost s0 = old(self)@;
        let ghost start = calls_view(out@);
        let mut i: usize = 0;
        assert(ds.take(0) =~= Seq::<DispatchV>::empty());
        while i < dispatched.len()
            invariant
                i <= dispatched@.len(),
                ds == dispatches_view(dispatched@),
                all_dispatch_params_nonempty(ds),
                self.wf(),
                self.parser@ == spec_feed(s0.parser, s0.text, byte).0,
                self.text@ == spec_feed(s0.parser, s0.text, byte).1,
                self.buffer@ == s0.buffer,
                ({
                    let (p, c, sync) = spec_perform_all(s0.preceding_char, ds.take(i as int));
                    &&& self.preceding_char == p
                    &&& calls_view(out@) == start + c
                    &&& self.timeout.pending() == (s0.syncing || sync)
                }),
            decreases dispatched@.len() - i,
        {
            assert(dispatch_params_nonempty(ds[i as int]));
            assert(ds[i as int] == dispatched@[i as int]@);
            proof {
                lemma_perform_all_push(s0.preceding_char, ds.take(i as int), ds[i as int]);
                assert(ds.take(i + 1) =~= ds.take(i as int).push(ds[i as int]));
            }
            let ghost before = calls_view(out@);
            self.perform(&dispatched[i], out);
            proof {
                let (p1, c1, s1) = spec_perform_all(s0.preceding_char, ds.take(i as int));
                let (p2, c2, s2) = spec_perform(p1, ds[i as int]);
                assert(calls_view(out@) =~= start + (c1 + c2));
            }
            i = i + 1;
        }
        assert(ds.take(i as int) =~= ds);
    }

    /// Parses `bytes` and returns what they ask of the handler.
    fn parse_bytes(&mut self, bytes: &[u8], out: &mut Vec<HandlerCall>)
        requires
            old(self).wf(),
        ensures
            final(self).wf(),
            final(self)@ == spec_parse_bytes(old(self)@, bytes@).0,
            calls_view(final(out)@) == calls_view(old(out)@) + spec_parse_bytes(
                old(self)@,
                bytes@,
            ).1,
    {
        let ghost s0 = self@;
        let ghost start = calls_view(out@);
        let mut i: usize = 0;
        assert(bytes@.take(0) =~= Seq::<u8>::empty());
        assert(calls_view(out@) =~= start + seq![]);
        while i < bytes.len()
            invariant
                i <= bytes@.len(),
                self.wf(),
                self@ == spec_parse_bytes(s0, bytes@.take(i as int)).0,
                calls_view(out@) == start + spec_parse_bytes(s0, bytes@.take(i as int)).1,
            decreases bytes@.len() - i,
        {
            assert(bytes@.take(i + 1).drop_last() =~= bytes@.take(i as int));
            let ghost mid = calls_view(out@);
            self.parse_byte(bytes[i], out);
            proof {
                let (s1, c1) = spec_parse_bytes(s0, bytes@.take(i as int));
                let (s2, c2) = spec_parse_byte(s1, bytes@[i as int]);
                assert(calls_view(out@) =~= start + (c1 + c2));
            }
            i = i + 1;
        }
        assert(bytes@.take(i as int) =~= bytes@);
    }

    /// Ends a synchronized update: the held bytes are parsed, then the
    /// handler is told that the update ended.
    fn stop_sync_calls(&mut self, out: &mut Vec<HandlerCall>)
        requires
            old(self).wf(),
        ensures
            final(self).wf(),
            final(self)@ == spec_stop_sync(old(self)@).0,
            calls_view(final(out)@) == calls_view(old(out)@) + spec_stop_sync(old(self)@).1,
    {
        let bytes = vstd::slice::slice_to_vec(self.buffer.as_slice());
        let ghost mid = calls_view(out@);
        self.parse_bytes(bytes.as_slice(), out);
        let ghost after = calls_view(out@);
        let call = HandlerCall::UnsetPrivateMode(PrivateMode::Named(NamedPrivateMode::SyncUpdate));
        out.push(call);
        assert(calls_view(out@) =~= after.push(call@));
        self.buffer.clear();
        self.timeout.clear_timeout();
        assert(self.buffer@ =~= Seq::<u8>::empty());
    }

    /// Whether the last eight held bytes are `ESC [ ? 2 0 2 6` and `final_byte`.
    fn tail_is(&self, final_byte: u8) -> (r: bool)
        ensures
            r == (sync_tail(self.buffer@) == sync_escape(final_byte)),
    {
        let len = self.buffer.len();
        if len < SYNC_ESCAPE_LEN {
            proof {
                if sync_tail(self.buffer@) == sync_escape(final_byte) {
                    assert(sync_tail(self.buffer@).len() == 8);
                }
            }
            return false;
        }
        let offset = len - SYNC_ESCAPE_LEN;
        let want: [u8; 8] = [0x1B, 0x5B, 0x3F, 0x32, 0x30, 0x32, 0x36, final_byte];
        let mut i: usize = 0;
        while i < SYNC_ESCAPE_LEN
            invariant
                i <= SYNC_ESCAPE_LEN,
                offset + SYNC_ESCAPE_LEN == len == self.buffer@.len(),
                want@ == sync_escape(final_byte),
                forall|j: int| 0 <= j < i ==> self.buffer@[offset + j] == want@[j],
            decreases SYNC_ESCAPE_LEN - i,
        {
            if self.buffer[offset + i] != want[i] {
                assert(sync_tail(self.buffer@)[i as int] != sync_escape(final_byte)[i as int]);
                return false;
            }
            i = i + 1;
        }
        assert(sync_tail(self.buffer@) =~= sync_escape(final_byte));
        true
    }

    /// Holds bytes back during a synchronized update.
    fn advance_sync_calls(&mut self, bytes: &[u8], out: &mut Vec<HandlerCall>)
        requires
            old(self).wf(),
        ensures
            final(self).wf(),
            final(self)@ == spec_advance_sync(old(self)@, bytes@).0,
            calls_view(final(out)@) == calls_view(old(out)@) + spec_advance_sync(
                old(self)@,
                bytes@,
            ).1,
    {
        self.buffer.extend_from_slice(bytes);
        assert(self.buffer@ =~= old(self).buffer@ + bytes@);
        if self.tail_is(0x68) {
            self.timeout.set_timeout(duration_from_millis(SYNC_UPDATE_TIMEOUT_MILLIS));
            assert(calls_view(out@) =~= calls_view(old(out)@) + seq![]);
        } else if self.tail_is(0x6C) || self.buffer.len() >= SYNC_BUFFER_SIZE - 1 {
            self.stop_sync_calls(out);
        } else {
            assert(calls_view(out@) =~= calls_view(old(out)@) + seq![]);
        }
    }

    /// Takes `bytes` and returns, in order, what they ask of the handler,
    /// where `timeout_active` tells whether a synchronized update's deadline
    /// is set and not yet reached: bytes are held only then.
    pub fn process_with_timeout(&mut self, bytes: &[u8], timeout_active: bool) -> (r: Vec<
        HandlerCall,
    >)
        requires
            old(self).wf(),
            timeout_active ==> old(self)@.syncing,
        ensures
            final(self).wf(),
            (final(self)@, calls_view(r@)) == spec_advance_at(old(self)@, bytes@, timeout_active),
    {
        let mut out: Vec<HandlerCall> = Vec::new();
        if timeout_active {
            self.advance_sync_calls(bytes, &mut out);
        } else {
            self.parse_bytes(bytes, &mut out);
        }
        assert(calls_view(out@) =~= spec_advance_at(old(self)@, bytes@, timeout_active).1);
        out
    }

    /// Takes `bytes` and returns, in order, what they ask of the handler.
    /// During a synchronized update whose deadline has not passed the bytes
    /// are held; once the clock reaches the deadline they are parsed.
    pub fn process(&mut self, bytes: &[u8]) -> (r: Vec<HandlerCall>)
        requires
            old(self).wf(),
        ensures
            final(self).wf(),
            (final(self)@, calls_view(r@)) == spec_advance(old(self)@, bytes@) || (
            final(self)@,
            calls_view(r@),
            ) == spec_parse_bytes(old(self)@, bytes@),
            !old(self)@.syncing ==> (final(self)@, calls_view(r@)) == spec_advance(
                old(self)@,
                bytes@,
            ),
    {
        let active = self.timeout.pending_timeout();
        self.process_with_timeout(bytes, active)
    }

    /// Takes `bytes` and tells `handler` what they ask.
    pub fn advance<H: Handler>(&mut self, handler: &mut H, bytes: &[u8])
        requires
            old(self).wf(),
        ensures
            final(self).wf(),
            final(self)@ == spec_advance(old(self)@, bytes@).0 || final(self)@ == spec_parse_bytes(
                old(self)@,
                bytes@,
            ).0,
            !old(self)@.syncing ==> final(self)@ == spec_advance(old(self)@, bytes@).0,
            final(self)@ == spec_advance(old(self)@, bytes@).0 && final(handler).calls() == old(
                handler,
            ).calls() + spec_advance(old(self)@, bytes@).1 || final(self)@ == spec_parse_bytes(
                old(self)@,
                bytes@,
            ).0 && final(handler).calls() == old(handler).calls() + spec_parse_bytes(
                old(self)@,
                bytes@,
            ).1,
            !old(self)@.syncing ==> final(handler).calls() == old(handler).calls() + spec_advance(
                old(self)@,
                bytes@,
            ).1,
    {
        let calls = self.process(bytes);
        apply_all(handler, calls);
    }

    /// Ends a synchronized update and tells `handler` what the held bytes
    /// ask.
    pub fn stop_sync<H: Handler>(&mut self, handler: &mut H)
        requires
            old(self).wf(),
        ensures
            final(self).wf(),
            final(self)@ == spec_stop_sync(old(self)@).0,
            final(handler).calls() == old(handler).calls() + spec_stop_sync(old(self)@).1,
    {
        let calls = self.end_sync();
        apply_all(handler, calls);
    }

    /// Ends a synchronized update and returns, in order, what the held bytes
    /// ask of the handler, followed by the end of the update.
    pub fn end_sync(&mut self) -> (r: Vec<HandlerCall>)
        requires
            old(self).wf(),
        ensures
            final(self).wf(),
            (final(self)@, calls_view(r@)) == spec_stop_sync(old(self)@),
    {
        let mut calls: Vec<HandlerCall> = Vec::new();
        self.stop_sync_calls(&mut calls);
        assert(calls_view(calls@) =~= spec_stop_sync(old(self)@).1);
        calls
    }
}

/// Makes `call` on `handler`.
pub fn apply<H: Handler>(handler: &mut H, call: HandlerCall)
    ensures
        final(handler).calls() == old(handler).calls().push(call@),
{
    match call {
        HandlerCall::SetTitle(t) => handler.set_title(t),
        HandlerCall::Input(c) => handler.input(c),
        HandlerCall::Goto(l, c) => handler.goto(l, c),
        HandlerCall::GotoLine(l) => handler.goto_line(l),
        HandlerCall::GotoCol(c) => handler.goto_col(c),
        HandlerCall::InsertBlank(n) => handler.insert_blank(n),
        HandlerCall::MoveUp(n) => handler.move_up(n),
        HandlerCall::MoveDown(n) => handler.move_down(n),
        HandlerCall::IdentifyTerminal(c) => handler.identify_terminal(c),
        HandlerCall::MoveForward(n) => handler.move_forward(n),
        HandlerCall::MoveBackward(n) => handler.move_backward(n),
        HandlerCall::PutTab(n) => handler.put_tab(n),
        HandlerCall::Backspace => handler.backspace(),
        HandlerCall::CarriageReturn => handler.carriage_return(),
        HandlerCall::Linefeed => handler.linefeed(),
        HandlerCall::Bell => handler.bell(),
        HandlerCall::Substitute => handler.substitute(),
        HandlerCall::DeleteLines(n) => handler.delete_lines(n),
        HandlerCall::EraseChars(n) => handler.erase_chars(n),
        HandlerCall::DeleteChars(n) => handler.delete_chars(n),
        HandlerCall::SaveCursorPosition => handler.save_cursor_position(),
        HandlerCall::RestoreCursorPosition => handler.restore_cursor_position(),
        HandlerCall::ClearLine(m) => handler.clear_line(m),
        HandlerCall::ClearScreen(m) => handler.clear_screen(m),
        HandlerCall::ResetState => handler.reset_state(),
        HandlerCall::TerminalAttribute(a) => handler.terminal_attribute(a),
        HandlerCall::SetMode(m) => handler.set_mode(m),
        HandlerCall::ReportMode(m) => handler.report_mode(m),
        HandlerCall::SetPrivateMode(m) => handler.set_private_mode(m),
        HandlerCall::UnsetPrivateMode(m) => handler.unset_private_mode(m),
        HandlerCall::SetActiveCharset(i) => handler.set_active_charset(i),
        HandlerCall::ConfigureCharset(i, c) => handler.configure_charset(i, c),
        HandlerCall::SetColor(i, c) => handler.set_color(i, c),
        HandlerCall::DynamicColorSequence(prefix, index, bell) => {
            proof {
                reveal_strlit("\x07");
                reveal_strlit("\x1b\\");
            }
            let terminator = if bell {
                "\x07"
            } else {
                "\x1b\\"
            };
            assert(is_bel(terminator@) == bell);
            handler.dynamic_color_sequence(prefix, index, terminator)
        },
        HandlerCall::ResetColor(i) => handler.reset_color(i),
        HandlerCall::ClipboardStore(c, data) => handler.clipboard_store(c, data.as_slice()),
        HandlerCall::ClipboardLoad(c) => handler.clipboard_load(c, ""),
        HandlerCall::SetHyperlink(h) => handler.set_hyperlink(h),
        HandlerCall::ReportKeyboardMode => handler.report_keyboard_mode(),
    }
}

/// Makes `calls` on `handler`, in order.
pub fn apply_all<H: Handler>(handler: &mut H, calls: Vec<HandlerCall>)
    ensures
        final(handler).calls() == old(handler).calls() + calls_view(calls@),
{
    let ghost all = calls_view(calls@);
    let ghost h0 = handler.calls();
    let mut calls = calls;
    let mut i: usize = 0;
    assert(all.take(0) =~= Seq::<HandlerCallV>::empty());
    while i < calls.len()
        invariant
            i <= calls@.len(),
            all.len() == calls@.len(),
            forall|j: int| i <= j < calls@.len() ==> (#[trigger] calls@[j])@ == all[j],
            handler.calls() == h0 + all.take(i as int),
        decreases calls@.len() - i,
    {
        let mut call = HandlerCall::Bell;
        std::mem::swap(&mut call, &mut calls[i]);
        assert(call@ == all[i as int]);
        apply(handler, call);
        assert(all.take(i + 1) =~= all.take(i as int).push(all[i as int]));
        i = i + 1;
    }
    assert(all.take(i as int) =~= all);
}

} // verus!
