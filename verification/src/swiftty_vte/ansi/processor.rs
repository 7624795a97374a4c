use vstd::prelude::*;

use crate::saiga_vte::ansi::c0::{is_c0, spec_is_c0};
use crate::saiga_vte::table::{lemma_transition_defined, State};
use crate::saiga_vte::utf8::{
    expected_bytes_count, spec_expected_bytes_count, spec_into_char, UTF8Collector,
    REPLACEMENT_CHARACTER,
};
use crate::swiftty_vte::executor::Executor;
use vstd::utf8::{
    char_is_scalar, char_u32_cast, encode_scalar, encode_utf8, encode_utf8_first_scalar,
    encode_utf8_valid_utf8, has_width_1_encoding, has_width_2_encoding, has_width_3_encoding,
    last_continuation_byte, leading_byte_width_1, leading_byte_width_2, leading_byte_width_3,
    leading_byte_width_4, second_last_continuation_byte, third_last_continuation_byte,
};
use crate::saiga_vte::ansi::processor::params_nonempty;
use crate::swiftty_vte::parser::{
    all_dispatch_params_nonempty, dispatches_view, lemma_concat_params_nonempty,
    lemma_replayed_unchanged, lemma_step_params_nonempty, lemma_step_uses_params, spec_step,
    spec_step_defined, uses_params, with_params, Dispatch, DispatchV, Parser, ParserView,
};

verus! {

/// The part of a UTF-8 character read so far, and how many bytes it still
/// needs.
pub struct ProcessorView {
    pub utf8: Seq<u8>,
    pub remaining: nat,
}

/// One byte of text: it continues the character being read, starts a new
/// one, or stands alone (ASCII, or an undecodable byte, printed as the
/// replacement character).
pub open spec fn spec_process_utf8(u: ProcessorView, byte: u8) -> (ProcessorView, Seq<DispatchV>) {
    if u.remaining > 0 {
        let bytes = u.utf8.push(byte);
        if u.remaining == 1 {
            (
                ProcessorView { utf8: Seq::empty(), remaining: 0 },
                seq![DispatchV::Print(spec_into_char(bytes))],
            )
        } else {
            (ProcessorView { utf8: bytes, remaining: (u.remaining - 1) as nat }, seq![])
        }
    } else {
        match spec_expected_bytes_count(byte) {
            Some(n) => if n == 1 {
                (u, seq![DispatchV::Print(byte as char)])
            } else {
                (ProcessorView { utf8: u.utf8.push(byte), remaining: (n - 1) as nat }, seq![])
            },
            None => (
                ProcessorView { utf8: Seq::empty(), remaining: 0 },
                seq![DispatchV::Print(spec_into_char(u.utf8.push(byte)))],
            ),
        }
    }
}

/// One byte through parser and decoder: inside an escape sequence the parser
/// takes it; in the ground state a C0 control goes to the parser (after an
/// unfinished character is printed as the replacement character) and
/// anything else is text.
pub open spec fn spec_feed(p: ParserView, u: ProcessorView, byte: u8) -> (
    ParserView,
    ProcessorView,
    Seq<DispatchV>,
) {
    if p.state != State::Ground {
        let (p2, d) = spec_step(p, byte);
        (p2, u, d)
    } else if spec_is_c0(byte) {
        let (p2, d) = spec_step(p, byte);
        if u.remaining > 0 {
            (
                p2,
                ProcessorView { utf8: Seq::empty(), remaining: 0 },
                seq![DispatchV::Print(REPLACEMENT_CHARACTER)] + d,
            )
        } else {
            (p2, u, d)
        }
    } else {
        let (u2, d) = spec_process_utf8(u, byte);
        (p, u2, d)
    }
}

/// Whether the parser can take `byte` when it is handed one.
pub open spec fn spec_feed_defined(p: ParserView, byte: u8) -> bool {
    p.state != State::Ground ==> spec_step_defined(p, byte)
}

/// The bytes one after the other.
pub open spec fn spec_run(p: ParserView, u: ProcessorView, bytes: Seq<u8>) -> (
    ParserView,
    ProcessorView,
    Seq<DispatchV>,
)
    decreases bytes.len(),
{
    if bytes.len() == 0 {
        (p, u, seq![])
    } else {
        let (p1, u1, d1) = spec_run(p, u, bytes.drop_last());
        let (p2, u2, d2) = spec_feed(p1, u1, bytes.last());
        (p2, u2, d1 + d2)
    }
}

/// Whether every byte that reaches the parser can be taken.
pub open spec fn spec_run_defined(p: ParserView, u: ProcessorView, bytes: Seq<u8>) -> bool
    decreases bytes.len(),
{
    if bytes.len() == 0 {
        true
    } else {
        spec_run_defined(p, u, bytes.drop_last()) && spec_feed_defined(
            spec_run(p, u, bytes.drop_last()).0,
            bytes.last(),
        )
    }
}

/// A stream may be cut anywhere: taking `a` and then `b` ends in the same
/// state and dispatches the same as taking `a + b`, and `a + b` can be
/// taken exactly when `a` can and then `b` can.
pub proof fn lemma_run_concat(p: ParserView, u: ProcessorView, a: Seq<u8>, b: Seq<u8>)
    ensures
        spec_run(p, u, a + b) == ({
            let (p1, u1, d1) = spec_run(p, u, a);
            let (p2, u2, d2) = spec_run(p1, u1, b);
            (p2, u2, d1 + d2)
        }),
        spec_run_defined(p, u, a + b) == (spec_run_defined(p, u, a) && spec_run_defined(
            spec_run(p, u, a).0,
            spec_run(p, u, a).1,
            b,
        )),
    decreases b.len(),
{
    let (p1, u1, d1) = spec_run(p, u, a);
    if b.len() == 0 {
        assert(a + b =~= a);
        assert(d1 + seq![] =~= d1);
    } else {
        assert((a + b).drop_last() =~= a + b.drop_last());
        assert((a + b).last() == b.last());
        lemma_run_concat(p, u, a, b.drop_last());
        let (p2, u2, d2) = spec_run(p1, u1, b.drop_last());
        let (p3, u3, d3) = spec_feed(p2, u2, b.last());
        assert(d1 + d2 + d3 =~= d1 + (d2 + d3));
    }
}

/// A character that is printed rather than executed: anything but a C0
/// control or DEL.
pub open spec fn is_printable_char(c: char) -> bool {
    !((c as u32) <= 0x1F || (c as u32) == 0x7F)
}

/// No character begun.
pub open spec fn idle() -> ProcessorView {
    ProcessorView { utf8: Seq::empty(), remaining: 0 }
}

/// Each of `chars` printed, in order.
pub open spec fn print_calls(chars: Seq<char>) -> Seq<DispatchV>
    decreases chars.len(),
{
    if chars.len() == 0 {
        seq![]
    } else {
        seq![DispatchV::Print(chars[0])] + print_calls(chars.drop_first())
    }
}

pub(crate) proof fn lemma_width_1_byte(s: u32)
    by (bit_vector)
    requires
        s <= 0x7F,
    ensures
        leading_byte_width_1(s) as u32 == s,
{
}

pub(crate) proof fn lemma_width_2_bytes(s: u32)
    by (bit_vector)
    requires
        0x80 <= s <= 0x7FF,
    ensures
        0xC2 <= leading_byte_width_2(s) <= 0xDF,
        0x80 <= last_continuation_byte(s) <= 0xBF,
{
}

pub(crate) proof fn lemma_width_3_bytes(s: u32)
    by (bit_vector)
    requires
        0x800 <= s <= 0xFFFF,
    ensures
        0xE0 <= leading_byte_width_3(s) <= 0xEF,
        0x80 <= second_last_continuation_byte(s) <= 0xBF,
        0x80 <= last_continuation_byte(s) <= 0xBF,
{
}

pub(crate) proof fn lemma_width_4_bytes(s: u32)
    by (bit_vector)
    requires
        0x10000 <= s <= 0x10FFFF,
    ensures
        0xF0 <= leading_byte_width_4(s) <= 0xF4,
        0x80 <= third_last_continuation_byte(s) <= 0xBF,
        0x80 <= second_last_continuation_byte(s) <= 0xBF,
        0x80 <= last_continuation_byte(s) <= 0xBF,
{
}

pub(crate) proof fn lemma_run_char(p: ParserView, c: char)
    requires
        p.state == State::Ground,
        is_printable_char(c),
    ensures
        spec_run(p, idle(), encode_scalar(c as u32)) == (p, idle(), seq![DispatchV::Print(c)]),
        spec_run_defined(p, idle(), encode_scalar(c as u32)),
{
    let s = c as u32;
    char_is_scalar(c);
    char_u32_cast(c, s);
    let bytes = encode_scalar(s);
    let one = seq![c];
    assert(one.drop_first() =~= Seq::<char>::empty());
    assert(encode_utf8(one.drop_first()) =~= Seq::<u8>::empty());
    assert(one[0] == c);
    assert(encode_utf8(one) =~= bytes);
    encode_utf8_first_scalar(one);
    encode_utf8_valid_utf8(one);
    assert(spec_into_char(bytes) == c);
    reveal_with_fuel(spec_run, 5);
    reveal_with_fuel(spec_run_defined, 5);
    if has_width_1_encoding(s) {
        lemma_width_1_byte(s);
        assert(bytes.drop_last() =~= Seq::<u8>::empty());
    } else if has_width_2_encoding(s) {
        lemma_width_2_bytes(s);
        assert(bytes.drop_last() =~= seq![bytes[0]]);
        assert(bytes.drop_last().drop_last() =~= Seq::<u8>::empty());
        assert(seq![bytes[0]].push(bytes[1]) =~= bytes);
    } else if has_width_3_encoding(s) {
        lemma_width_3_bytes(s);
        assert(bytes.drop_last() =~= seq![bytes[0], bytes[1]]);
        assert(bytes.drop_last().drop_last() =~= seq![bytes[0]]);
        assert(bytes.drop_last().drop_last().drop_last() =~= Seq::<u8>::empty());
        assert(seq![bytes[0]].push(bytes[1]).push(bytes[2]) =~= bytes);
    } else {
        lemma_width_4_bytes(s);
        assert(bytes.drop_last() =~= seq![bytes[0], bytes[1], bytes[2]]);
        assert(bytes.drop_last().drop_last() =~= seq![bytes[0], bytes[1]]);
        assert(bytes.drop_last().drop_last().drop_last() =~= seq![bytes[0]]);
        assert(bytes.drop_last().drop_last().drop_last().drop_last() =~= Seq::<u8>::empty());
        assert(seq![bytes[0]].push(bytes[1]).push(bytes[2]).push(bytes[3]) =~= bytes);
    }
}

/// Text is printed character by character: from the ground state with no
/// character begun, the UTF-8 encoding of characters that are neither C0
/// controls nor DEL prints exactly those characters, in order, and leaves
/// parser and decoder as they were.
pub proof fn lemma_run_prints_text(p: ParserView, chars: Seq<char>)
    requires
        p.state == State::Ground,
        forall|i: int| 0 <= i < chars.len() ==> is_printable_char(#[trigger] chars[i]),
    ensures
        spec_run(p, idle(), encode_utf8(chars)) == (p, idle(), print_calls(chars)),
        spec_run_defined(p, idle(), encode_utf8(chars)),
    decreases chars.len(),
{
    if chars.len() == 0 {
        assert(encode_utf8(chars) =~= Seq::<u8>::empty());
    } else {
        let c = chars[0];
        let rest = chars.drop_first();
        lemma_run_char(p, c);
        lemma_run_prints_text(p, rest);
        lemma_run_concat(p, idle(), encode_scalar(c as u32), encode_utf8(rest));
        assert forall|i: int| 0 <= i < rest.len() implies is_printable_char(#[trigger] rest[i]) by {
            assert(rest[i] == chars[i + 1]);
        }
    }
}

/// Each hook or control sequence that a byte dispatches carries the
/// parameters that the parser holds after the byte.
pub proof fn lemma_feed_uses_params(p: ParserView, u: ProcessorView, byte: u8)
    ensures
        uses_params(spec_feed(p, u, byte).2, spec_feed(p, u, byte).0.params),
{
    let (p2, u2, d) = spec_feed(p, u, byte);
    lemma_step_uses_params(p, byte);
    let (u3, d3) = spec_process_utf8(u, byte);
    assert forall|i: int| 0 <= i < d3.len() implies with_params(#[trigger] d3[i], p2.params)
        == d3[i] by {}
    assert forall|i: int| 0 <= i < d.len() implies with_params(#[trigger] d[i], p2.params) == d[i] by {
        if p.state == State::Ground && spec_is_c0(byte) && u.remaining > 0 && i == 0 {
        } else if p.state == State::Ground && spec_is_c0(byte) && u.remaining > 0 {
            assert(d[i] == spec_step(p, byte).1[i - 1]);
        }
    }
}

pub proof fn lemma_run_defined_prefix(p: ParserView, u: ProcessorView, bytes: Seq<u8>, i: int)
    requires
        spec_run_defined(p, u, bytes),
        0 <= i <= bytes.len(),
    ensures
        spec_run_defined(p, u, bytes.take(i)),
    decreases bytes.len(),
{
    if i < bytes.len() {
        assert(bytes.drop_last().take(i) =~= bytes.take(i));
        lemma_run_defined_prefix(p, u, bytes.drop_last(), i);
    } else {
        assert(bytes.take(i) =~= bytes);
    }
}

/// Feeding a byte keeps every parameter non-empty, and dispatches no hook
/// or control sequence with an empty parameter.
pub proof fn lemma_feed_params_nonempty(p: ParserView, u: ProcessorView, byte: u8)
    requires
        params_nonempty(p.params),
    ensures
        params_nonempty(spec_feed(p, u, byte).0.params),
        all_dispatch_params_nonempty(spec_feed(p, u, byte).2),
{
    if p.state != State::Ground || spec_is_c0(byte) {
        lemma_step_params_nonempty(p, byte);
        if p.state == State::Ground && u.remaining > 0 {
            let d = spec_step(p, byte).1;
            assert(all_dispatch_params_nonempty(seq![DispatchV::Print(REPLACEMENT_CHARACTER)]));
            lemma_concat_params_nonempty(seq![DispatchV::Print(REPLACEMENT_CHARACTER)], d);
        }
    } else {
        let d = spec_process_utf8(u, byte).1;
        assert forall|i: int| 0 <= i < d.len() implies crate::swiftty_vte::parser::dispatch_params_nonempty(#[trigger] d[i]) by {
            assert(d[i] is Print);
        }
    }
}

/// Splits input into escape sequences and UTF-8 text for a [`Parser`].
pub struct Processor {
    utf8: UTF8Collector,
}

impl View for Processor {
    type V = ProcessorView;

    closed spec fn view(&self) -> ProcessorView {
        ProcessorView { utf8: self.utf8@, remaining: self.utf8.remaining() as nat }
    }
}

impl Processor {
    /// Well-formed: an unfinished character has at least one byte and at
    /// most four in all.
    pub closed spec fn wf(self) -> bool {
        &&& self.utf8.wf()
        &&& self.utf8@.len() + self.utf8.remaining() <= 4
        &&& self.utf8.remaining() == 0 ==> self.utf8@.len() == 0
    }

    pub fn new() -> (r: Processor)
        ensures
            r.wf(),
            r@ == (ProcessorView { utf8: Seq::empty(), remaining: 0 }),
    {
        Processor { utf8: UTF8Collector::new() }
    }

    /// Prints the collected character and starts over.
    fn consume_utf8(&mut self, out: &mut Vec<Dispatch>)
        requires
            old(self).utf8.wf(),
            old(self).utf8@.len() > 0,
        ensures
            final(self).wf(),
            final(self)@ == (ProcessorView { utf8: Seq::empty(), remaining: 0 }),
            final(out)@ == old(out)@.push(Dispatch::Print(spec_into_char(old(self).utf8@))),
    {
        out.push(Dispatch::Print(self.utf8.char()));
        self.utf8.reset();
    }

    /// Takes one byte of text.
    pub(crate) fn process_utf8(&mut self, byte: u8) -> (r: Vec<Dispatch>)
        requires
            old(self).wf(),
        ensures
            final(self).wf(),
            final(self)@ == spec_process_utf8(old(self)@, byte).0,
            dispatches_view(r@) == spec_process_utf8(old(self)@, byte).1,
    {
        let mut out: Vec<Dispatch> = Vec::new();
        if self.utf8.remaining_count() > 0 {
            self.utf8.push(byte);
            let left = self.utf8.remaining_count() - 1;
            self.utf8.set_remaining_count(left);
            if left == 0 {
                self.consume_utf8(&mut out);
            }
        } else {
            match expected_bytes_count(byte) {
                Some(n) => {
                    if n == 1 {
                        out.push(Dispatch::Print(byte as char));
                    } else {
                        self.utf8.push(byte);
                        self.utf8.set_remaining_count(n - 1);
                    }
                },
                None => {
                    self.utf8.push(byte);
                    self.consume_utf8(&mut out);
                },
            }
        }
        assert(dispatches_view(out@) =~= spec_process_utf8(old(self)@, byte).1);
        out
    }

    /// Whether `parser` can take `byte` when it is handed one.
    pub fn can_feed(&self, parser: &Parser, byte: u8) -> (r: bool)
        requires
            parser.wf(),
        ensures
            r == spec_feed_defined(parser@, byte),
    {
        if parser.in_escape_sequence() {
            parser.can_step(byte)
        } else {
            true
        }
    }

    /// Whether an unfinished character waits for more bytes.
    pub fn has_unfinished_char(&self) -> (r: bool)
        ensures
            r == (self@.remaining > 0),
    {
        self.utf8.remaining_count() > 0
    }

    /// Drops an unfinished character, printing the replacement character
    /// for it.
    pub(crate) fn abort_char(&mut self) -> (r: Vec<Dispatch>)
        requires
            old(self).wf(),
        ensures
            final(self).wf(),
            old(self)@.remaining > 0 ==> final(self)@ == (ProcessorView {
                utf8: Seq::empty(),
                remaining: 0,
            }) && dispatches_view(r@) == seq![DispatchV::Print(REPLACEMENT_CHARACTER)],
            old(self)@.remaining == 0 ==> final(self)@ == old(self)@ && r@.len() == 0,
    {
        let mut out: Vec<Dispatch> = Vec::new();
        if self.utf8.remaining_count() > 0 {
            out.push(Dispatch::Print(REPLACEMENT_CHARACTER));
            self.utf8.reset();
            assert(dispatches_view(out@) =~= seq![DispatchV::Print(REPLACEMENT_CHARACTER)]);
        }
        out
    }

    /// Takes one byte and returns what it dispatches.
    pub fn feed(&mut self, parser: &mut Parser, byte: u8) -> (r: Vec<Dispatch>)
        requires
            old(self).wf(),
            old(parser).wf(),
            spec_feed_defined(old(parser)@, byte),
        ensures
            final(self).wf(),
            final(parser).wf(),
            (final(parser)@, final(self)@, dispatches_view(r@)) == spec_feed(
                old(parser)@,
                old(self)@,
                byte,
            ),
    {
        if parser.in_escape_sequence() {
            parser.step(byte)
        } else if is_c0(byte) {
            proof {
                lemma_transition_defined(parser@.state, byte);
            }
            let mut out: Vec<Dispatch> = Vec::new();
            if self.utf8.remaining_count() > 0 {
                out.push(Dispatch::Print(REPLACEMENT_CHARACTER));
                self.utf8.reset();
            }
            let ghost head = out@;
            let mut dispatched = parser.step(byte);
            out.append(&mut dispatched);
            proof {
                let (p2, d) = spec_step(old(parser)@, byte);
                if old(self)@.remaining > 0 {
                    assert(dispatches_view(out@) =~= seq![DispatchV::Print(REPLACEMENT_CHARACTER)]
                        + d);
                } else {
                    assert(dispatches_view(out@) =~= d);
                }
            }
            out
        } else {
            self.process_utf8(byte)
        }
    }

    /// Takes `bytes` and returns everything they dispatch, in order.
    pub fn dispatches(&mut self, parser: &mut Parser, bytes: &[u8]) -> (r: Vec<Dispatch>)
        requires
            old(self).wf(),
            old(parser).wf(),
            spec_run_defined(old(parser)@, old(self)@, bytes@),
        ensures
            final(self).wf(),
            final(parser).wf(),
            (final(parser)@, final(self)@, dispatches_view(r@)) == spec_run(
                old(parser)@,
                old(self)@,
                bytes@,
            ),
    {
        let ghost p0 = parser@;
        let ghost u0 = self@;
        let mut out: Vec<Dispatch> = Vec::new();
        let mut i: usize = 0;
        assert(bytes@.take(0) =~= Seq::<u8>::empty());
        while i < bytes.len()
            invariant
                i <= bytes@.len(),
                self.wf(),
                parser.wf(),
                spec_run_defined(p0, u0, bytes@),
                (parser@, self@, dispatches_view(out@)) == spec_run(p0, u0, bytes@.take(i as int)),
            decreases bytes@.len() - i,
        {
            proof {
                lemma_run_defined_prefix(p0, u0, bytes@, i + 1);
                assert(bytes@.take(i + 1).drop_last() =~= bytes@.take(i as int));
            }
            let ghost before = out@;
            let mut d = self.feed(parser, bytes[i]);
            let ghost dv = d@;
            out.append(&mut d);
            proof {
                assert(dispatches_view(out@) =~= dispatches_view(before) + dispatches_view(dv));
            }
            i = i + 1;
        }
        assert(bytes@.take(i as int) =~= bytes@);
        out
    }

    /// Takes `bytes` and hands what they dispatch to `executor` as it comes.
    pub fn process<E: Executor>(&mut self, parser: &mut Parser, executor: &mut E, bytes: &[u8])
        requires
            old(self).wf(),
            old(parser).wf(),
            spec_run_defined(old(parser)@, old(self)@, bytes@),
        ensures
            final(self).wf(),
            final(parser).wf(),
            (final(parser)@, final(self)@) == (spec_run(old(parser)@, old(self)@, bytes@).0,
            spec_run(old(parser)@, old(self)@, bytes@).1),
            final(executor).dispatched() == old(executor).dispatched() + spec_run(
                old(parser)@,
                old(self)@,
                bytes@,
            ).2,
    {
        let ghost p0 = parser@;
        let ghost u0 = self@;
        let ghost e0 = executor.dispatched();
        let mut i: usize = 0;
        assert(bytes@.take(0) =~= Seq::<u8>::empty());
        while i < bytes.len()
            invariant
                i <= bytes@.len(),
                self.wf(),
                parser.wf(),
                spec_run_defined(p0, u0, bytes@),
                (parser@, self@) == (spec_run(p0, u0, bytes@.take(i as int)).0, spec_run(
                    p0,
                    u0,
                    bytes@.take(i as int),
                ).1),
                executor.dispatched() == e0 + spec_run(p0, u0, bytes@.take(i as int)).2,
            decreases bytes@.len() - i,
        {
            proof {
                lemma_run_defined_prefix(p0, u0, bytes@, i + 1);
                assert(bytes@.take(i + 1).drop_last() =~= bytes@.take(i as int));
            }
            let ghost pv = parser@;
            let ghost uv = self@;
            let ghost before = executor.dispatched();
            let dispatched = self.feed(parser, bytes[i]);
            proof {
                lemma_feed_uses_params(pv, uv, bytes@[i as int]);
                lemma_replayed_unchanged(dispatches_view(dispatched@), parser@.params);
            }
            parser.replay(executor, &dispatched);
            proof {
                let d = spec_feed(pv, uv, bytes@[i as int]).2;
                assert(executor.dispatched() == before + d);
                assert(e0 + spec_run(p0, u0, bytes@.take(i as int)).2 + d =~= e0 + (spec_run(
                    p0,
                    u0,
                    bytes@.take(i as int),
                ).2 + d));
            }
            i = i + 1;
        }
        assert(bytes@.take(i as int) =~= bytes@);
    }
}

} // verus!
