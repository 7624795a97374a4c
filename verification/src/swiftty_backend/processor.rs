use vstd::prelude::*;

use crate::saiga_vte::table::{lemma_transition_defined, State};
use crate::saiga_vte::utf8::REPLACEMENT_CHARACTER;
use vstd::utf8::{
    char_is_scalar, char_u32_cast, encode_scalar, encode_utf8, encode_utf8_first_scalar,
    encode_utf8_valid_utf8, has_width_1_encoding, has_width_2_encoding, has_width_3_encoding,
};
use crate::saiga_vte::utf8::spec_into_char;
use crate::swiftty_vte::ansi::processor::{
    idle, lemma_width_1_byte, lemma_width_2_bytes, lemma_width_3_bytes, lemma_width_4_bytes,
    print_calls, spec_process_utf8, Processor as TextProcessor, ProcessorView,
};
use crate::swiftty_vte::executor::Executor;
use crate::swiftty_vte::parser::{
    dispatches_view, lemma_replayed_unchanged, lemma_step_uses_params, spec_step,
    spec_step_defined, uses_params, with_params, Dispatch, DispatchV, Parser, ParserView,
};

verus! {

/// The controls that interrupt text: ESC, CR, BS, BEL, NUL, HT, LF, VT, FF,
/// SO and SI.
pub open spec fn is_sequence_start(byte: u8) -> bool {
    ||| byte == 0x1B
    ||| byte == 0x0D
    ||| byte == 0x08
    ||| byte == 0x07
    ||| byte == 0x00
    ||| byte == 0x09
    ||| byte == 0x0A
    ||| byte == 0x0B
    ||| byte == 0x0C
    ||| byte == 0x0E
    ||| byte == 0x0F
}

fn c0_contains(byte: u8) -> (r: bool)
    ensures
        r == is_sequence_start(byte),
{
    byte == 0x1B || byte == 0x0D || byte == 0x08 || byte == 0x07 || byte == 0x00 || byte == 0x09
        || byte == 0x0A || byte == 0x0B || byte == 0x0C || byte == 0x0E || byte == 0x0F
}

fn first_index_of_c0_scalar(haystack: &[u8]) -> (r: Option<usize>)
    ensures
        r matches Some(i) ==> i < haystack@.len() && is_sequence_start(haystack@[i as int])
            && forall|j: int| 0 <= j < i ==> !is_sequence_start(#[trigger] haystack@[j]),
        r is None ==> forall|j: int|
            0 <= j < haystack@.len() ==> !is_sequence_start(#[trigger] haystack@[j]),
{
    let mut i: usize = 0;
    while i < haystack.len()
        invariant
            i <= haystack@.len(),
            forall|j: int| 0 <= j < i ==> !is_sequence_start(#[trigger] haystack@[j]),
        decreases haystack@.len() - i,
    {
        if c0_contains(haystack[i]) {
            return Some(i);
        }
        i = i + 1;
    }
    None
}

/// The position of the first control that interrupts text.
pub fn first_index_of_c0(haystack: &[u8]) -> (r: Option<usize>)
    ensures
        r matches Some(i) ==> i < haystack@.len() && is_sequence_start(haystack@[i as int])
            && forall|j: int| 0 <= j < i ==> !is_sequence_start(#[trigger] haystack@[j]),
        r is None ==> forall|j: int|
            0 <= j < haystack@.len() ==> !is_sequence_start(#[trigger] haystack@[j]),
{
    first_index_of_c0_scalar(haystack)
}

/// One byte through parser and decoder: inside an escape sequence the parser
/// takes it; in the ground state one of the interrupting controls goes to
/// the parser (after an unfinished character is printed as the replacement
/// character) and anything else is text.
pub open spec fn spec_feed(p: ParserView, u: ProcessorView, byte: u8) -> (
    ParserView,
    ProcessorView,
    Seq<DispatchV>,
) {
    if p.state != State::Ground {
        let (p2, d) = spec_step(p, byte);
        (p2, u, d)
    } else if is_sequence_start(byte) {
        let (p2, d) = spec_step(p, byte);
        if u.remaining > 0 {
            (
                p2,
                ProcessorView { utf8: Seq::empty(), remaining: 0 },
                seq![DispatchV::Print(REPLACEMENT_CHARACTER)] + d,
            )
        } else {
            (p2, u, d)
        }
    } else {
        let (u2, d) = spec_process_utf8(u, byte);
        (p, u2, d)
    }
}

pub open spec fn spec_feed_defined(p: ParserView, byte: u8) -> bool {
    p.state != State::Ground ==> spec_step_defined(p, byte)
}

pub open spec fn spec_run(p: ParserView, u: ProcessorView, bytes: Seq<u8>) -> (
    ParserView,
    ProcessorView,
    Seq<DispatchV>,
)
    decreases bytes.len(),
{
    if bytes.len() == 0 {
        (p, u, seq![])
    } else {
        let (p1, u1, d1) = spec_run(p, u, bytes.drop_last());
        let (p2, u2, d2) = spec_feed(p1, u1, bytes.last());
        (p2, u2, d1 + d2)
    }
}

pub open spec fn spec_run_defined(p: ParserView, u: ProcessorView, bytes: Seq<u8>) -> bool
    decreases bytes.len(),
{
    if bytes.len() == 0 {
        true
    } else {
        spec_run_defined(p, u, bytes.drop_last()) && spec_feed_defined(
            spec_run(p, u, bytes.drop_last()).0,
            bytes.last(),
        )
    }
}

/// A stream may be cut anywhere: taking `a` and then `b` ends in the same
/// state and dispatches the same as taking `a + b`, and `a + b` can be
/// taken exactly when `a` can and then `b` can.
pub proof fn lemma_run_concat(p: ParserView, u: ProcessorView, a: Seq<u8>, b: Seq<u8>)
    ensures
        spec_run(p, u, a + b) == ({
            let (p1, u1, d1) = spec_run(p, u, a);
            let (p2, u2, d2) = spec_run(p1, u1, b);
            (p2, u2, d1 + d2)
        }),
        spec_run_defined(p, u, a + b) == (spec_run_defined(p, u, a) && spec_run_defined(
            spec_run(p, u, a).0,
            spec_run(p, u, a).1,
            b,
        )),
    decreases b.len(),
{
    let (p1, u1, d1) = spec_run(p, u, a);
    if b.len() == 0 {
        assert(a + b =~= a);
        assert(d1 + seq![] =~= d1);
    } else {
        assert((a + b).drop_last() =~= a + b.drop_last());
        assert((a + b).last() == b.last());
        lemma_run_concat(p, u, a, b.drop_last());
        let (p2, u2, d2) = spec_run(p1, u1, b.drop_last());
        let (p3, u3, d3) = spec_feed(p2, u2, b.last());
        assert(d1 + d2 + d3 =~= d1 + (d2 + d3));
    }
}

/// A character that is text here: not one of the controls that interrupt
/// text.
pub open spec fn is_text_char(c: char) -> bool {
    !((c as u32) < 0x80 && is_sequence_start(c as u8))
}

proof fn lemma_run_char(p: ParserView, c: char)
    requires
        p.state == State::Ground,
        is_text_char(c),
    ensures
        spec_run(p, idle(), encode_scalar(c as u32)) == (p, idle(), seq![DispatchV::Print(c)]),
        spec_run_defined(p, idle(), encode_scalar(c as u32)),
{
    let s = c as u32;
    char_is_scalar(c);
    char_u32_cast(c, s);
    let bytes = encode_scalar(s);
    let one = seq![c];
    assert(encode_utf8(one.drop_first()) =~= Seq::<u8>::empty());
    assert(one[0] == c);
    assert(encode_utf8(one) =~= bytes);
    encode_utf8_first_scalar(one);
    encode_utf8_valid_utf8(one);
    assert(spec_into_char(bytes) == c);
    reveal_with_fuel(spec_run, 5);
    reveal_with_fuel(spec_run_defined, 5);
    if has_width_1_encoding(s) {
        lemma_width_1_byte(s);
        assert(bytes.drop_last() =~= Seq::<u8>::empty());
    } else if has_width_2_encoding(s) {
        lemma_width_2_bytes(s);
        assert(bytes.drop_last() =~= seq![bytes[0]]);
        assert(bytes.drop_last().drop_last() =~= Seq::<u8>::empty());
        assert(seq![bytes[0]].push(bytes[1]) =~= bytes);
    } else if has_width_3_encoding(s) {
        lemma_width_3_bytes(s);
        assert(bytes.drop_last() =~= seq![bytes[0], bytes[1]]);
        assert(bytes.drop_last().drop_last() =~= seq![bytes[0]]);
        assert(bytes.drop_last().drop_last().drop_last() =~= Seq::<u8>::empty());
        assert(seq![bytes[0]].push(bytes[1]).push(bytes[2]) =~= bytes);
    } else {
        lemma_width_4_bytes(s);
        assert(bytes.drop_last() =~= seq![bytes[0], bytes[1], bytes[2]]);
        assert(bytes.drop_last().drop_last() =~= seq![bytes[0], bytes[1]]);
        assert(bytes.drop_last().drop_last().drop_last() =~= seq![bytes[0]]);
        assert(bytes.drop_last().drop_last().drop_last().drop_last() =~= Seq::<u8>::empty());
        assert(seq![bytes[0]].push(bytes[1]).push(bytes[2]).push(bytes[3]) =~= bytes);
    }
}

/// Text is printed character by character: from the ground state with no
/// character begun, the UTF-8 encoding of characters other than the
/// interrupting controls prints exactly those characters, in order, and
/// leaves parser and decoder as they were.
pub proof fn lemma_run_prints_text(p: ParserView, chars: Seq<char>)
    requires
        p.state == State::Ground,
        forall|i: int| 0 <= i < chars.len() ==> is_text_char(#[trigger] chars[i]),
    ensures
        spec_run(p, idle(), encode_utf8(chars)) == (p, idle(), print_calls(chars)),
        spec_run_defined(p, idle(), encode_utf8(chars)),
    decreases chars.len(),
{
    if chars.len() == 0 {
        assert(encode_utf8(chars) =~= Seq::<u8>::empty());
    } else {
        let c = chars[0];
        let rest = chars.drop_first();
        assert forall|i: int| 0 <= i < rest.len() implies is_text_char(#[trigger] rest[i]) by {
            assert(rest[i] == chars[i + 1]);
        }
        lemma_run_char(p, c);
        lemma_run_prints_text(p, rest);
        lemma_run_concat(p, idle(), encode_scalar(c as u32), encode_utf8(rest));
    }
}

/// Each hook or control sequence that a byte dispatches carries the
/// parameters that the parser holds after the byte.
pub proof fn lemma_feed_uses_params(p: ParserView, u: ProcessorView, byte: u8)
    ensures
        uses_params(spec_feed(p, u, byte).2, spec_feed(p, u, byte).0.params),
{
    let (p2, u2, d) = spec_feed(p, u, byte);
    lemma_step_uses_params(p, byte);
    let (u3, d3) = spec_process_utf8(u, byte);
    assert forall|i: int| 0 <= i < d3.len() implies with_params(#[trigger] d3[i], p2.params)
        == d3[i] by {}
    assert forall|i: int| 0 <= i < d.len() implies with_params(#[trigger] d[i], p2.params) == d[i] by {
        if p.state == State::Ground && is_sequence_start(byte) && u.remaining > 0 && i == 0 {
        } else if p.state == State::Ground && is_sequence_start(byte) && u.remaining > 0 {
            assert(d[i] == spec_step(p, byte).1[i - 1]);
        }
    }
}

pub proof fn lemma_run_defined_prefix(p: ParserView, u: ProcessorView, bytes: Seq<u8>, i: int)
    requires
        spec_run_defined(p, u, bytes),
        0 <= i <= bytes.len(),
    ensures
        spec_run_defined(p, u, bytes.take(i)),
    decreases bytes.len(),
{
    if i < bytes.len() {
        assert(bytes.drop_last().take(i) =~= bytes.take(i));
        lemma_run_defined_prefix(p, u, bytes.drop_last(), i);
    } else {
        assert(bytes.take(i) =~= bytes);
    }
}

/// Splits input into escape sequences and UTF-8 text for a [`Parser`].
pub struct Processor {
    text: TextProcessor,
}

impl View for Processor {
    type V = ProcessorView;

    closed spec fn view(&self) -> ProcessorView {
        self.text@
    }
}

impl Processor {
    pub closed spec fn wf(self) -> bool {
        self.text.wf()
    }

    pub fn new() -> (r: Processor)
        ensures
            r.wf(),
            r@ == (ProcessorView { utf8: Seq::empty(), remaining: 0 }),
    {
        Processor { text: TextProcessor::new() }
    }

    /// Whether an unfinished character waits for more bytes.
    pub fn has_unfinished_char(&self) -> (r: bool)
        ensures
            r == (self@.remaining > 0),
    {
        self.text.has_unfinished_char()
    }

    /// Takes one byte of text.
    pub fn process_utf8(&mut self, byte: u8) -> (r: Vec<Dispatch>)
        requires
            old(self).wf(),
        ensures
            final(self).wf(),
            final(self)@ == spec_process_utf8(old(self)@, byte).0,
            dispatches_view(r@) == spec_process_utf8(old(self)@, byte).1,
    {
        self.text.process_utf8(byte)
    }

    /// Prints an unfinished character as the replacement character.
    pub fn consume_utf8(&mut self) -> (r: Vec<Dispatch>)
        requires
            old(self).wf(),
        ensures
            final(self).wf(),
            old(self)@.remaining > 0 ==> final(self)@ == (ProcessorView {
                utf8: Seq::empty(),
                remaining: 0,
            }) && dispatches_view(r@) == seq![DispatchV::Print(REPLACEMENT_CHARACTER)],
            old(self)@.remaining == 0 ==> final(self)@ == old(self)@ && r@.len() == 0,
    {
        self.text.abort_char()
    }

    /// Takes one byte and returns what it dispatches.
    pub fn feed(&mut self, parser: &mut Parser, byte: u8) -> (r: Vec<Dispatch>)
        requires
            old(self).wf(),
            old(parser).wf(),
            spec_feed_defined(old(parser)@, byte),
        ensures
            final(self).wf(),
            final(parser).wf(),
            (final(parser)@, final(self)@, dispatches_view(r@)) == spec_feed(
                old(parser)@,
                old(self)@,
                byte,
            ),
    {
        if parser.in_escape_sequence() {
            parser.step(byte)
        } else if c0_contains(byte) {
            proof {
                lemma_transition_defined(parser@.state, byte);
            }
            let mut out = self.consume_utf8();
            let ghost head = dispatches_view(out@);
            let mut dispatched = parser.step(byte);
            let ghost dv = dispatches_view(dispatched@);
            let ghost ov = out@;
            out.append(&mut dispatched);
            assert(dispatches_view(out@) =~= dispatches_view(ov) + dv);
            proof {
                if old(self)@.remaining == 0 {
                    assert(dispatches_view(ov) =~= Seq::<DispatchV>::empty());
                    assert(dispatches_view(out@) =~= dv);
                }
            }
            out
        } else {
            self.process_utf8(byte)
        }
    }

    /// Takes `bytes` and hands what they dispatch to `executor` as it comes.
    pub fn process<E: Executor>(&mut self, parser: &mut Parser, executor: &mut E, bytes: &[u8])
        requires
            old(self).wf(),
            old(parser).wf(),
            spec_run_defined(old(parser)@, old(self)@, bytes@),
        ensures
            final(self).wf(),
            final(parser).wf(),
            (final(parser)@, final(self)@) == (spec_run(old(parser)@, old(self)@, bytes@).0,
            spec_run(old(parser)@, old(self)@, bytes@).1),
            final(executor).dispatched() == old(executor).dispatched() + spec_run(
                old(parser)@,
                old(self)@,
                bytes@,
            ).2,
    {
        let ghost p0 = parser@;
        let ghost u0 = self@;
        let ghost e0 = executor.dispatched();
        let mut i: usize = 0;
        assert(bytes@.take(0) =~= Seq::<u8>::empty());
        while i < bytes.len()
            invariant
                i <= bytes@.len(),
                self.wf(),
                parser.wf(),
                spec_run_defined(p0, u0, bytes@),
                (parser@, self@) == (spec_run(p0, u0, bytes@.take(i as int)).0, spec_run(
                    p0,
                    u0,
                    bytes@.take(i as int),
                ).1),
                executor.dispatched() == e0 + spec_run(p0, u0, bytes@.take(i as int)).2,
            decreases bytes@.len() - i,
        {
            proof {
                lemma_run_defined_prefix(p0, u0, bytes@, i + 1);
                assert(bytes@.take(i + 1).drop_last() =~= bytes@.take(i as int));
            }
            let ghost pv = parser@;
            let ghost uv = self@;
            let ghost before = executor.dispatched();
            let dispatched = self.feed(parser, bytes[i]);
            proof {
                lemma_feed_uses_params(pv, uv, bytes@[i as int]);
                lemma_replayed_unchanged(dispatches_view(dispatched@), parser@.params);
            }
            parser.replay(executor, &dispatched);
            proof {
                let d = spec_feed(pv, uv, bytes@[i as int]).2;
                assert(executor.dispatched() == before + d);
                assert(e0 + spec_run(p0, u0, bytes@.take(i as int)).2 + d =~= e0 + (spec_run(
                    p0,
                    u0,
                    bytes@.take(i as int),
                ).2 + d));
            }
            i = i + 1;
        }
        assert(bytes@.take(i as int) =~= bytes@);
    }
}

} // verus!
