use vstd::prelude::*;

use crate::saiga_vte::table::State;
use crate::swiftty_vte::osc::MAX_OSC_PARAMS;
use crate::swiftty_vte::parser::{spec_step, spec_step_defined, Parser, ParserView};

use super::utf::{
    expected_utf8_bytes_count, find_utf8_start, is_utf8_start, spec_expected_utf8_bytes_count,
};

verus! {

/// What the byte splitter hands on: a byte for the parser, or a chunk of
/// UTF-8 text.
#[derive(Debug, Clone, PartialEq, Eq)]
pub enum Step {
    Advance(u8),
    Text(Vec<u8>),
}

/// A [`Step`] as a value.
pub enum StepV {
    Advance(u8),
    Text(Seq<u8>),
}

impl Step {
    pub open spec fn view_of(self) -> StepV {
        match self {
            Step::Advance(b) => StepV::Advance(b),
            Step::Text(t) => StepV::Text(t@),
        }
    }
}

pub open spec fn steps_view(s: Seq<Step>) -> Seq<StepV> {
    s.map_values(|x: Step| x.view_of())
}

/// The bytes of `s`, each handed to the parser.
pub open spec fn advance_all(s: Seq<u8>) -> Seq<StepV> {
    s.map_values(|b: u8| StepV::Advance(b))
}

/// `i` is the first position in `s` that can start a UTF-8 character.
pub open spec fn is_first_start(s: Seq<u8>, i: int) -> bool {
    &&& 0 <= i < s.len()
    &&& is_utf8_start(s[i])
    &&& forall|j: int| 0 <= j < i ==> !is_utf8_start(#[trigger] s[j])
}

pub open spec fn has_utf8_start(s: Seq<u8>) -> bool {
    exists|i: int| is_first_start(s, i)
}

pub open spec fn first_start(s: Seq<u8>) -> int {
    choose|i: int| is_first_start(s, i)
}

/// The length of the character that `b` starts, 0 where it starts none.
pub open spec fn count_of(b: u8) -> int {
    match spec_expected_utf8_bytes_count(b) {
        Some(c) => c.spec_count() as int,
        None => 0,
    }
}

/// What the splitting loop hands on for the rest `rem` of `bytes`: the
/// bytes of `bytes` before the position of the next character start in
/// `rem` go to the parser, then a chunk as long as the character that the
/// first byte of `bytes` starts is text; where `rem` holds no start at all,
/// all of `bytes` goes to the parser.
pub open spec fn spec_split_rest(bytes: Seq<u8>, rem: Seq<u8>) -> Seq<StepV>
    decreases rem.len(),
{
    if rem.len() == 0 {
        seq![]
    } else if !has_utf8_start(rem) {
        advance_all(bytes)
    } else {
        let s = first_start(rem);
        let r = rem.skip(s);
        let c = count_of(bytes[0]);
        if 1 <= c <= r.len() {
            advance_all(bytes.take(s)) + seq![StepV::Text(r.take(c))] + spec_split_rest(
                bytes,
                r.skip(c),
            )
        } else {
            advance_all(bytes.take(s))
        }
    }
}

/// Whether the splitting loop ends on `rem` without a panic: each time a
/// character start is found, the first byte of `bytes` starts a character
/// (else `expect` panics) and enough bytes are left for it (else the loop
/// never advances and runs forever).
pub open spec fn spec_split_finishes(bytes: Seq<u8>, rem: Seq<u8>) -> bool
    decreases rem.len(),
{
    if rem.len() == 0 || !has_utf8_start(rem) {
        true
    } else {
        let s = first_start(rem);
        let r = rem.skip(s);
        let c = count_of(bytes[0]);
        1 <= c <= r.len() && spec_split_finishes(bytes, r.skip(c))
    }
}

/// The state of an [`Executor`]: the bytes of a character that the last
/// call could not finish, how many of them are there, and how many are
/// still to come.
pub struct ExecutorView {
    pub trailing: Seq<u8>,
    pub trailing_len: int,
    pub remaining: int,
}

/// `t` with `src` written from position `at` on.
pub open spec fn write_at(t: Seq<u8>, at: int, src: Seq<u8>) -> Seq<u8> {
    Seq::new(t.len(), |i: int| if at <= i < at + src.len() { src[i - at] } else { t[i] })
}

/// The part of a call that first completes a character that the previous
/// call began: the new state, the steps, and the bytes that the splitting
/// loop then gets.
pub open spec fn spec_pending(e: ExecutorView, bytes: Seq<u8>) -> (ExecutorView, Seq<StepV>, Seq<u8>) {
    if e.remaining == 0 {
        (e, seq![], bytes)
    } else if bytes.len() >= e.remaining {
        let t = write_at(e.trailing, e.trailing_len, bytes.take(e.remaining));
        let keep = if bytes.len() < e.remaining + 1 {
            bytes.len() as int
        } else {
            e.remaining + 1
        };
        (
            ExecutorView { trailing: t, trailing_len: 0, remaining: 0 },
            seq![StepV::Text(t)],
            bytes.take(keep),
        )
    } else {
        let t = write_at(e.trailing, e.trailing_len, bytes);
        (
            ExecutorView {
                trailing: t,
                trailing_len: e.trailing_len + bytes.len(),
                remaining: e.remaining,
            },
            seq![],
            bytes,
        )
    }
}

/// Whether completing a pending character stays inside the four-byte
/// buffer and in the cases that the code handles (at most three bytes to
/// come; one or two bytes when they do not suffice).
pub open spec fn spec_pending_ok(e: ExecutorView, bytes: Seq<u8>) -> bool {
    e.remaining == 0 || if bytes.len() >= e.remaining {
        e.remaining <= 3 && e.trailing_len + e.remaining <= 4
    } else {
        1 <= bytes.len() <= 2 && e.trailing_len + bytes.len() <= 4
    }
}

/// What a call of [`Executor::split`] leaves and hands on.
pub open spec fn spec_process(e: ExecutorView, bytes: Seq<u8>) -> (ExecutorView, Seq<StepV>) {
    if bytes.len() == 0 {
        (e, seq![])
    } else {
        let (e1, st, rem) = spec_pending(e, bytes);
        (e1, st + spec_split_rest(bytes, rem))
    }
}

/// Whether a call of [`Executor::split`] ends without a panic.
pub open spec fn spec_process_finishes(e: ExecutorView, bytes: Seq<u8>) -> bool {
    bytes.len() == 0 || (spec_pending_ok(e, bytes) && spec_split_finishes(
        bytes,
        spec_pending(e, bytes).2,
    ))
}

proof fn lemma_steps_view_push(s: Seq<Step>, x: Step)
    ensures
        steps_view(s.push(x)) == steps_view(s).push(x.view_of()),
{
    assert(steps_view(s.push(x)) =~= steps_view(s).push(x.view_of()));
}

proof fn lemma_advance_all_take(b: Seq<u8>, i: int)
    requires
        0 <= i < b.len(),
    ensures
        advance_all(b.take(i + 1)) == advance_all(b.take(i)).push(StepV::Advance(b[i])),
{
    assert(advance_all(b.take(i + 1)) =~= advance_all(b.take(i)).push(StepV::Advance(b[i])));
}

proof fn lemma_first_start_unique(s: Seq<u8>, i: int)
    requires
        is_first_start(s, i),
    ensures
        has_utf8_start(s),
        first_start(s) == i,
{
    let k = first_start(s);
    assert(is_first_start(s, k));
    if k < i {
        assert(!is_utf8_start(s[k]));
    } else if i < k {
        assert(!is_utf8_start(s[i]));
    }
}

/// Splits bytes into UTF-8 text and bytes for the parser.
pub struct Executor {
    trailing_utf8_bytes: [u8; 4],
    trailing_utf8_bytes_len: usize,
    remaining_utf8_bytes_count: usize,
}

impl View for Executor {
    type V = ExecutorView;

    closed spec fn view(&self) -> ExecutorView {
        ExecutorView {
            trailing: self.trailing_utf8_bytes@,
            trailing_len: self.trailing_utf8_bytes_len as int,
            remaining: self.remaining_utf8_bytes_count as int,
        }
    }
}

impl Executor {
    /// Nothing pending.
    pub fn new() -> (r: Executor)
        ensures
            r@.trailing == seq![0u8, 0u8, 0u8, 0u8],
            r@.trailing_len == 0,
            r@.remaining == 0,
    {
        let r = Executor {
            trailing_utf8_bytes: [0u8; 4],
            trailing_utf8_bytes_len: 0,
            remaining_utf8_bytes_count: 0,
        };
        assert(r@.trailing =~= seq![0u8, 0u8, 0u8, 0u8]);
        r
    }

    /// Copies the first `n` bytes of `src` behind the trailing bytes.
    fn push_trailing(&mut self, src: &[u8], n: usize)
        requires
            old(self)@.trailing_len + n <= 4,
            n <= src@.len(),
            old(self)@.trailing.len() == 4,
        ensures
            final(self)@ == (ExecutorView {
                trailing: write_at(old(self)@.trailing, old(self)@.trailing_len, src@.take(n as int)),
                trailing_len: old(self)@.trailing_len + n,
                remaining: old(self)@.remaining,
            }),
    {
        let ghost t0 = old(self)@.trailing;
        let ghost at = old(self)@.trailing_len;
        let mut k: usize = 0;
        while k < n
            invariant
                k <= n,
                n <= src@.len(),
                at + n <= 4,
                t0.len() == 4,
                self@.trailing_len == at + k,
                self@.remaining == old(self)@.remaining,
                self@.trailing =~= write_at(t0, at, src@.take(k as int)),
            decreases n - k,
        {
            let i = self.trailing_utf8_bytes_len;
            self.trailing_utf8_bytes[i] = src[k];
            self.trailing_utf8_bytes_len = i + 1;
            k = k + 1;
            assert(self@.trailing =~= write_at(t0, at, src@.take(k as int)));
        }
    }

    /// Splits `bytes` into text chunks and parser bytes: first it completes
    /// a character that the previous call began, then it walks the rest.
    pub fn split(&mut self, bytes: &[u8]) -> (r: Vec<Step>)
        requires
            old(self)@.trailing.len() == 4,
            spec_process_finishes(old(self)@, bytes@),
        ensures
            final(self)@ == spec_process(old(self)@, bytes@).0,
            steps_view(r@) == spec_process(old(self)@, bytes@).1,
    {
        let mut out: Vec<Step> = Vec::new();
        if bytes.len() == 0 {
            assert(steps_view(out@) =~= seq![]);
            return out;
        }
        let ghost e0 = self@;
        let ghost pending = spec_pending(e0, bytes@);
        let mut remaining: &[u8] = bytes;
        if self.remaining_utf8_bytes_count != 0 {
            let count = self.remaining_utf8_bytes_count;
            let consumed: usize;
            if remaining.len() >= count {
                consumed = count;
                self.push_trailing(bytes, count);
                let utf8_bytes = self.trailing_utf8_bytes;
                out.push(Step::Text(vstd::slice::slice_to_vec(utf8_bytes.as_slice())));
                self.remaining_utf8_bytes_count = 0;
                self.trailing_utf8_bytes_len = 0;
            } else {
                consumed = remaining.len();
                self.push_trailing(bytes, consumed);
                assert(bytes@.take(consumed as int) =~= bytes@);
            }
            let keep = if remaining.len() < consumed + 1 {
                remaining.len()
            } else {
                consumed + 1
            };
            remaining = vstd::slice::slice_subrange(remaining, 0, keep);
        }
        assert(self@ == pending.0);
        assert(steps_view(out@) =~= pending.1);
        assert(remaining@ =~= pending.2);
        while remaining.len() > 0
            invariant
                bytes@.len() > 0,
                e0 == old(self)@,
                remaining@.len() <= bytes@.len(),
                self@ == spec_process(e0, bytes@).0,
                spec_split_finishes(bytes@, remaining@),
                steps_view(out@) + spec_split_rest(bytes@, remaining@) == spec_process(
                    e0,
                    bytes@,
                ).1,
            decreases remaining@.len(),
        {
            let ghost before = steps_view(out@);
            match find_utf8_start(remaining) {
                None => {
                    assert(!has_utf8_start(remaining@));
                    assert(before + advance_all(bytes@) == spec_process(e0, bytes@).1);
                    let mut i: usize = 0;
                    while i < bytes.len()
                        invariant
                            i <= bytes@.len(),
                            e0 == old(self)@,
                            self@ == spec_process(e0, bytes@).0,
                            before + advance_all(bytes@) == spec_process(e0, bytes@).1,
                            steps_view(out@) == before + advance_all(bytes@.take(i as int)),
                        decreases bytes@.len() - i,
                    {
                        proof {
                            lemma_steps_view_push(out@, Step::Advance(bytes@[i as int]));
                            lemma_advance_all_take(bytes@, i as int);
                        }
                        out.push(Step::Advance(bytes[i]));
                        i = i + 1;
                        assert(steps_view(out@) =~= before + advance_all(bytes@.take(i as int)));
                    }
                    assert(bytes@.take(bytes@.len() as int) =~= bytes@);
                    assert(steps_view(out@) =~= spec_process(e0, bytes@).1);
                    return out;
                },
                Some(utf8_start) => {
                    proof {
                        lemma_first_start_unique(remaining@, utf8_start as int);
                    }
                    let ghost rem0 = remaining@;
                    let mut i: usize = 0;
                    while i < utf8_start
                        invariant
                            i <= utf8_start,
                            utf8_start < rem0.len(),
                            rem0.len() <= bytes@.len(),
                            steps_view(out@) == before + advance_all(bytes@.take(i as int)),
                        decreases utf8_start - i,
                    {
                        proof {
                            lemma_steps_view_push(out@, Step::Advance(bytes@[i as int]));
                            lemma_advance_all_take(bytes@, i as int);
                        }
                        out.push(Step::Advance(bytes[i]));
                        i = i + 1;
                        assert(steps_view(out@) =~= before + advance_all(bytes@.take(i as int)));
                    }
                    remaining = vstd::slice::slice_subrange(remaining, utf8_start, remaining.len());
                    assert(remaining@ =~= rem0.skip(utf8_start as int));
                    let utf8_bytes_count = expected_utf8_bytes_count(bytes[0]).expect(
                        "UTF-8 leading byte must be found",
                    ).count();
                    let utf8_bytes = vstd::slice::slice_subrange(remaining, 0, utf8_bytes_count);
                    let ghost text = remaining@.take(utf8_bytes_count as int);
                    assert(utf8_bytes@ =~= text);
                    out.push(Step::Text(vstd::slice::slice_to_vec(utf8_bytes)));
                    remaining = vstd::slice::slice_subrange(
                        remaining,
                        utf8_bytes_count,
                        remaining.len(),
                    );
                    assert(remaining@ =~= rem0.skip(utf8_start as int).skip(utf8_bytes_count as int));
                    assert(steps_view(out@) =~= before + advance_all(bytes@.take(utf8_start as int))
                        + seq![StepV::Text(text)]);
                },
            }
        }
        assert(steps_view(out@) =~= spec_process(e0, bytes@).1);
        out
    }
}

/// A call that finishes from a state with nothing pending leaves nothing
/// pending.
pub proof fn lemma_split_keeps_nothing_pending(e: ExecutorView, bytes: Seq<u8>)
    requires
        e.remaining == 0,
    ensures
        spec_process(e, bytes).0 == e,
{
}

/// The bytes that `steps` hand to the parser, in order.
pub open spec fn advanced_bytes(steps: Seq<StepV>) -> Seq<u8>
    decreases steps.len(),
{
    if steps.len() == 0 {
        seq![]
    } else {
        (match steps[0] {
            StepV::Advance(b) => seq![b],
            StepV::Text(_) => seq![],
        }) + advanced_bytes(steps.skip(1))
    }
}

/// The text chunks of `steps`, in order.
pub open spec fn texts(steps: Seq<StepV>) -> Seq<Seq<u8>>
    decreases steps.len(),
{
    if steps.len() == 0 {
        seq![]
    } else {
        (match steps[0] {
            StepV::Advance(_) => seq![],
            StepV::Text(t) => seq![t],
        }) + texts(steps.skip(1))
    }
}

pub open spec fn vecs_view(s: Seq<Vec<u8>>) -> Seq<Seq<u8>> {
    s.map_values(|v: Vec<u8>| v@)
}

/// The parser after it took `bytes`.
pub open spec fn parser_run(p: ParserView, bytes: Seq<u8>) -> ParserView
    decreases bytes.len(),
{
    if bytes.len() == 0 {
        p
    } else {
        parser_run(spec_step(p, bytes[0]).0, bytes.skip(1))
    }
}

/// Whether the parser takes every byte of `bytes` without dispatching
/// anything.
pub open spec fn parser_run_quiet(p: ParserView, bytes: Seq<u8>) -> bool
    decreases bytes.len(),
{
    bytes.len() == 0 || (spec_step_defined(p, bytes[0]) && spec_step(p, bytes[0]).1.len() == 0
        && parser_run_quiet(spec_step(p, bytes[0]).0, bytes.skip(1)))
}

/// The state of a parser that was just made.
pub open spec fn is_fresh_parser(v: ParserView) -> bool {
    &&& v.state == State::Ground
    &&& v.params == Seq::<Seq<u16>>::empty()
    &&& v.pending == Seq::<u16>::empty()
    &&& v.subparam == 0
    &&& v.intermediates == Seq::<u8>::empty()
    &&& !v.ignoring
    &&& v.osc_raw == Seq::<u8>::empty()
    &&& v.osc_num == 0
    &&& forall|i: int| 0 <= i < MAX_OSC_PARAMS ==> (#[trigger] v.osc_bounds[i]) == (0usize, 0usize)
}

/// Whether [`Executor::process`] ends without a panic: the split ends, and
/// the parser takes the bytes handed to it without dispatching anything
/// (each dispatch goes to a callback that the executor does not provide).
pub open spec fn spec_process_accepts(e: ExecutorView, p: ParserView, bytes: Seq<u8>) -> bool {
    &&& spec_process_finishes(e, bytes)
    &&& parser_run_quiet(p, advanced_bytes(spec_process(e, bytes).1))
}

impl Default for Executor {
    fn default() -> (r: Executor)
        ensures
            r@.trailing == seq![0u8, 0u8, 0u8, 0u8],
            r@.trailing_len == 0,
            r@.remaining == 0,
    {
        Executor::new()
    }
}

impl Executor {
    /// Splits `bytes` (see [`Executor::split`]), feeds the parser bytes to
    /// `parser` and returns the text chunks.
    pub fn process(&mut self, parser: &mut Parser, bytes: &[u8]) -> (r: Vec<Vec<u8>>)
        requires
            old(self)@.trailing.len() == 4,
            old(parser).wf(),
            spec_process_accepts(old(self)@, old(parser)@, bytes@),
        ensures
            final(self)@ == spec_process(old(self)@, bytes@).0,
            final(parser).wf(),
            final(parser)@ == parser_run(old(parser)@, advanced_bytes(spec_process(old(self)@, bytes@).1)),
            vecs_view(r@) == texts(spec_process(old(self)@, bytes@).1),
    {
        let steps = self.split(bytes);
        let ghost target = steps_view(steps@);
        let ghost p0 = parser@;
        let mut out: Vec<Vec<u8>> = Vec::new();
        let mut i: usize = 0;
        assert(target.skip(0) =~= target);
        assert(vecs_view(out@) =~= seq![]);
        while i < steps.len()
            invariant
                i <= steps@.len(),
                parser.wf(),
                target == steps_view(steps@),
                parser_run_quiet(parser@, advanced_bytes(target.skip(i as int))),
                parser_run(parser@, advanced_bytes(target.skip(i as int))) == parser_run(
                    p0,
                    advanced_bytes(target),
                ),
                vecs_view(out@) + texts(target.skip(i as int)) == texts(target),
            decreases steps@.len() - i,
        {
            let ghost rest = target.skip(i as int);
            assert(rest.skip(1) =~= target.skip(i + 1));
            assert(rest[0] == steps@[i as int].view_of());
            match &steps[i] {
                Step::Advance(b) => {
                    let ghost adv = advanced_bytes(rest);
                    assert(adv[0] == *b);
                    assert(adv.skip(1) =~= advanced_bytes(target.skip(i + 1)));
                    let _ = parser.step(*b);
                    assert(texts(rest) =~= texts(target.skip(i + 1)));
                },
                Step::Text(t) => {
                    assert(advanced_bytes(rest) =~= advanced_bytes(target.skip(i + 1)));
                    let chunk = vstd::slice::slice_to_vec(t.as_slice());
                    out.push(chunk);
                    assert(vecs_view(out@) + texts(target.skip(i + 1)) =~= texts(target));
                },
            }
            i = i + 1;
        }
        assert(vecs_view(out@) =~= texts(target));
        out
    }
}

/// A terminal backend: a parser and the executor that splits its input.
pub struct Backend {
    parser: Parser,
    executor: Executor,
}

impl Backend {
    pub closed spec fn parser_view(&self) -> ParserView {
        self.parser@
    }

    pub closed spec fn executor_view(&self) -> ExecutorView {
        self.executor@
    }

    pub closed spec fn wf(&self) -> bool {
        self.parser.wf() && self.executor@.trailing.len() == 4
    }

    /// A fresh parser and an executor with nothing pending.
    pub fn new() -> (r: Backend)
        ensures
            r.wf(),
            is_fresh_parser(r.parser_view()),
            r.executor_view().trailing_len == 0,
            r.executor_view().remaining == 0,
            r.executor_view().trailing == seq![0u8, 0u8, 0u8, 0u8],
    {
        Backend { parser: Parser::new(), executor: Executor::new() }
    }

    /// Processes `bytes` and returns the text chunks found in them.
    pub fn process(&mut self, bytes: &[u8]) -> (r: Vec<Vec<u8>>)
        requires
            old(self).wf(),
            spec_process_accepts(old(self).executor_view(), old(self).parser_view(), bytes@),
        ensures
            final(self).wf(),
            final(self).executor_view() == spec_process(old(self).executor_view(), bytes@).0,
            final(self).parser_view() == parser_run(
                old(self).parser_view(),
                advanced_bytes(spec_process(old(self).executor_view(), bytes@).1),
            ),
            vecs_view(r@) == texts(spec_process(old(self).executor_view(), bytes@).1),
    {
        self.executor.process(&mut self.parser, bytes)
    }
}

impl Default for Backend {
    fn default() -> (r: Backend)
        ensures
            r.wf(),
            is_fresh_parser(r.parser_view()),
            r.executor_view().trailing_len == 0,
            r.executor_view().remaining == 0,
    {
        Backend::new()
    }
}

} // verus!
