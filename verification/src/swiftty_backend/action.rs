use vstd::prelude::*;

use super::backend::parser_run;
use crate::saiga_vte::table::State;
use crate::swiftty_vte::parser::{
    dispatches_view, spec_step, spec_step_defined, Dispatch, DispatchV, Parser, ParserView,
};

verus! {

/// What a dispatcher records.
#[derive(Debug, Clone, Copy, PartialEq, Eq, Structural)]
pub enum Action {
    Print(char),
    Execute(u8),
    Put(u8),
    Unhook,
}

/// Collects the actions that the parser dispatches.
pub struct Dispatcher {
    dispatched: Vec<Action>,
}

impl Dispatcher {
    /// The actions recorded so far, oldest first.
    pub closed spec fn actions(&self) -> Seq<Action> {
        self.dispatched@
    }

    /// A dispatcher that has recorded nothing.
    pub fn new() -> (r: Self)
        ensures
            r.actions() == Seq::<Action>::empty(),
    {
        Dispatcher { dispatched: Vec::new() }
    }

    /// Hands out the recorded actions and starts over with none.
    pub fn take_dispatched_actions(&mut self) -> (r: Vec<Action>)
        ensures
            r@ == old(self).actions(),
            final(self).actions() == Seq::<Action>::empty(),
    {
        let mut taken: Vec<Action> = Vec::new();
        std::mem::swap(&mut taken, &mut self.dispatched);
        taken
    }
}

/// The action that a dispatch is recorded as; hooks, OSC strings, escape
/// and control sequences have none.
pub open spec fn action_of(d: DispatchV) -> Option<Action> {
    match d {
        DispatchV::Print(c) => Some(Action::Print(c)),
        DispatchV::Execute(b) => Some(Action::Execute(b)),
        DispatchV::Put(b) => Some(Action::Put(b)),
        DispatchV::Unhook => Some(Action::Unhook),
        _ => None,
    }
}

/// Every dispatch in `ds` is one that a dispatcher records.
pub open spec fn all_recorded(ds: Seq<DispatchV>) -> bool {
    forall|i: int| 0 <= i < ds.len() ==> (#[trigger] action_of(ds[i])) is Some
}

/// The actions that `ds` are recorded as, in order.
pub open spec fn actions_of(ds: Seq<DispatchV>) -> Seq<Action>
    decreases ds.len(),
{
    if ds.len() == 0 {
        seq![]
    } else {
        actions_of(ds.drop_last()).push(action_of(ds.last())->0)
    }
}

/// Whether [`Dispatcher::process`] takes `bytes` from a parser in state
/// `p` without a panic: the parser is inside an escape sequence before each
/// byte (else the text that follows goes to a text path that does not
/// exist yet), takes each byte, and dispatches only what a dispatcher
/// records (the other callbacks do not exist yet either).
pub open spec fn spec_process_accepts(p: ParserView, bytes: Seq<u8>) -> bool
    decreases bytes.len(),
{
    bytes.len() == 0 || {
        &&& p.state != State::Ground
        &&& spec_step_defined(p, bytes[0])
        &&& all_recorded(spec_step(p, bytes[0]).1)
        &&& spec_process_accepts(spec_step(p, bytes[0]).0, bytes.skip(1))
    }
}

/// The actions recorded while the parser takes `bytes`.
pub open spec fn spec_process_actions(p: ParserView, bytes: Seq<u8>) -> Seq<Action>
    decreases bytes.len(),
{
    if bytes.len() == 0 {
        seq![]
    } else {
        actions_of(spec_step(p, bytes[0]).1) + spec_process_actions(
            spec_step(p, bytes[0]).0,
            bytes.skip(1),
        )
    }
}

impl Dispatcher {
    /// Records what `dispatched` holds.
    fn record(&mut self, dispatched: &Vec<Dispatch>)
        requires
            all_recorded(dispatches_view(dispatched@)),
        ensures
            final(self).actions() == old(self).actions() + actions_of(dispatches_view(dispatched@)),
    {
        let ghost ds = dispatches_view(dispatched@);
        let ghost a0 = self.actions();
        let mut k: usize = 0;
        assert(ds.take(0) =~= Seq::<DispatchV>::empty());
        assert(a0 + actions_of(ds.take(0)) =~= a0);
        while k < dispatched.len()
            invariant
                k <= dispatched@.len(),
                ds == dispatches_view(dispatched@),
                all_recorded(ds),
                self.actions() == a0 + actions_of(ds.take(k as int)),
            decreases dispatched@.len() - k,
        {
            assert(ds[k as int] == dispatched@[k as int]@);
            assert(action_of(ds[k as int]) is Some);
            let action = match &dispatched[k] {
                Dispatch::Print(c) => Action::Print(*c),
                Dispatch::Execute(b) => Action::Execute(*b),
                Dispatch::Put(b) => Action::Put(*b),
                _ => Action::Unhook,
            };
            assert(Some(action) == action_of(ds[k as int]));
            self.dispatched.push(action);
            assert(ds.take(k + 1).drop_last() =~= ds.take(k as int));
            assert(self.actions() =~= a0 + actions_of(ds.take(k + 1)));
            k = k + 1;
        }
        assert(ds.take(k as int) =~= ds);
    }

    /// Feeds `bytes` to `parser` while it is inside an escape sequence and
    /// records what it dispatches.
    pub fn process(&mut self, parser: &mut Parser, bytes: &[u8])
        requires
            old(parser).wf(),
            spec_process_accepts(old(parser)@, bytes@),
        ensures
            final(parser).wf(),
            final(parser)@ == parser_run(old(parser)@, bytes@),
            final(self).actions() == old(self).actions() + spec_process_actions(
                old(parser)@,
                bytes@,
            ),
    {
        let ghost p0 = parser@;
        let ghost a0 = self.actions();
        let mut i: usize = 0;
        assert(bytes@.skip(0) =~= bytes@);
        assert(a0 + spec_process_actions(p0, bytes@) =~= self.actions() + spec_process_actions(
            parser@,
            bytes@.skip(0),
        ));
        while parser.in_escape_sequence() && i < bytes.len()
            invariant
                i <= bytes@.len(),
                parser.wf(),
                spec_process_accepts(parser@, bytes@.skip(i as int)),
                parser_run(parser@, bytes@.skip(i as int)) == parser_run(p0, bytes@),
                self.actions() + spec_process_actions(parser@, bytes@.skip(i as int)) == a0
                    + spec_process_actions(p0, bytes@),
            decreases bytes@.len() - i,
        {
            let ghost rest = bytes@.skip(i as int);
            let ghost pv = parser@;
            let ghost before = self.actions();
            assert(rest[0] == bytes@[i as int]);
            assert(rest.skip(1) =~= bytes@.skip(i + 1));
            let dispatched = parser.step(bytes[i]);
            self.record(&dispatched);
            assert(before + spec_process_actions(pv, rest) =~= self.actions()
                + spec_process_actions(parser@, bytes@.skip(i + 1)));
            i = i + 1;
        }
        proof {
            if i < bytes.len() {
                assert(bytes@.skip(i as int).len() > 0);
            }
            assert(bytes@.skip(i as int).len() == 0);
            assert(self.actions() + spec_process_actions(parser@, bytes@.skip(i as int)) =~= self.actions());
        }
    }
}

impl Default for Dispatcher {
    fn default() -> (r: Self)
        ensures
            r.actions() == Seq::<Action>::empty(),
    {
        Dispatcher::new()
    }
}

/// The position of the first `needle` in `haystack`.
pub fn index_of(haystack: &[u8], needle: u8) -> (r: Option<usize>)
    ensures
        r matches Some(i) ==> i < haystack@.len() && haystack@[i as int] == needle && forall|j: int|
            0 <= j < i ==> haystack@[j] != needle,
        r is None ==> !haystack@.contains(needle),
{
    let mut i: usize = 0;
    while i < haystack.len()
        invariant
            i <= haystack@.len(),
            forall|j: int| 0 <= j < i ==> haystack@[j] != needle,
        decreases haystack@.len() - i,
    {
        if haystack[i] == needle {
            return Some(i);
        }
        i = i + 1;
    }
    None
}

} // verus!
