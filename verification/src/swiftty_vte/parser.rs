use vstd::prelude::*;

use crate::saiga_vte::table::{change_state, spec_change_state, spec_transition, Action, State};
use super::executor::{osc_strings, Executor};
use super::intermediate;
use super::osc;
use super::osc::MAX_OSC_PARAMS;
use super::param::{Params, MAX_PARAMS, MAX_SUBPARAMS, PARAM_SEPARATOR, SUBPARAM_SEPARATOR};
use crate::saiga_vte::ansi::processor::params_nonempty;

verus! {

/// What the parser hands on, one item per executor call.
#[derive(Debug, PartialEq, Eq)]
pub enum Dispatch {
    Print(char),
    Execute(u8),
    Put(u8),
    Hook { params: Vec<Vec<u16>>, intermediates: Vec<u8>, ignore: bool, action: char },
    Unhook,
    Osc { params: Vec<Vec<u8>>, bell_terminated: bool },
    Esc { intermediates: Vec<u8>, ignore: bool, byte: u8 },
    Csi { params: Vec<Vec<u16>>, intermediates: Vec<u8>, ignore: bool, action: char },
}

/// The mathematical content of a [`Dispatch`].
pub enum DispatchV {
    Print(char),
    Execute(u8),
    Put(u8),
    Hook { params: Seq<Seq<u16>>, intermediates: Seq<u8>, ignore: bool, action: char },
    Unhook,
    Osc { params: Seq<Seq<u8>>, bell_terminated: bool },
    Esc { intermediates: Seq<u8>, ignore: bool, byte: u8 },
    Csi { params: Seq<Seq<u16>>, intermediates: Seq<u8>, ignore: bool, action: char },
}

pub open spec fn seqs_u16(v: Seq<Vec<u16>>) -> Seq<Seq<u16>> {
    v.map_values(|p: Vec<u16>| p@)
}

pub open spec fn seqs_u8(v: Seq<Vec<u8>>) -> Seq<Seq<u8>> {
    v.map_values(|p: Vec<u8>| p@)
}

impl View for Dispatch {
    type V = DispatchV;

    open spec fn view(&self) -> DispatchV {
        match self {
            Dispatch::Print(c) => DispatchV::Print(*c),
            Dispatch::Execute(b) => DispatchV::Execute(*b),
            Dispatch::Put(b) => DispatchV::Put(*b),
            Dispatch::Hook { params, intermediates, ignore, action } => DispatchV::Hook {
                params: seqs_u16(params@),
                intermediates: intermediates@,
                ignore: *ignore,
                action: *action,
            },
            Dispatch::Unhook => DispatchV::Unhook,
            Dispatch::Osc { params, bell_terminated } => DispatchV::Osc {
                params: seqs_u8(params@),
                bell_terminated: *bell_terminated,
            },
            Dispatch::Esc { intermediates, ignore, byte } => DispatchV::Esc {
                intermediates: intermediates@,
                ignore: *ignore,
                byte: *byte,
            },
            Dispatch::Csi { params, intermediates, ignore, action } => DispatchV::Csi {
                params: seqs_u16(params@),
                intermediates: intermediates@,
                ignore: *ignore,
                action: *action,
            },
        }
    }
}

pub open spec fn dispatches_view(v: Seq<Dispatch>) -> Seq<DispatchV> {
    v.map_values(|d: Dispatch| d@)
}

/// The state of a parser as values.
pub struct ParserView {
    pub state: State,
    /// Finished parameters.
    pub params: Seq<Seq<u16>>,
    /// Subparameters of the parameter being collected.
    pub pending: Seq<u16>,
    /// The subparameter being collected.
    pub subparam: u16,
    pub intermediates: Seq<u8>,
    pub ignoring: bool,
    /// The OSC string collected so far.
    pub osc_raw: Seq<u8>,
    /// The sixteen OSC parameter ranges, stale ones included.
    pub osc_bounds: Seq<(usize, usize)>,
    /// The number of recorded OSC parameters.
    pub osc_num: nat,
}

/// `x * 10` saturated at the largest `u16`.
pub open spec fn sat_mul10(x: u16) -> u16 {
    if x * 10 > u16::MAX {
        u16::MAX
    } else {
        (x * 10) as u16
    }
}

/// `x + d` saturated at the largest `u16`.
pub open spec fn sat_add(x: u16, d: u16) -> u16 {
    if x + d > u16::MAX {
        u16::MAX
    } else {
        (x + d) as u16
    }
}

/// Appends the collected subparameter to the pending parameter.
pub open spec fn spec_push_subparam(v: ParserView) -> ParserView {
    ParserView {
        pending: if v.pending.len() < MAX_SUBPARAMS {
            v.pending.push(v.subparam)
        } else {
            v.pending
        },
        ..v
    }
}

/// Finishes the pending parameter (nothing changes when the list is full).
pub open spec fn spec_next_param(v: ParserView) -> ParserView {
    if v.params.len() < MAX_PARAMS {
        ParserView { params: v.params.push(v.pending), pending: Seq::empty(), ..v }
    } else {
        v
    }
}

/// The OSC ranges after the current parameter ends at the end of the string.
pub open spec fn spec_osc_close(v: ParserView) -> ParserView {
    if v.osc_num < MAX_OSC_PARAMS {
        let idx = v.osc_raw.len() as usize;
        ParserView {
            osc_bounds: if v.osc_num == 0 {
                v.osc_bounds.update(0, (0usize, idx))
            } else {
                v.osc_bounds.update(v.osc_num as int, (v.osc_bounds[v.osc_num - 1].1, idx))
            },
            osc_num: v.osc_num + 1,
            ..v
        }
    } else {
        v
    }
}

/// Dispatching an OSC string reads all sixteen ranges, stale ones included.
pub open spec fn spec_osc_ranges_in_bounds(v: ParserView) -> bool {
    forall|i: int| 0 <= i < MAX_OSC_PARAMS ==> (#[trigger] v.osc_bounds[i]).1 <= v.osc_raw.len()
}

pub open spec fn spec_finish_param(v: ParserView) -> ParserView {
    if v.params.len() == MAX_PARAMS {
        ParserView { ignoring: true, ..v }
    } else {
        spec_next_param(spec_push_subparam(v))
    }
}

/// The effect of one action on the parser, and what it dispatches.
pub open spec fn spec_execute_action(v: ParserView, action: Action, byte: u8) -> (
    ParserView,
    Seq<DispatchV>,
) {
    match action {
        Action::Print => (v, seq![DispatchV::Print(byte as char)]),
        Action::Put => (v, seq![DispatchV::Put(byte)]),
        Action::Execute => (v, seq![DispatchV::Execute(byte)]),
        Action::OscStart => (ParserView { osc_raw: Seq::empty(), osc_num: 0, ..v }, seq![]),
        Action::OscPut => {
            if byte != osc::PARAM_SEPARATOR {
                (ParserView { osc_raw: v.osc_raw.push(byte), ..v }, seq![])
            } else {
                (spec_osc_close(v), seq![])
            }
        },
        Action::OscEnd => {
            let w = spec_osc_close(v);
            (
                w,
                seq![
                    DispatchV::Osc {
                        params: osc::spec_osc_params(w.osc_raw, w.osc_bounds, w.osc_num),
                        bell_terminated: byte == 0x07,
                    },
                ],
            )
        },
        Action::Hook => {
            let w = spec_finish_param(v);
            (
                w,
                seq![
                    DispatchV::Hook {
                        params: w.params,
                        intermediates: w.intermediates,
                        ignore: w.ignoring,
                        action: byte as char,
                    },
                ],
            )
        },
        Action::Unhook => (v, seq![DispatchV::Unhook]),
        Action::Param => {
            if v.params.len() == MAX_PARAMS {
                (ParserView { ignoring: true, ..v }, seq![])
            } else if byte == PARAM_SEPARATOR {
                (ParserView { subparam: 0, ..spec_next_param(spec_push_subparam(v)) }, seq![])
            } else if byte == SUBPARAM_SEPARATOR {
                (ParserView { subparam: 0, ..spec_push_subparam(v) }, seq![])
            } else {
                (
                    ParserView {
                        subparam: sat_add(sat_mul10(v.subparam), (byte - 0x30) as u16),
                        ..v
                    },
                    seq![],
                )
            }
        },
        Action::CsiDispatch => {
            let w = spec_finish_param(v);
            (
                w,
                seq![
                    DispatchV::Csi {
                        params: w.params,
                        intermediates: w.intermediates,
                        ignore: w.ignoring,
                        action: byte as char,
                    },
                ],
            )
        },
        Action::Collect => {
            if v.intermediates.len() == intermediate::MAX_INTERMEDIATES {
                (ParserView { ignoring: true, ..v }, seq![])
            } else {
                (ParserView { intermediates: v.intermediates.push(byte), ..v }, seq![])
            }
        },
        Action::EscDispatch => (
            v,
            seq![DispatchV::Esc { intermediates: v.intermediates, ignore: v.ignoring, byte }],
        ),
        Action::Clear => (
            ParserView {
                subparam: 0,
                params: Seq::empty(),
                pending: Seq::empty(),
                ignoring: false,
                intermediates: Seq::empty(),
                ..v
            },
            seq![],
        ),
        Action::Ignore => (v, seq![]),
    }
}

/// The action performed when entering `v.state`.
pub open spec fn spec_entry(v: ParserView, byte: u8) -> (ParserView, Seq<DispatchV>) {
    match v.state {
        State::CsiEntry | State::DcsEntry | State::Escape => spec_execute_action(
            v,
            Action::Clear,
            byte,
        ),
        State::OscString => spec_execute_action(v, Action::OscStart, byte),
        State::DcsPassthrough => spec_execute_action(v, Action::Hook, byte),
        _ => (v, seq![]),
    }
}

/// The action performed when leaving `v.state`.
pub open spec fn spec_exit(v: ParserView, byte: u8) -> (ParserView, Seq<DispatchV>) {
    match v.state {
        State::DcsPassthrough => spec_execute_action(v, Action::Unhook, byte),
        State::OscString => spec_execute_action(v, Action::OscEnd, byte),
        _ => (v, seq![]),
    }
}

/// Moving to `state` with `action`: `Anywhere` with an action performs only
/// the action; otherwise the old state's exit action, the transition action
/// and the new state's entry action run in turn.
pub open spec fn spec_state_change(v: ParserView, state: State, action: Option<Action>, byte: u8) -> (
    ParserView,
    Seq<DispatchV>,
) {
    if state == State::Anywhere && action is Some {
        spec_execute_action(v, action->0, byte)
    } else {
        let (v1, d1) = spec_exit(v, byte);
        let (v2, d2) = match action {
            Some(a) => spec_execute_action(v1, a, byte),
            None => (v1, seq![]),
        };
        let (v3, d3) = spec_entry(ParserView { state, ..v2 }, byte);
        (v3, d1 + d2 + d3)
    }
}

/// Whether the parser can take `byte`: the table has a transition for it,
/// and an OSC string that it ends has all sixteen ranges inside the string.
pub open spec fn spec_step_defined(v: ParserView, byte: u8) -> bool {
    match spec_transition(v.state, byte) {
        Some((s, a)) => (v.state == State::OscString && !(s == State::Anywhere && a is Some))
            ==> spec_osc_ranges_in_bounds(spec_osc_close(v)),
        None => false,
    }
}

/// One byte's effect on the parser and what it dispatches.
pub open spec fn spec_step(v: ParserView, byte: u8) -> (ParserView, Seq<DispatchV>) {
    match spec_transition(v.state, byte) {
        Some((s, a)) => spec_state_change(v, s, a, byte),
        None => (v, seq![]),
    }
}

/// A dispatched hook or control sequence has no empty parameter.
pub open spec fn dispatch_params_nonempty(d: DispatchV) -> bool {
    match d {
        DispatchV::Hook { params, .. } => params_nonempty(params),
        DispatchV::Csi { params, .. } => params_nonempty(params),
        _ => true,
    }
}

pub open spec fn all_dispatch_params_nonempty(ds: Seq<DispatchV>) -> bool {
    forall|i: int| 0 <= i < ds.len() ==> dispatch_params_nonempty(#[trigger] ds[i])
}

pub proof fn lemma_concat_params_nonempty(a: Seq<DispatchV>, b: Seq<DispatchV>)
    requires
        all_dispatch_params_nonempty(a),
        all_dispatch_params_nonempty(b),
    ensures
        all_dispatch_params_nonempty(a + b),
{
    assert forall|i: int| 0 <= i < (a + b).len() implies dispatch_params_nonempty(#[trigger] (a
        + b)[i]) by {
        if i < a.len() {
            assert((a + b)[i] == a[i]);
        } else {
            assert((a + b)[i] == b[i - a.len()]);
        }
    }
}

/// Every finished parameter holds at least one value: one is pushed before
/// a parameter is finished, or the parameter is already full.
pub proof fn lemma_action_params_nonempty(v: ParserView, action: Action, byte: u8)
    requires
        params_nonempty(v.params),
    ensures
        params_nonempty(spec_execute_action(v, action, byte).0.params),
        all_dispatch_params_nonempty(spec_execute_action(v, action, byte).1),
{
    let w = spec_finish_param(v);
    let pushed = spec_push_subparam(v);
    assert(pushed.pending.len() > 0);
    assert(params_nonempty(spec_next_param(pushed).params)) by {
        let q = spec_next_param(pushed);
        assert forall|i: int| 0 <= i < q.params.len() implies (#[trigger] q.params[i]).len() > 0 by {
            if i < v.params.len() {
                assert(q.params[i] == v.params[i]);
            }
        }
    }
    assert(params_nonempty(w.params));
    let r = spec_execute_action(v, action, byte);
    if action == Action::Param {
        if v.params.len() != MAX_PARAMS && byte == PARAM_SEPARATOR {
            assert(r.0.params == spec_next_param(pushed).params);
        }
    }
    if action == Action::Clear {
        assert(r.0.params =~= Seq::<Seq<u16>>::empty());
    }
    assert(all_dispatch_params_nonempty(r.1)) by {
        assert forall|i: int| 0 <= i < r.1.len() implies dispatch_params_nonempty(#[trigger] r.1[i]) by {
            if action == Action::Hook || action == Action::CsiDispatch {
                assert(r.1[i] == r.1[0]);
            }
        }
    }
}

pub proof fn lemma_step_params_nonempty(v: ParserView, byte: u8)
    requires
        params_nonempty(v.params),
    ensures
        params_nonempty(spec_step(v, byte).0.params),
        all_dispatch_params_nonempty(spec_step(v, byte).1),
{
    match spec_transition(v.state, byte) {
        Some((state, action)) => {
            if state == State::Anywhere && action is Some {
                lemma_action_params_nonempty(v, action->0, byte);
            } else {
                let (v1, d1) = spec_exit(v, byte);
                if v.state == State::DcsPassthrough {
                    lemma_action_params_nonempty(v, Action::Unhook, byte);
                } else if v.state == State::OscString {
                    lemma_action_params_nonempty(v, Action::OscEnd, byte);
                } else {
                    assert(all_dispatch_params_nonempty(d1));
                }
                let (v2, d2) = match action {
                    Some(a) => spec_execute_action(v1, a, byte),
                    None => (v1, seq![]),
                };
                match action {
                    Some(a) => lemma_action_params_nonempty(v1, a, byte),
                    None => assert(all_dispatch_params_nonempty(d2)),
                }
                let v2s = ParserView { state, ..v2 };
                let (v3, d3) = spec_entry(v2s, byte);
                if state == State::CsiEntry || state == State::DcsEntry || state == State::Escape {
                    lemma_action_params_nonempty(v2s, Action::Clear, byte);
                } else if state == State::OscString {
                    lemma_action_params_nonempty(v2s, Action::OscStart, byte);
                } else if state == State::DcsPassthrough {
                    lemma_action_params_nonempty(v2s, Action::Hook, byte);
                } else {
                    assert(all_dispatch_params_nonempty(d3));
                }
                lemma_concat_params_nonempty(d1, d2);
                lemma_concat_params_nonempty(d1 + d2, d3);
            }
        },
        None => {
            assert(all_dispatch_params_nonempty(seq![]));
        },
    }
}

/// `d` with the given parameters where it is a hook or a control sequence.
pub open spec fn with_params(d: DispatchV, params: Seq<Seq<u16>>) -> DispatchV {
    match d {
        DispatchV::Hook { intermediates, ignore, action, .. } => DispatchV::Hook {
            params,
            intermediates,
            ignore,
            action,
        },
        DispatchV::Csi { intermediates, ignore, action, .. } => DispatchV::Csi {
            params,
            intermediates,
            ignore,
            action,
        },
        _ => d,
    }
}

/// What an executor receives when `ds` is replayed while the parser holds
/// `params`.
pub open spec fn replayed(ds: Seq<DispatchV>, params: Seq<Seq<u16>>) -> Seq<DispatchV> {
    ds.map_values(|d: DispatchV| with_params(d, params))
}

/// Every hook and control sequence in `ds` carries `params`.
pub open spec fn uses_params(ds: Seq<DispatchV>, params: Seq<Seq<u16>>) -> bool {
    forall|i: int| 0 <= i < ds.len() ==> with_params(#[trigger] ds[i], params) == ds[i]
}

pub proof fn lemma_replayed_unchanged(ds: Seq<DispatchV>, params: Seq<Seq<u16>>)
    requires
        uses_params(ds, params),
    ensures
        replayed(ds, params) == ds,
{
    assert(replayed(ds, params) =~= ds);
}

proof fn lemma_action_uses_params(v: ParserView, action: Action, byte: u8)
    ensures
        uses_params(spec_execute_action(v, action, byte).1, spec_execute_action(v, action, byte).0.params),
        action != Action::Hook && action != Action::CsiDispatch ==> uses_params(
            spec_execute_action(v, action, byte).1,
            Seq::empty(),
        ) && forall|p: Seq<Seq<u16>>| uses_params(spec_execute_action(v, action, byte).1, p),
{
    let d = spec_execute_action(v, action, byte).1;
    assert forall|p: Seq<Seq<u16>>|
        action != Action::Hook && action != Action::CsiDispatch implies uses_params(d, p) by {
        assert forall|i: int| 0 <= i < d.len() implies with_params(#[trigger] d[i], p) == d[i] by {}
    }
}

proof fn lemma_uses_params_concat(a: Seq<DispatchV>, b: Seq<DispatchV>, p: Seq<Seq<u16>>)
    requires
        uses_params(a, p),
        uses_params(b, p),
    ensures
        uses_params(a + b, p),
{
    assert forall|i: int| 0 <= i < (a + b).len() implies with_params(#[trigger] (a + b)[i], p) == (a
        + b)[i] by {
        if i < a.len() {
            assert((a + b)[i] == a[i]);
        } else {
            assert((a + b)[i] == b[i - a.len()]);
        }
    }
}

/// Each hook or control sequence that a byte dispatches carries the
/// parameters that the parser holds after the byte.
pub proof fn lemma_step_uses_params(v: ParserView, byte: u8)
    ensures
        uses_params(spec_step(v, byte).1, spec_step(v, byte).0.params),
{
    crate::saiga_vte::table::lemma_transition_shape(v.state, byte);
    match spec_transition(v.state, byte) {
        Some((state, action)) => {
            if state == State::Anywhere && action is Some {
                lemma_action_uses_params(v, action->0, byte);
            } else {
                let (v1, d1) = spec_exit(v, byte);
                let (v2, d2) = match action {
                    Some(a) => spec_execute_action(v1, a, byte),
                    None => (v1, seq![]),
                };
                let v2s = ParserView { state, ..v2 };
                let (v3, d3) = spec_entry(v2s, byte);
                let p = v3.params;
                if v.state == State::DcsPassthrough {
                    lemma_action_uses_params(v, Action::Unhook, byte);
                } else if v.state == State::OscString {
                    lemma_action_uses_params(v, Action::OscEnd, byte);
                }
                assert(uses_params(d1, p));
                if state == State::CsiEntry || state == State::DcsEntry || state == State::Escape {
                    lemma_action_uses_params(v2s, Action::Clear, byte);
                } else if state == State::OscString {
                    lemma_action_uses_params(v2s, Action::OscStart, byte);
                } else if state == State::DcsPassthrough {
                    lemma_action_uses_params(v2s, Action::Hook, byte);
                }
                assert(uses_params(d3, p));
                match action {
                    Some(a) => {
                        lemma_action_uses_params(v1, a, byte);
                    },
                    None => {},
                }
                assert(uses_params(d2, p));
                lemma_uses_params_concat(d1, d2, p);
                lemma_uses_params_concat(d1 + d2, d3, p);
            }
        },
        None => {},
    }
}

/// A parser for the DEC ANSI state machine.
pub struct Parser {
    state: State,
    osc_handler: osc::Handler,
    params: Params,
    subparam: u16,
    intermediate_handler: intermediate::Handler,
    ignoring: bool,
}

impl View for Parser {
    type V = ParserView;

    closed spec fn view(&self) -> ParserView {
        ParserView {
            state: self.state,
            params: self.params@,
            pending: self.params.pending(),
            subparam: self.subparam,
            intermediates: self.intermediate_handler@,
            ignoring: self.ignoring,
            osc_raw: self.osc_handler.raw(),
            osc_bounds: self.osc_handler.bounds(),
            osc_num: self.osc_handler.num(),
        }
    }
}

impl Parser {
    /// Well-formed: the OSC ranges are consistent.
    pub closed spec fn wf(self) -> bool {
        &&& self.osc_handler.wf()
        &&& self.state != State::Anywhere
    }

    pub fn new() -> (r: Parser)
        ensures
            r.wf(),
            r@.state == State::Ground,
            r@.params == Seq::<Seq<u16>>::empty(),
            r@.pending == Seq::<u16>::empty(),
            r@.subparam == 0,
            r@.intermediates == Seq::<u8>::empty(),
            !r@.ignoring,
            r@.osc_raw == Seq::<u8>::empty(),
            r@.osc_num == 0,
            forall|i: int| 0 <= i < MAX_OSC_PARAMS ==> (#[trigger] r@.osc_bounds[i]) == (0usize, 0usize),
    {
        Parser {
            state: State::Ground,
            osc_handler: osc::Handler::new(),
            params: Params::new(),
            subparam: 0,
            intermediate_handler: intermediate::Handler::new(),
            ignoring: false,
        }
    }

    /// Whether the parser is inside an escape sequence (not in the ground state).
    pub fn in_escape_sequence(&self) -> (r: bool)
        ensures
            r == (self@.state != State::Ground),
    {
        self.state != State::Ground
    }

    /// Whether the parser can take `byte` (see [`spec_step_defined`]).
    pub fn can_step(&self, byte: u8) -> (r: bool)
        requires
            self.wf(),
        ensures
            r == spec_step_defined(self@, byte),
    {
        let change = match change_state(State::Anywhere, byte) {
            Some(t) => Some(t),
            None => change_state(self.state, byte),
        };
        match change {
            Some((state, action)) => {
                if self.state == State::OscString && !(state == State::Anywhere && action.is_some()) {
                    let fits = self.osc_handler.close_fits();
                    proof {
                        self.osc_handler.lemma_wf();
                        let v = self@;
                        let w = spec_osc_close(v);
                        let cb = self.osc_handler.close_bounds();
                        assert(w.osc_bounds == cb);
                        assert(w.osc_raw == self.osc_handler.raw());
                        if fits {
                            assert forall|i: int| 0 <= i < MAX_OSC_PARAMS implies (#[trigger] w.osc_bounds[i]).1 <= w.osc_raw.len() by {
                                assert(cb[i].1 <= self.osc_handler.raw().len());
                            }
                        } else {
                            let j = choose|j: int| 0 <= j < MAX_OSC_PARAMS && !(#[trigger] cb[j].1 <= self.osc_handler.raw().len());
                            assert(!(w.osc_bounds[j].1 <= w.osc_raw.len()));
                        }
                    }
                    fits
                } else {
                    true
                }
            },
            None => false,
        }
    }

    fn finish_param(&mut self)
        ensures
            final(self)@ == spec_finish_param(old(self)@),
            final(self).osc_handler == old(self).osc_handler,
            final(self).state == old(self).state,
    {
        if self.params.is_full() {
            self.ignoring = true;
        } else {
            self.params.push_subparam(self.subparam);
            self.params.next_param();
        }
    }

    fn execute_action(&mut self, action: Action, byte: u8, out: &mut Vec<Dispatch>)
        requires
            old(self).wf(),
            action == Action::Param ==> 0x30 <= byte <= 0x3B,
            action == Action::OscEnd ==> spec_osc_ranges_in_bounds(spec_osc_close(old(self)@)),
        ensures
            final(self).wf(),
            final(self)@ == spec_execute_action(old(self)@, action, byte).0,
            dispatches_view(final(out)@) == dispatches_view(old(out)@) + spec_execute_action(
                old(self)@,
                action,
                byte,
            ).1,
    {
        let ghost v = self@;
        let ghost before = old(out)@;
        proof {
            self.osc_handler.lemma_wf();
        }
        match action {
            Action::Print => {
                out.push(Dispatch::Print(byte as char));
                assert(dispatches_view(out@) =~= dispatches_view(before) + seq![DispatchV::Print(byte as char)]);
            },
            Action::Put => {
                out.push(Dispatch::Put(byte));
                assert(dispatches_view(out@) =~= dispatches_view(before) + seq![DispatchV::Put(byte)]);
            },
            Action::Execute => {
                out.push(Dispatch::Execute(byte));
                assert(dispatches_view(out@) =~= dispatches_view(before) + seq![DispatchV::Execute(byte)]);
            },
            Action::OscStart => {
                self.osc_handler.start();
                assert(dispatches_view(out@) =~= dispatches_view(before) + seq![]);
            },
            Action::OscPut => {
                self.osc_handler.put(byte);
                assert(dispatches_view(out@) =~= dispatches_view(before) + seq![]);
            },
            Action::OscEnd => {
                self.osc_handler.finish();
                let params = self.osc_handler.params_vec();
                let ghost d = DispatchV::Osc {
                    params: osc::spec_osc_params(
                        self.osc_handler.raw(),
                        self.osc_handler.bounds(),
                        self.osc_handler.num(),
                    ),
                    bell_terminated: byte == 0x07,
                };
                let disp = Dispatch::Osc { params, bell_terminated: byte == 0x07 };
                assert(disp@ == d) by {
                    assert(seqs_u8(params@) =~= osc::spec_osc_params(
                        self.osc_handler.raw(),
                        self.osc_handler.bounds(),
                        self.osc_handler.num(),
                    ));
                }
                out.push(disp);
                assert(dispatches_view(out@) =~= dispatches_view(before) + seq![d]);
            },
            Action::Hook => {
                self.finish_param();
                let params = self.params.to_vecs();
                let intermediates = vstd::slice::slice_to_vec(self.intermediate_handler.as_slice());
                let ghost d = DispatchV::Hook {
                    params: self@.params,
                    intermediates: self@.intermediates,
                    ignore: self.ignoring,
                    action: byte as char,
                };
                let disp = Dispatch::Hook {
                    params,
                    intermediates,
                    ignore: self.ignoring,
                    action: byte as char,
                };
                assert(disp@ == d) by {
                    assert(seqs_u16(params@) =~= self.params@);
                }
                out.push(disp);
                assert(dispatches_view(out@) =~= dispatches_view(before) + seq![d]);
            },
            Action::Unhook => {
                out.push(Dispatch::Unhook);
                assert(dispatches_view(out@) =~= dispatches_view(before) + seq![DispatchV::Unhook]);
            },
            Action::Param => {
                if self.params.is_full() {
                    self.ignoring = true;
                } else if byte == PARAM_SEPARATOR {
                    self.params.push_subparam(self.subparam);
                    self.params.next_param();
                    self.subparam = 0;
                } else if byte == SUBPARAM_SEPARATOR {
                    self.params.push_subparam(self.subparam);
                    self.subparam = 0;
                } else {
                    let tens: u16 = if self.subparam > 6553 {
                        u16::MAX
                    } else {
                        self.subparam * 10
                    };
                    self.subparam = tens.saturating_add((byte - 0x30) as u16);
                }
                assert(dispatches_view(out@) =~= dispatches_view(before) + seq![]);
            },
            Action::CsiDispatch => {
                self.finish_param();
                let params = self.params.to_vecs();
                let intermediates = vstd::slice::slice_to_vec(self.intermediate_handler.as_slice());
                let ghost d = DispatchV::Csi {
                    params: self@.params,
                    intermediates: self@.intermediates,
                    ignore: self.ignoring,
                    action: byte as char,
                };
                let disp = Dispatch::Csi {
                    params,
                    intermediates,
                    ignore: self.ignoring,
                    action: byte as char,
                };
                assert(disp@ == d) by {
                    assert(seqs_u16(params@) =~= self.params@);
                }
                out.push(disp);
                assert(dispatches_view(out@) =~= dispatches_view(before) + seq![d]);
            },
            Action::Collect => {
                if self.intermediate_handler.is_full() {
                    self.ignoring = true;
                } else {
                    self.intermediate_handler.push(byte);
                }
                assert(dispatches_view(out@) =~= dispatches_view(before) + seq![]);
            },
            Action::EscDispatch => {
                let intermediates = vstd::slice::slice_to_vec(self.intermediate_handler.as_slice());
                let ghost d = DispatchV::Esc {
                    intermediates: self@.intermediates,
                    ignore: self.ignoring,
                    byte,
                };
                out.push(Dispatch::Esc { intermediates, ignore: self.ignoring, byte });
                assert(dispatches_view(out@) =~= dispatches_view(before) + seq![d]);
            },
            Action::Clear => {
                self.subparam = 0;
                self.params.clear();
                self.ignoring = false;
                self.intermediate_handler.clear();
                assert(dispatches_view(out@) =~= dispatches_view(before) + seq![]);
            },
            Action::Ignore => {
                assert(dispatches_view(out@) =~= dispatches_view(before) + seq![]);
            },
        }
    }

    fn execute_state_entry_action(&mut self, byte: u8, out: &mut Vec<Dispatch>)
        requires
            old(self).wf(),
        ensures
            final(self).wf(),
            final(self)@ == spec_entry(old(self)@, byte).0,
            dispatches_view(final(out)@) == dispatches_view(old(out)@) + spec_entry(old(self)@, byte).1,
    {
        match self.state {
            State::CsiEntry | State::DcsEntry | State::Escape => {
                self.execute_action(Action::Clear, byte, out);
            },
            State::OscString => {
                self.execute_action(Action::OscStart, byte, out);
            },
            State::DcsPassthrough => {
                self.execute_action(Action::Hook, byte, out);
            },
            _ => {
                assert(dispatches_view(out@) =~= dispatches_view(old(out)@) + seq![]);
            },
        }
    }

    fn execute_state_exit_action(&mut self, byte: u8, out: &mut Vec<Dispatch>)
        requires
            old(self).wf(),
            old(self)@.state == State::OscString ==> spec_osc_ranges_in_bounds(spec_osc_close(old(self)@)),
        ensures
            final(self).wf(),
            final(self)@ == spec_exit(old(self)@, byte).0,
            dispatches_view(final(out)@) == dispatches_view(old(out)@) + spec_exit(old(self)@, byte).1,
    {
        match self.state {
            State::DcsPassthrough => {
                self.execute_action(Action::Unhook, byte, out);
            },
            State::OscString => {
                self.execute_action(Action::OscEnd, byte, out);
            },
            _ => {
                assert(dispatches_view(out@) =~= dispatches_view(old(out)@) + seq![]);
            },
        }
    }

    fn state_change(&mut self, state: State, action: Option<Action>, byte: u8, out: &mut Vec<Dispatch>)
        requires
            old(self).wf(),
            action == Some(Action::Param) ==> 0x30 <= byte <= 0x3B,
            action != Some(Action::OscEnd),
            state == State::Anywhere ==> action is Some,
            (old(self)@.state == State::OscString && !(state == State::Anywhere && action is Some))
                ==> spec_osc_ranges_in_bounds(spec_osc_close(old(self)@)),
        ensures
            final(self).wf(),
            final(self)@ == spec_state_change(old(self)@, state, action, byte).0,
            dispatches_view(final(out)@) == dispatches_view(old(out)@) + spec_state_change(
                old(self)@,
                state,
                action,
                byte,
            ).1,
    {
        if state == State::Anywhere && action.is_some() {
            match action {
                Some(a) => self.execute_action(a, byte, out),
                None => {},
            }
            return;
        }
        let ghost v0 = self@;
        let ghost d0 = dispatches_view(out@);
        self.execute_state_exit_action(byte, out);
        let ghost v1 = self@;
        let ghost d1 = dispatches_view(out@);
        let ghost x1 = spec_exit(v0, byte).1;
        assert(d1 == d0 + x1);
        match action {
            Some(a) => self.execute_action(a, byte, out),
            None => {
                assert(dispatches_view(out@) =~= d1 + seq![]);
            },
        }
        let ghost d2 = dispatches_view(out@);
        let ghost x2 = match action {
            Some(a) => spec_execute_action(v1, a, byte).1,
            None => Seq::<DispatchV>::empty(),
        };
        assert(d2 == d1 + x2);
        self.state = state;
        let ghost v2 = self@;
        self.execute_state_entry_action(byte, out);
        let ghost x3 = spec_entry(v2, byte).1;
        assert(dispatches_view(out@) == d2 + x3);
        assert(dispatches_view(out@) =~= d0 + (x1 + x2 + x3));
    }

    /// Feeds one byte to the parser and returns what it dispatches.
    pub fn step(&mut self, byte: u8) -> (r: Vec<Dispatch>)
        requires
            old(self).wf(),
            spec_step_defined(old(self)@, byte),
        ensures
            final(self).wf(),
            final(self)@ == spec_step(old(self)@, byte).0,
            dispatches_view(r@) == spec_step(old(self)@, byte).1,
    {
        let mut out: Vec<Dispatch> = Vec::new();
        let change = match change_state(State::Anywhere, byte) {
            Some(t) => Some(t),
            None => change_state(self.state, byte),
        };
        proof {
            crate::saiga_vte::table::lemma_transition_shape(self.state, byte);
        }
        match change {
            Some((state, action)) => {
                self.state_change(state, action, byte, &mut out);
                assert(dispatches_view(out@) =~= dispatches_view(Seq::<Dispatch>::empty())
                    + spec_step(old(self)@, byte).1);
            },
            None => {},
        }
        out
    }

    /// Feeds one byte to the parser and hands what it dispatches to `executor`.
    pub fn advance<E: Executor>(&mut self, executor: &mut E, byte: u8)
        requires
            old(self).wf(),
            spec_step_defined(old(self)@, byte),
        ensures
            final(self).wf(),
            final(self)@ == spec_step(old(self)@, byte).0,
            final(executor).dispatched() == old(executor).dispatched() + spec_step(old(self)@, byte).1,
    {
        let dispatched = self.step(byte);
        proof {
            lemma_step_uses_params(old(self)@, byte);
            lemma_replayed_unchanged(dispatches_view(dispatched@), self@.params);
        }
        self.replay(executor, &dispatched);
    }

    /// Hands `dispatched`, in order, to `executor`; hooks and control
    /// sequences see the parser's current parameters.
    pub fn replay<E: Executor>(&self, executor: &mut E, dispatched: &Vec<Dispatch>)
        ensures
            final(executor).dispatched() == old(executor).dispatched() + replayed(
                dispatches_view(dispatched@),
                self@.params,
            ),
    {
        let ghost d0 = executor.dispatched();
        let ghost ds = dispatches_view(dispatched@);
        let mut i: usize = 0;
        assert(replayed(ds.take(0), self@.params) =~= Seq::<DispatchV>::empty());
        while i < dispatched.len()
            invariant
                i <= dispatched@.len(),
                ds == dispatches_view(dispatched@),
                executor.dispatched() == d0 + replayed(ds.take(i as int), self@.params),
            decreases dispatched.len() - i,
        {
            let ghost before = executor.dispatched();
            match &dispatched[i] {
                Dispatch::Print(c) => executor.print(*c),
                Dispatch::Execute(b) => executor.execute(*b),
                Dispatch::Put(b) => executor.put(*b),
                Dispatch::Hook { intermediates, ignore, action, .. } => {
                    executor.hook(&self.params, intermediates.as_slice(), *ignore, *action)
                },
                Dispatch::Unhook => executor.unhook(),
                Dispatch::Osc { params, bell_terminated } => {
                    let mut refs: Vec<&[u8]> = Vec::new();
                    let mut k: usize = 0;
                    while k < params.len()
                        invariant
                            k <= params@.len(),
                            refs@.len() == k,
                            forall|j: int| 0 <= j < k ==> (#[trigger] refs@[j])@ == params@[j]@,
                        decreases params.len() - k,
                    {
                        refs.push(params[k].as_slice());
                        k = k + 1;
                    }
                    assert(osc_strings(refs@) =~= seqs_u8(params@));
                    executor.osc_dispatch(refs.as_slice(), *bell_terminated);
                },
                Dispatch::Esc { intermediates, ignore, byte } => {
                    executor.esc_dispatch(intermediates.as_slice(), *ignore, *byte)
                },
                Dispatch::Csi { intermediates, ignore, action, .. } => {
                    executor.csi_dispatch(&self.params, intermediates.as_slice(), *ignore, *action)
                },
            }
            proof {
                assert(ds[i as int] == dispatched@[i as int]@);
                assert(executor.dispatched() == before.push(with_params(ds[i as int], self@.params)));
                assert(replayed(ds.take(i + 1), self@.params) =~= replayed(ds.take(i as int), self@.params).push(
                    with_params(ds[i as int], self@.params),
                ));
            }
            i = i + 1;
        }
        assert(ds.take(i as int) =~= ds);
    }
}

} // verus!
