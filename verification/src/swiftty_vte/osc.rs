use vstd::prelude::*;

use super::executor::{osc_strings, Executor};
use super::parser::DispatchV;

verus! {

/// There is no limit to the number of characters in a parameter string,
/// although a maximum of 16 parameters need be stored.
pub const MAX_OSC_PARAMS: usize = 16;

pub const PARAM_SEPARATOR: u8 = 0x3B;

/// Collects the string of an operating system command and where its
/// `;`-separated parameters start and end in it.
pub struct Handler {
    params: [(usize, usize); 16],
    params_num: usize,
    raw: Vec<u8>,
}

/// The parameters of an OSC string: slots `0..num` of `bounds`, each a range
/// of `raw`.
pub open spec fn spec_osc_params(raw: Seq<u8>, bounds: Seq<(usize, usize)>, num: nat) -> Seq<
    Seq<u8>,
> {
    Seq::new(num, |i: int| raw.subrange(bounds[i].0 as int, bounds[i].1 as int))
}

impl Handler {
    /// The recorded ranges are in order, within the string and contiguous.
    pub closed spec fn wf(self) -> bool {
        &&& self.params_num <= MAX_OSC_PARAMS
        &&& forall|i: int| 0 <= i < MAX_OSC_PARAMS ==> (#[trigger] self.params@[i]).0 <= self.params@[i].1
        &&& forall|i: int| 0 <= i < self.params_num ==> (#[trigger] self.params@[i]).1 <= self.raw@.len()
        &&& self.params_num > 0 ==> self.params@[0].0 == 0
        &&& forall|i: int|
            0 < i < self.params_num ==> (#[trigger] self.params@[i]).0 == self.params@[i - 1].1
    }

    /// The bytes of the string, without the separators that were recorded.
    pub closed spec fn raw(self) -> Seq<u8> {
        self.raw@
    }

    /// All sixteen parameter ranges, including the stale ones past `num`.
    pub closed spec fn bounds(self) -> Seq<(usize, usize)> {
        self.params@
    }

    /// The number of recorded parameters.
    pub closed spec fn num(self) -> nat {
        self.params_num as nat
    }

    /// The recorded parameters.
    pub open spec fn params(self) -> Seq<Seq<u8>> {
        spec_osc_params(self.raw(), self.bounds(), self.num())
    }

    /// Every one of the sixteen ranges, stale ones included, lies inside the
    /// string; dispatching reads them all.
    pub open spec fn all_bounds_in_raw(self) -> bool {
        forall|i: int|
            0 <= i < MAX_OSC_PARAMS ==> (#[trigger] self.bounds()[i]).1 <= self.raw().len()
    }

    pub proof fn lemma_wf(&self)
        requires
            self.wf(),
        ensures
            self.num() <= MAX_OSC_PARAMS,
            self.bounds().len() == MAX_OSC_PARAMS,
    {
    }

    pub fn new() -> (r: Handler)
        ensures
            r.wf(),
            r.raw() == Seq::<u8>::empty(),
            r.num() == 0,
            forall|i: int| 0 <= i < MAX_OSC_PARAMS ==> (#[trigger] r.bounds()[i]) == (0usize, 0usize),
    {
        Handler { params: [(0usize, 0usize); 16], params_num: 0, raw: Vec::new() }
    }

    /// Starts a new string.
    pub fn start(&mut self)
        requires
            old(self).wf(),
        ensures
            final(self).wf(),
            final(self).raw() == Seq::<u8>::empty(),
            final(self).num() == 0,
            final(self).bounds() == old(self).bounds(),
    {
        self.raw.clear();
        self.params_num = 0;
    }

    /// The bounds after a parameter ends at the current end of the string:
    /// the new parameter runs from the end of the previous one (or 0).
    pub open spec fn spec_close_param(self) -> Seq<(usize, usize)> {
        let idx = self.raw().len() as usize;
        if self.num() == 0 {
            self.bounds().update(0, (0usize, idx))
        } else {
            self.bounds().update(self.num() as int, (self.bounds()[self.num() - 1].1, idx))
        }
    }

    /// The ranges once the current parameter is closed at the end of the
    /// string (nothing changes when sixteen are recorded).
    pub open spec fn close_bounds(self) -> Seq<(usize, usize)> {
        if self.num() < MAX_OSC_PARAMS {
            self.spec_close_param()
        } else {
            self.bounds()
        }
    }

    /// Whether every one of the sixteen ranges lies inside the string once the
    /// current parameter is closed at its end (as ending the string does).
    pub fn close_fits(&self) -> (r: bool)
        requires
            self.wf(),
        ensures
            r == (forall|i: int|
                0 <= i < MAX_OSC_PARAMS ==> (#[trigger] self.close_bounds()[i]).1 <= self.raw().len()),
    {
        let ghost after = self.close_bounds();
        let len = self.raw.len();
        let mut i: usize = 0;
        while i < MAX_OSC_PARAMS
            invariant
                i <= MAX_OSC_PARAMS,
                len == self.raw().len(),
                self.wf(),
                after == self.close_bounds(),
                forall|j: int| 0 <= j < i ==> (#[trigger] after[j]).1 <= len,
            decreases MAX_OSC_PARAMS - i,
        {
            if i != self.params_num && self.params[i].1 > len {
                assert(after[i as int] == self.bounds()[i as int]);
                return false;
            }
            i = i + 1;
        }
        true
    }

    /// Adds a byte of the string; a `;` ends the current parameter instead
    /// (and is dropped once sixteen parameters are recorded).
    pub fn put(&mut self, byte: u8)
        requires
            old(self).wf(),
        ensures
            final(self).wf(),
            byte != PARAM_SEPARATOR ==> final(self).raw() == old(self).raw().push(byte) && final(self).num() == old(self).num() && final(self).bounds() == old(self).bounds(),
            byte == PARAM_SEPARATOR && old(self).num() == MAX_OSC_PARAMS ==> final(self).raw() == old(self).raw() && final(self).num() == old(self).num() && final(self).bounds() == old(self).bounds(),
            byte == PARAM_SEPARATOR && old(self).num() < MAX_OSC_PARAMS ==> final(self).raw() == old(self).raw() && final(self).num() == old(self).num() + 1 && final(self).bounds() == old(self).spec_close_param(),
    {
        let idx = self.raw.len();
        if byte != PARAM_SEPARATOR {
            self.raw.push(byte);
            return;
        }
        self.close_param(idx);
    }

    fn close_param(&mut self, idx: usize)
        requires
            old(self).wf(),
            idx == old(self).raw().len(),
        ensures
            final(self).wf(),
            old(self).num() == MAX_OSC_PARAMS ==> final(self).raw() == old(self).raw() && final(self).num() == old(self).num() && final(self).bounds() == old(self).bounds(),
            old(self).num() < MAX_OSC_PARAMS ==> final(self).raw() == old(self).raw() && final(self).num() == old(self).num() + 1 && final(self).bounds() == old(self).spec_close_param(),
    {
        if self.params_num == MAX_OSC_PARAMS {
            return;
        }
        if self.params_num == 0 {
            self.params[0] = (0, idx);
        } else {
            let prev = self.params[self.params_num - 1];
            self.params[self.params_num] = (prev.1, idx);
        }
        self.params_num = self.params_num + 1;
    }

    /// Ends the current parameter at the end of the string (unless sixteen
    /// are recorded).
    pub fn finish(&mut self)
        requires
            old(self).wf(),
        ensures
            final(self).wf(),
            old(self).num() == MAX_OSC_PARAMS ==> final(self).raw() == old(self).raw() && final(self).num() == old(self).num() && final(self).bounds() == old(self).bounds(),
            old(self).num() < MAX_OSC_PARAMS ==> final(self).raw() == old(self).raw() && final(self).num() == old(self).num() + 1 && final(self).bounds() == old(self).spec_close_param(),
    {
        let idx = self.raw.len();
        self.close_param(idx);
    }

    /// The recorded parameters; every one of the sixteen ranges, stale ones
    /// included, is read, so all must lie inside the string.
    pub fn params_vec(&self) -> (r: Vec<Vec<u8>>)
        requires
            self.wf(),
            self.all_bounds_in_raw(),
        ensures
            r@.len() == self.num(),
            forall|i: int| 0 <= i < r@.len() ==> (#[trigger] r@[i])@ == self.params()[i],
    {
        let mut all: Vec<Vec<u8>> = Vec::new();
        let mut i: usize = 0;
        while i < MAX_OSC_PARAMS
            invariant
                i <= MAX_OSC_PARAMS,
                all@.len() == i,
                self.all_bounds_in_raw(),
                forall|j: int| 0 <= j < MAX_OSC_PARAMS ==> (#[trigger] self.params@[j]).0 <= self.params@[j].1,
                forall|j: int|
                    0 <= j < i ==> (#[trigger] all@[j])@ == self.raw@.subrange(
                        self.params@[j].0 as int,
                        self.params@[j].1 as int,
                    ),
            decreases MAX_OSC_PARAMS - i,
        {
            let (start, end) = self.params[i];
            assert(self.bounds()[i as int].1 <= self.raw().len());
            let slice = vstd::slice::slice_subrange(self.raw.as_slice(), start, end);
            all.push(vstd::slice::slice_to_vec(slice));
            i = i + 1;
        }
        let mut out: Vec<Vec<u8>> = Vec::new();
        let mut k: usize = 0;
        while k < self.params_num
            invariant
                k <= self.params_num,
                self.params_num <= MAX_OSC_PARAMS,
                all@.len() == MAX_OSC_PARAMS,
                out@.len() == k,
                forall|j: int|
                    0 <= j < MAX_OSC_PARAMS ==> (#[trigger] all@[j])@ == self.raw@.subrange(
                        self.params@[j].0 as int,
                        self.params@[j].1 as int,
                    ),
                forall|j: int| 0 <= j < k ==> (#[trigger] out@[j])@ == self.params()[j],
            decreases self.params_num - k,
        {
            out.push(vstd::slice::slice_to_vec(all[k].as_slice()));
            k = k + 1;
        }
        out
    }

    /// Ends the string and hands its parameters to the executor.
    pub fn end<E: Executor>(&mut self, executor: &mut E, byte: u8)
        requires
            old(self).wf(),
            old(self).num() < MAX_OSC_PARAMS ==> forall|i: int|
                0 <= i < MAX_OSC_PARAMS ==> (#[trigger] old(self).spec_close_param()[i]).1
                    <= old(self).raw().len(),
            old(self).num() == MAX_OSC_PARAMS ==> old(self).all_bounds_in_raw(),
        ensures
            final(self).wf(),
            final(self).raw() == old(self).raw(),
            old(self).num() == MAX_OSC_PARAMS ==> final(self).num() == old(self).num()
                && final(self).bounds() == old(self).bounds(),
            old(self).num() < MAX_OSC_PARAMS ==> final(self).num() == old(self).num() + 1
                && final(self).bounds() == old(self).spec_close_param(),
            final(executor).dispatched() == old(executor).dispatched().push(
                DispatchV::Osc { params: final(self).params(), bell_terminated: byte == 0x07 },
            ),
    {
        self.finish();
        self.dispatch(executor, byte);
    }

    /// Hands the parameters to the executor; a BEL byte marks the string as
    /// bell-terminated.
    pub fn dispatch<E: Executor>(&self, executor: &mut E, byte: u8)
        requires
            self.wf(),
            self.all_bounds_in_raw(),
        ensures
            final(executor).dispatched() == old(executor).dispatched().push(
                DispatchV::Osc { params: self.params(), bell_terminated: byte == 0x07 },
            ),
    {
        let params = self.params_vec();
        let mut refs: Vec<&[u8]> = Vec::new();
        let mut i: usize = 0;
        while i < params.len()
            invariant
                i <= params@.len(),
                refs@.len() == i,
                forall|j: int| 0 <= j < i ==> (#[trigger] refs@[j])@ == params@[j]@,
            decreases params.len() - i,
        {
            refs.push(params[i].as_slice());
            i = i + 1;
        }
        assert(osc_strings(refs@) =~= self.params());
        executor.osc_dispatch(refs.as_slice(), byte == 0x07);
    }
}

} // verus!
