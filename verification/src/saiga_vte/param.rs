use vstd::prelude::*;

verus! {

/// At most this many parameters are stored for one sequence.
pub const MAX_PARAMS: usize = 16;
/// At most this many subparameters are stored for one parameter.
pub const MAX_SUBPARAMS: usize = 32;
pub const PARAM_SEPARATOR: u8 = 0x3B;
pub const SUBPARAM_SEPARATOR: u8 = 0x3A;

/// One parameter of a control sequence: a bounded list of subparameters
/// (separated by `:` in the input).
#[derive(Clone, Copy, Debug)]
pub struct Param {
    array: [u16; 32],
    len: usize,
}

impl View for Param {
    type V = Seq<u16>;

    /// The subparameters stored so far.
    closed spec fn view(&self) -> Seq<u16> {
        self.array@.subrange(0, self.len as int)
    }
}

impl Param {
    #[verifier::type_invariant]
    closed spec fn inv(self) -> bool {
        self.len <= MAX_SUBPARAMS
    }

    /// The value stored in slot `i`, including slots past the end that keep
    /// what an earlier use left there.
    pub closed spec fn slot(self, i: int) -> u16 {
        self.array@[i]
    }

    /// A parameter with no subparameters, all slots zero.
    pub fn new() -> (r: Param)
        ensures
            r@ == Seq::<u16>::empty(),
            forall|i: int| 0 <= i < MAX_SUBPARAMS ==> r.slot(i) == 0,
    {
        let r = Param { array: [0u16; 32], len: 0 };
        assert(r@ =~= Seq::<u16>::empty());
        r
    }

    /// A parameter holding the single subparameter `subparam`.
    pub fn from_subparam(subparam: u16) -> (r: Param)
        ensures
            r@ == seq![subparam],
    {
        let mut p = Param::new();
        p.push(subparam);
        p
    }

    /// Forgets all subparameters.
    pub fn clear(&mut self)
        ensures
            final(self)@ == Seq::<u16>::empty(),
            forall|i: int| 0 <= i < MAX_SUBPARAMS ==> final(self).slot(i) == old(self).slot(i),
    {
        self.len = 0;
        assert(self@ =~= Seq::<u16>::empty());
    }

    pub fn len(&self) -> (r: usize)
        ensures
            r == self@.len(),
            r <= MAX_SUBPARAMS,
    {
        proof { use_type_invariant(self); }
        self.len
    }

    pub fn is_empty(&self) -> (r: bool)
        ensures
            r == (self@.len() == 0),
    {
        self.len() == 0
    }

    /// Appends `subparam` unless the parameter is full, in which case
    /// nothing changes.
    pub fn push(&mut self, subparam: u16)
        ensures
            old(self)@.len() < MAX_SUBPARAMS ==> final(self)@ == old(self)@.push(subparam),
            old(self)@.len() >= MAX_SUBPARAMS ==> final(self)@ == old(self)@,
            forall|i: int|
                0 <= i < MAX_SUBPARAMS && i != old(self)@.len() ==> final(self).slot(i) == old(
                    self,
                ).slot(i),
    {
        proof { use_type_invariant(&*self); }
        if self.is_full() {
            return;
        }
        let ghost before = self@;
        self.array[self.len] = subparam;
        self.len = self.len + 1;
        assert(self@ =~= before.push(subparam));
    }

    pub fn is_full(&self) -> (r: bool)
        ensures
            r == (self@.len() == MAX_SUBPARAMS),
            self@.len() <= MAX_SUBPARAMS,
    {
        proof { use_type_invariant(self); }
        self.len == MAX_SUBPARAMS
    }

    /// The stored subparameters.
    pub fn as_slice(&self) -> (r: &[u16])
        ensures
            r@ == self@,
    {
        proof { use_type_invariant(self); }
        &self.array.as_slice()[0..self.len]
    }

    /// The subparameter in slot `index` (which may lie past the stored ones).
    pub fn index(&self, index: usize) -> (r: u16)
        requires
            index < MAX_SUBPARAMS,
        ensures
            r == self.slot(index as int),
    {
        self.array[index]
    }
}

/// The parameters of a control sequence: the finished parameters, followed
/// by the one being collected.
#[derive(Debug)]
pub struct Params {
    array: [Param; 16],
    len: usize,
}

impl View for Params {
    type V = Seq<Seq<u16>>;

    /// The finished parameters.
    closed spec fn view(&self) -> Seq<Seq<u16>> {
        Seq::new(self.len as nat, |i: int| self.array@[i]@)
    }
}

impl Params {
    #[verifier::type_invariant]
    closed spec fn inv(self) -> bool {
        &&& self.len <= MAX_PARAMS
        &&& forall|i: int| self.len < i < MAX_PARAMS ==> (#[trigger] self.array@[i])@.len() == 0
    }

    /// The subparameters of the parameter being collected (empty when the
    /// parameter list is full).
    pub closed spec fn pending(self) -> Seq<u16> {
        if self.len < MAX_PARAMS {
            self.array@[self.len as int]@
        } else {
            Seq::empty()
        }
    }

    /// The parameter in slot `i`, including the pending one and the unused ones.
    pub closed spec fn slot(self, i: int) -> Param {
        self.array@[i]
    }

    /// No parameters and nothing pending.
    pub fn new() -> (r: Params)
        ensures
            r@ == Seq::<Seq<u16>>::empty(),
            r.pending() == Seq::<u16>::empty(),
    {
        let p = Param::new();
        let r = Params { array: [p; 16], len: 0 };
        assert(r@ =~= Seq::<Seq<u16>>::empty());
        r
    }

    /// Forgets all parameters, including the pending one.
    pub fn clear(&mut self)
        ensures
            final(self)@ == Seq::<Seq<u16>>::empty(),
            final(self).pending() == Seq::<u16>::empty(),
    {
        proof { use_type_invariant(&*self); }
        let mut i: usize = 0;
        while i < MAX_PARAMS
            invariant
                i <= MAX_PARAMS,
                self.len <= MAX_PARAMS,
                forall|j: int| 0 <= j < i ==> (#[trigger] self.array@[j])@.len() == 0,
                forall|j: int| self.len < j < MAX_PARAMS ==> (#[trigger] self.array@[j])@.len() == 0,
            decreases MAX_PARAMS - i,
        {
            let mut p = self.array[i];
            p.clear();
            self.array[i] = p;
            i = i + 1;
        }
        self.len = 0;
        assert(self@ =~= Seq::<Seq<u16>>::empty());
    }

    pub fn len(&self) -> (r: usize)
        ensures
            r == self@.len(),
            r <= MAX_PARAMS,
    {
        proof { use_type_invariant(self); }
        self.len
    }

    /// The finished parameters.
    pub fn as_slice(&self) -> (r: &[Param])
        ensures
            r@.len() == self@.len(),
            forall|i: int| 0 <= i < r@.len() ==> (#[trigger] r@[i])@ == self@[i],
    {
        proof { use_type_invariant(self); }
        &self.array.as_slice()[0..self.len]
    }

    pub fn is_empty(&self) -> (r: bool)
        ensures
            r == (self@.len() == 0),
    {
        proof { use_type_invariant(self); }
        self.len == 0
    }

    pub fn is_full(&self) -> (r: bool)
        ensures
            r == (self@.len() == MAX_PARAMS),
            self@.len() <= MAX_PARAMS,
    {
        proof { use_type_invariant(self); }
        self.len == MAX_PARAMS
    }

    /// Finishes the pending parameter; nothing happens when the list is full.
    pub fn next_param(&mut self)
        ensures
            old(self)@.len() < MAX_PARAMS ==> final(self)@ == old(self)@.push(old(self).pending()),
            old(self)@.len() < MAX_PARAMS ==> final(self).pending() == Seq::<u16>::empty(),
            old(self)@.len() >= MAX_PARAMS ==> final(self)@ == old(self)@ && final(self).pending()
                == old(self).pending(),
    {
        proof { use_type_invariant(&*self); }
        if self.is_full() {
            return;
        }
        let ghost before = self@;
        self.len = self.len + 1;
        assert(self@ =~= before.push(self.array@[self.len - 1]@));
    }

    /// Appends a subparameter to the pending parameter (unless it is full).
    pub fn push_subparam(&mut self, subparam: u16)
        requires
            old(self)@.len() < MAX_PARAMS,
        ensures
            final(self)@ == old(self)@,
            old(self).pending().len() < MAX_SUBPARAMS ==> final(self).pending() == old(
                self,
            ).pending().push(subparam),
            old(self).pending().len() >= MAX_SUBPARAMS ==> final(self).pending() == old(
                self,
            ).pending(),
    {
        proof { use_type_invariant(&*self); }
        let ghost before = self@;
        let mut p = self.array[self.len];
        p.push(subparam);
        self.array[self.len] = p;
        assert(self@ =~= before);
    }

    /// The parameter in slot `index`.
    pub fn index(&self, index: usize) -> (r: &Param)
        requires
            index < MAX_PARAMS,
        ensures
            *r == self.slot(index as int),
    {
        &self.array[index]
    }
}

} // verus!
