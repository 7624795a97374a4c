use vstd::prelude::*;

verus! {

/// X3.64 doesn't limit the number of intermediate characters before a final
/// character, although it doesn't define any control sequence with more than
/// one. Digital defined escape sequences with two intermediates, and control
/// sequences and device control strings with one.
pub const MAX_INTERMEDIATES: usize = 2;

/// Collects the intermediate bytes of a sequence.
pub struct Handler {
    array: [u8; 2],
    index: usize,
}

impl View for Handler {
    type V = Seq<u8>;

    closed spec fn view(&self) -> Seq<u8> {
        self.array@.subrange(0, self.index as int)
    }
}

impl Handler {
    #[verifier::type_invariant]
    closed spec fn inv(self) -> bool {
        self.index <= MAX_INTERMEDIATES
    }

    pub fn new() -> (r: Handler)
        ensures
            r@ == Seq::<u8>::empty(),
    {
        let r = Handler { array: [0u8; 2], index: 0 };
        assert(r@ =~= Seq::<u8>::empty());
        r
    }

    /// The collected intermediates.
    pub fn as_slice(&self) -> (r: &[u8])
        ensures
            r@ == self@,
            r@.len() <= MAX_INTERMEDIATES,
    {
        proof { use_type_invariant(self); }
        &self.array.as_slice()[0..self.index]
    }

    pub fn is_full(&self) -> (r: bool)
        ensures
            r == (self@.len() == MAX_INTERMEDIATES),
            self@.len() <= MAX_INTERMEDIATES,
    {
        proof { use_type_invariant(self); }
        self.index == MAX_INTERMEDIATES
    }

    /// Adds an intermediate unless the handler is full.
    pub fn push(&mut self, byte: u8)
        ensures
            old(self)@.len() < MAX_INTERMEDIATES ==> final(self)@ == old(self)@.push(byte),
            old(self)@.len() >= MAX_INTERMEDIATES ==> final(self)@ == old(self)@,
    {
        proof { use_type_invariant(&*self); }
        if self.is_full() {
            return;
        }
        let ghost before = self@;
        self.array[self.index] = byte;
        self.index = self.index + 1;
        assert(self@ =~= before.push(byte));
    }

    pub fn clear(&mut self)
        ensures
            final(self)@ == Seq::<u8>::empty(),
    {
        self.index = 0;
        assert(self@ =~= Seq::<u8>::empty());
    }
}

} // verus!
