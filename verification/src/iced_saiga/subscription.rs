use vstd::prelude::*;

verus! {

/// The events of one terminal, by its id.
pub struct Subscription {
    pub term_id: u64,
}

impl Subscription {
    pub fn new(term_id: u64) -> (r: Subscription)
        ensures
            r.term_id == term_id,
    {
        Subscription { term_id }
    }
}

} // verus!
