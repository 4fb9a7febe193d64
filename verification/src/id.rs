//! Identifiers of graph nodes, and the generator that issues them.

use vstd::prelude::*;

verus! {

/// The identifier of a node.
pub type Id = u32;

/// Issues the identifiers of one graph build, each greater than all before it.
#[derive(Debug)]
pub struct IdGenerator {
    prec_id: Id,
}

impl IdGenerator {
    /// The identifier issued last, or 0 while none has been issued.
    pub closed spec fn last(&self) -> nat {
        self.prec_id as nat
    }

    /// A generator that has issued nothing yet.
    pub fn new() -> (generator: IdGenerator)
        ensures
            generator.last() == 0,
    {
        IdGenerator { prec_id: 0 }
    }

    /// Issues the next identifier: one more than the last, hence greater
    /// than every identifier this generator has issued so far.
    pub fn new_id(&mut self) -> (id: Id)
        requires
            old(self).last() < Id::MAX,
        ensures
            id == old(self).last() + 1,
            final(self).last() == id,
    {
        self.prec_id = self.prec_id + 1;
        self.prec_id
    }
}

} // verus!
