//! A bound on how many fetches are under way at once.

use vstd::prelude::*;

verus! {

/// How many fetches may be under way at once during an export.
pub const CONCURRENCY: usize = 100;

/// One occupied slot of a gate. It can be neither copied nor made from
/// nothing: it comes from `try_acquire` and ends in `release`.
#[derive(Debug)]
pub struct ConcurrencyPermit {
    slot: (),
}

/// A counter of occupied slots, bounded by its capacity.
#[derive(Debug)]
pub struct ConcurrencyGate {
    capacity: usize,
    in_use: usize,
}

impl ConcurrencyGate {
    /// How many slots there are.
    pub closed spec fn capacity(self) -> nat {
        self.capacity as nat
    }

    /// How many slots are occupied.
    pub closed spec fn in_use(self) -> nat {
        self.in_use as nat
    }

    /// Never more slots are occupied than there are.
    pub open spec fn wf(self) -> bool {
        self.in_use() <= self.capacity()
    }

    /// A gate with `capacity` free slots.
    pub fn new(capacity: usize) -> (gate: ConcurrencyGate)
        ensures
            gate.wf(),
            gate.capacity() == capacity,
            gate.in_use() == 0,
    {
        ConcurrencyGate { capacity, in_use: 0 }
    }

    /// How many slots are free.
    pub fn available(&self) -> (free: usize)
        requires
            self.wf(),
        ensures
            free == self.capacity() - self.in_use(),
    {
        self.capacity - self.in_use
    }

    /// Occupies a slot if one is free.
    pub fn try_acquire(&mut self) -> (permit: Option<ConcurrencyPermit>)
        requires
            old(self).wf(),
        ensures
            final(self).wf(),
            final(self).capacity() == old(self).capacity(),
            permit is Some <==> old(self).in_use() < old(self).capacity(),
            permit is Some ==> final(self).in_use() == old(self).in_use() + 1,
            permit is None ==> *final(self) == *old(self),
    {
        if self.in_use < self.capacity {
            self.in_use = self.in_use + 1;
            Some(ConcurrencyPermit { slot: () })
        } else {
            None
        }
    }

    /// Gives a slot back.
    pub fn release(&mut self, permit: ConcurrencyPermit)
        requires
            old(self).wf(),
            old(self).in_use() > 0,
        ensures
            final(self).wf(),
            final(self).capacity() == old(self).capacity(),
            final(self).in_use() == old(self).in_use() - 1,
    {
        self.in_use = self.in_use - 1;
    }
}

} // verus!
