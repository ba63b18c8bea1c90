//! Bounded, non-blocking admission of concurrent requests.
use vstd::prelude::*;

verus! {

/// Counts requests in flight against a fixed number of permits.
pub struct AdmissionGate {
    capacity: usize,
    in_flight: usize,
}

/// How many of `n` acquisitions, made one after another with none released,
/// are refused by a gate of `capacity` permits with `in_flight` taken.
pub open spec fn refused_count(capacity: nat, in_flight: nat, n: nat) -> nat
    decreases n,
{
    if n == 0 {
        0
    } else if in_flight < capacity {
        refused_count(capacity, in_flight + 1, (n - 1) as nat)
    } else {
        1 + refused_count(capacity, in_flight, (n - 1) as nat)
    }
}

/// With `n` permits and `n + 1` requests of which none completes, exactly
/// one request is refused.
pub proof fn lemma_one_more_than_capacity_sheds_one(n: nat)
    ensures
        refused_count(n, 0, n + 1) == 1,
{
    lemma_refused_count(n, 0, n + 1);
}

/// Acquisitions beyond the free permits are refused, the others granted.
pub proof fn lemma_refused_count(capacity: nat, in_flight: nat, n: nat)
    requires
        in_flight <= capacity,
    ensures
        refused_count(capacity, in_flight, n) == if n > capacity - in_flight {
            n - (capacity - in_flight)
        } else {
            0
        },
    decreases n,
{
    if n > 0 {
        if in_flight < capacity {
            lemma_refused_count(capacity, in_flight + 1, (n - 1) as nat);
        } else {
            lemma_refused_count(capacity, in_flight, (n - 1) as nat);
        }
    }
}

impl AdmissionGate {
    /// The number of permits.
    pub closed spec fn spec_capacity(&self) -> nat {
        self.capacity as nat
    }

    /// The number of requests admitted and not yet released.
    pub closed spec fn spec_in_flight(&self) -> nat {
        self.in_flight as nat
    }

    /// No more requests are in flight than there are permits.
    pub open spec fn wf(&self) -> bool {
        self.spec_in_flight() <= self.spec_capacity()
    }

    /// A gate with `capacity` permits and nothing in flight.
    pub fn new(capacity: usize) -> (r: AdmissionGate)
        ensures
            r.wf(),
            r.spec_capacity() == capacity,
            r.spec_in_flight() == 0,
    {
        AdmissionGate { capacity, in_flight: 0 }
    }

    /// Takes a permit when one is free and says whether it did; never waits.
    pub fn try_acquire(&mut self) -> (r: bool)
        requires
            old(self).wf(),
        ensures
            final(self).wf(),
            r == (old(self).spec_in_flight() < old(self).spec_capacity()),
            final(self).spec_capacity() == old(self).spec_capacity(),
            final(self).spec_in_flight() == if r {
                old(self).spec_in_flight() + 1
            } else {
                old(self).spec_in_flight()
            },
    {
        if self.in_flight < self.capacity {
            self.in_flight = self.in_flight + 1;
            true
        } else {
            false
        }
    }

    /// Gives back a permit taken by `try_acquire`.
    pub fn release(&mut self)
        requires
            old(self).wf(),
            old(self).spec_in_flight() > 0,
        ensures
            final(self).wf(),
            final(self).spec_capacity() == old(self).spec_capacity(),
            final(self).spec_in_flight() == old(self).spec_in_flight() - 1,
    {
        self.in_flight = self.in_flight - 1;
    }

    /// The number of requests in flight.
    pub fn in_flight(&self) -> (r: usize)
        ensures
            r == self.spec_in_flight(),
    {
        self.in_flight
    }

    /// The number of permits.
    pub fn capacity(&self) -> (r: usize)
        ensures
            r == self.spec_capacity(),
    {
        self.capacity
    }
}

} // verus!
