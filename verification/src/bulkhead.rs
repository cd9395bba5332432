//! Clock-agnostic concurrency limiter.
//!
//! A [`Bulkhead`] is a counting semaphore: acquire permits before starting work
//! and release them when it finishes. When no permit is available the request
//! is rejected at once, so load is shed instead of piling up.

use vstd::prelude::*;

verus! {

/// One operation that changes a bulkhead: `try_acquire(n)` (also
/// `try_acquire_one` as `n == 1`), `release(n)` (also `release_one`), `reset`.
pub enum BulkheadOp {
    Acquire(nat),
    Release(nat),
    Reset,
}

/// The state of a [`Bulkhead`]: its capacity and the permits currently held.
pub struct BulkheadModel {
    pub capacity: nat,
    pub in_flight: nat,
}

impl BulkheadModel {
    /// The invariant every bulkhead keeps: it admits at least one operation and
    /// never holds more permits than its capacity.
    pub open spec fn valid(self) -> bool {
        &&& self.capacity >= 1
        &&& self.in_flight <= self.capacity
    }

    /// The state and answer after trying to acquire `permits` permits: all of
    /// them when room exists, none otherwise.
    pub open spec fn acquire(self, permits: nat) -> (BulkheadModel, bool) {
        if permits <= self.capacity - self.in_flight {
            (BulkheadModel { in_flight: self.in_flight + permits, ..self }, true)
        } else {
            (self, false)
        }
    }

    /// A new bulkhead of capacity `capacity` (`0` counts as `1`), holding nothing.
    pub open spec fn fresh(capacity: nat) -> BulkheadModel {
        BulkheadModel { capacity: if capacity == 0 { 1 } else { capacity }, in_flight: 0 }
    }

    /// The state after every held permit is released.
    pub open spec fn cleared(self) -> BulkheadModel {
        BulkheadModel { in_flight: 0, ..self }
    }

    /// The state after one operation.
    pub open spec fn apply(self, op: BulkheadOp) -> BulkheadModel {
        match op {
            BulkheadOp::Acquire(n) => self.acquire(n).0,
            BulkheadOp::Release(n) => self.release(n),
            BulkheadOp::Reset => self.cleared(),
        }
    }

    /// The state after the operations `ops`, in order.
    pub open spec fn apply_all(self, ops: Seq<BulkheadOp>) -> BulkheadModel
        decreases ops.len(),
    {
        if ops.len() == 0 {
            self
        } else {
            self.apply(ops[0]).apply_all(ops.drop_first())
        }
    }

    /// The state after releasing `permits` permits, stopping at zero.
    pub open spec fn release(self, permits: nat) -> BulkheadModel {
        BulkheadModel {
            in_flight: if permits >= self.in_flight {
                0
            } else {
                (self.in_flight - permits) as nat
            },
            ..self
        }
    }
}

/// A concurrency limiter that caps the number of in-flight operations.
///
/// The capacity is clamped to at least `1`, and `in_flight <= capacity` holds on
/// every path, so [`available`](Self::available) never underflows.
#[derive(Debug, Clone, Copy, PartialEq, Eq, Hash, Structural)]
pub struct Bulkhead {
    capacity: usize,
    in_flight: usize,
}

impl View for Bulkhead {
    type V = BulkheadModel;

    closed spec fn view(&self) -> BulkheadModel {
        BulkheadModel { capacity: self.capacity as nat, in_flight: self.in_flight as nat }
    }
}

impl Bulkhead {
    #[verifier::type_invariant]
    spec fn wf(self) -> bool {
        self@.valid()
    }

    /// Creates a bulkhead allowing at most `capacity` concurrent permits; a
    /// capacity of `0` is treated as `1`.
    pub fn new(capacity: usize) -> (b: Bulkhead)
        ensures
            b@ == BulkheadModel::fresh(capacity as nat),
    {
        let capacity = if capacity == 0 { 1 } else { capacity };
        Bulkhead { capacity, in_flight: 0 }
    }

    /// Returns the maximum number of concurrent permits.
    pub fn capacity(&self) -> (c: usize)
        ensures
            c == self@.capacity,
            c >= 1,
    {
        proof {
            use_type_invariant(self);
        }
        self.capacity
    }

    /// Returns the number of permits currently held.
    pub fn in_flight(&self) -> (n: usize)
        ensures
            n == self@.in_flight,
            n <= self@.capacity,
    {
        proof {
            use_type_invariant(self);
        }
        self.in_flight
    }

    /// Returns how many more permits can be acquired right now.
    pub fn available(&self) -> (n: usize)
        ensures
            n == self@.capacity - self@.in_flight,
    {
        proof {
            use_type_invariant(self);
        }
        self.capacity - self.in_flight
    }

    /// Returns `true` when no further permits are available.
    pub fn is_full(&self) -> (full: bool)
        ensures
            full == (self@.in_flight >= self@.capacity),
    {
        self.in_flight >= self.capacity
    }

    /// Returns `true` when no permits are held.
    pub fn is_empty(&self) -> (empty: bool)
        ensures
            empty == (self@.in_flight == 0),
    {
        self.in_flight == 0
    }

    /// Tries to acquire `permits` permits at once: all of them, or none.
    /// Acquiring `0` permits always succeeds and reserves nothing.
    pub fn try_acquire(&mut self, permits: usize) -> (ok: bool)
        ensures
            (final(self)@, ok) == old(self)@.acquire(permits as nat),
    {
        proof {
            use_type_invariant(&*self);
        }
        if permits > self.capacity {
            return false;
        }
        if self.available() >= permits {
            self.in_flight = self.in_flight + permits;
            true
        } else {
            false
        }
    }

    /// Tries to acquire a single permit.
    pub fn try_acquire_one(&mut self) -> (ok: bool)
        ensures
            (final(self)@, ok) == old(self)@.acquire(1),
    {
        self.try_acquire(1)
    }

    /// Releases `permits` permits; releasing more than are held empties the
    /// bulkhead instead of underflowing.
    pub fn release(&mut self, permits: usize)
        ensures
            final(self)@ == old(self)@.release(permits as nat),
    {
        proof {
            use_type_invariant(&*self);
        }
        self.in_flight = self.in_flight.saturating_sub(permits);
    }

    /// Releases a single permit.
    pub fn release_one(&mut self)
        ensures
            final(self)@ == old(self)@.release(1),
    {
        self.release(1);
    }

    /// Releases every held permit.
    pub fn reset(&mut self)
        ensures
            final(self)@ == old(self)@.cleared(),
    {
        proof {
            use_type_invariant(&*self);
        }
        self.in_flight = 0;
    }
}

/// Every operation keeps the bulkhead's invariant: at least one slot, and never
/// more permits held than its capacity.
pub proof fn law_operations_keep_invariant(s: BulkheadModel, permits: nat)
    requires
        s.valid(),
    ensures
        s.acquire(permits).0.valid(),
        s.release(permits).valid(),
{
}

/// Acquiring is all-or-nothing: a refused request leaves the state unchanged,
/// and a request larger than the capacity is always refused.
pub proof fn law_acquire_all_or_nothing(s: BulkheadModel, permits: nat)
    requires
        s.valid(),
    ensures
        !s.acquire(permits).1 ==> s.acquire(permits).0 == s,
        permits > s.capacity ==> !s.acquire(permits).1,
        s.acquire(permits).1 ==> s.acquire(permits).0.in_flight == s.in_flight + permits,
{
}

/// Releasing what a successful acquire took restores the previous state.
pub proof fn law_release_undoes_acquire(s: BulkheadModel, permits: nat)
    requires
        s.valid(),
        s.acquire(permits).1,
    ensures
        s.acquire(permits).0.release(permits) == s,
{
}

/// Whatever operations follow `Bulkhead::new(capacity)`, the capacity stays
/// `max(capacity, 1)` and the permits held never exceed it, so `available`
/// never underflows and `is_full` means exactly that all permits are held.
pub proof fn law_any_sequence_keeps_invariant(capacity: nat, ops: Seq<BulkheadOp>)
    ensures
        BulkheadModel::fresh(capacity).apply_all(ops).valid(),
        BulkheadModel::fresh(capacity).apply_all(ops).capacity == if capacity == 0 {
            1
        } else {
            capacity
        },
        (BulkheadModel::fresh(capacity).apply_all(ops).in_flight >= BulkheadModel::fresh(
            capacity,
        ).apply_all(ops).capacity) == (BulkheadModel::fresh(capacity).apply_all(ops).in_flight
            == BulkheadModel::fresh(capacity).apply_all(ops).capacity),
{
    lemma_apply_all_keeps(BulkheadModel::fresh(capacity), ops);
}

proof fn lemma_apply_all_keeps(s: BulkheadModel, ops: Seq<BulkheadOp>)
    requires
        s.valid(),
    ensures
        s.apply_all(ops).valid(),
        s.apply_all(ops).capacity == s.capacity,
    decreases ops.len(),
{
    if ops.len() > 0 {
        lemma_apply_all_keeps(s.apply(ops[0]), ops.drop_first());
    }
}

} // verus!
