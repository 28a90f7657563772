//! Execution cost accounting.
//!
//! A cost is two-dimensional — computation and storage I/O — and a block
//! additionally meters the total encoded length of its transactions.  The
//! tracker keeps running totals for the block being built or imported and
//! admits a transaction only when every total stays under its ceiling.

use vstd::prelude::*;
use crate::Balance;

verus! {

/// A two-dimensional execution cost: computation and storage I/O.
#[derive(PartialEq, Eq, Structural, Clone, Copy, Debug)]
pub struct Weight {
    /// Computational cost units.
    pub compute: u64,
    /// Storage I/O cost units.
    pub io: u64,
}

impl Weight {
    /// Both dimensions within `other`.
    pub open spec fn spec_le(self, other: Weight) -> bool {
        self.compute <= other.compute && self.io <= other.io
    }

    /// The zero cost.
    pub fn zero() -> (w: Weight)
        ensures
            w.compute == 0,
            w.io == 0,
    {
        Weight { compute: 0, io: 0 }
    }

    /// Compares both dimensions against `other`.
    pub fn checked_le(&self, other: &Weight) -> (r: bool)
        ensures
            r == self.spec_le(*other),
    {
        self.compute <= other.compute && self.io <= other.io
    }
}

/// The fee owed for a transaction of declared cost `w` and encoded length
/// `len`: one balance unit per cost unit and per byte.
pub open spec fn fee_of(w: Weight, len: nat) -> Balance {
    (w.compute + w.io + len) as Balance
}

/// The parts of a transaction's fee, as reported to fee queries.
#[derive(PartialEq, Eq, Structural, Clone, Copy, Debug)]
pub struct FeeDetails {
    /// The part owed for the declared execution cost.
    pub weight_fee: Balance,
    /// The part owed for the encoded length.
    pub length_fee: Balance,
    /// The whole fee.
    pub total: Balance,
}

/// Computes the fee owed for declared cost `w` and encoded length `len`.
pub fn compute_fee(w: Weight, len: u32) -> (r: Balance)
    ensures
        r == fee_of(w, len as nat),
{
    w.compute as u128 + w.io as u128 + len as u128
}

/// Signals that admitting a cost would push a running total past its ceiling.
#[derive(PartialEq, Eq, Structural, Clone, Copy, Debug)]
pub struct CostExceeded;

/// Running cost totals for the block being built or imported.
#[derive(PartialEq, Eq, Structural, Clone, Copy, Debug)]
pub struct CostTracker {
    /// The block's cost ceiling.
    pub limit: Weight,
    /// The block's encoded-length ceiling.
    pub length_limit: u32,
    /// The summed declared cost of every admitted transaction.
    pub used: Weight,
    /// The summed encoded length of every admitted transaction.
    pub used_length: u32,
}

impl CostTracker {
    /// Totals never pass their ceilings.
    pub open spec fn wf(self) -> bool {
        self.used.spec_le(self.limit) && self.used_length <= self.length_limit
    }

    /// Whether a further cost of `w` and `len` stays under every ceiling.
    pub open spec fn can_consume(self, w: Weight, len: u32) -> bool {
        self.used.compute + w.compute <= self.limit.compute
            && self.used.io + w.io <= self.limit.io
            && self.used_length + len <= self.length_limit
    }

    /// A tracker with nothing consumed yet.
    pub fn new(limit: Weight, length_limit: u32) -> (t: CostTracker)
        ensures
            t.wf(),
            t.limit == limit,
            t.length_limit == length_limit,
            t.used.compute == 0,
            t.used.io == 0,
            t.used_length == 0,
    {
        CostTracker { limit, length_limit, used: Weight::zero(), used_length: 0 }
    }

    /// Atomically checks `running total + cost` against every ceiling; commits
    /// the addition on success and leaves the totals unchanged on overflow.
    pub fn try_consume(&mut self, w: Weight, len: u32) -> (r: Result<(), CostExceeded>)
        requires
            old(self).wf(),
        ensures
            final(self).wf(),
            final(self).limit == old(self).limit,
            final(self).length_limit == old(self).length_limit,
            r is Ok <==> old(self).can_consume(w, len),
            r is Ok ==> final(self).used.compute == old(self).used.compute + w.compute
                && final(self).used.io == old(self).used.io + w.io
                && final(self).used_length == old(self).used_length + len,
            r is Err ==> *final(self) == *old(self),
    {
        if w.compute <= self.limit.compute - self.used.compute
            && w.io <= self.limit.io - self.used.io
            && len <= self.length_limit - self.used_length
        {
            self.used.compute = self.used.compute + w.compute;
            self.used.io = self.used.io + w.io;
            self.used_length = self.used_length + len;
            Result::Ok(())
        } else {
            Result::Err(CostExceeded)
        }
    }
}

} // verus!
