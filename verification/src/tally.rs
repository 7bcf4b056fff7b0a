//! Sums of 64-bit amounts that cannot overflow.
//!
//! A ledger may hold more value than fits in 64 bits, so totals are kept in
//! two limbs and only narrowed when a query hands its answer out.

use vstd::prelude::*;

verus! {

/// A natural number `hi * 2^64 + lo`.
pub struct Tally {
    hi: u128,
    lo: u64,
}

impl View for Tally {
    type V = nat;

    closed spec fn view(&self) -> nat {
        (self.hi * 0x1_0000_0000_0000_0000 + self.lo) as nat
    }
}

impl Tally {
    /// How many more amounts can be added before the upper limb is full.
    pub closed spec fn room(&self) -> nat {
        (u128::MAX - self.hi) as nat
    }

    pub fn zero() -> (tally: Tally)
        ensures
            tally@ == 0,
            tally.room() == u128::MAX,
    {
        Tally { hi: 0, lo: 0 }
    }

    /// Adds `amount`. Each addition uses up at most one unit of room.
    pub fn add(&mut self, amount: u64)
        requires
            old(self).room() > 0,
        ensures
            final(self)@ == old(self)@ + amount,
            final(self).room() + 1 >= old(self).room(),
    {
        if amount <= u64::MAX - self.lo {
            self.lo = self.lo + amount;
        } else {
            self.lo = amount - (u64::MAX - self.lo) - 1;
            self.hi = self.hi + 1;
        }
    }

    /// The tally narrowed to 64 bits: itself where it fits, else `u64::MAX`.
    pub fn saturated(&self) -> (amount: u64)
        ensures
            amount == if self@ <= u64::MAX {
                self@
            } else {
                u64::MAX as nat
            },
    {
        if self.hi == 0 {
            self.lo
        } else {
            u64::MAX
        }
    }

    /// The amount by which this tally exceeds `other`, narrowed to 64 bits;
    /// `None` where it falls short of `other`.
    pub fn surplus(&self, other: &Tally) -> (surplus: Option<u64>)
        ensures
            match surplus {
                Some(amount) => self@ >= other@ && amount == if self@ - other@ <= u64::MAX {
                    self@ - other@
                } else {
                    u64::MAX as int
                },
                None => self@ < other@,
            },
    {
        if self.hi < other.hi {
            None
        } else if self.hi == other.hi {
            if self.lo < other.lo {
                None
            } else {
                Some(self.lo - other.lo)
            }
        } else if self.hi - other.hi == 1 && self.lo < other.lo {
            Some(u64::MAX - (other.lo - self.lo) + 1)
        } else {
            Some(u64::MAX)
        }
    }
}

} // verus!
