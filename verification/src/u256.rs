//! Unsigned 256-bit amounts with checked arithmetic.

use vstd::prelude::*;

verus! {

/// 2^128, the weight of the high limb.
pub open spec fn limb_base() -> nat {
    0x1_0000_0000_0000_0000_0000_0000_0000_0000nat
}

/// 2^256, one past the largest representable amount.
pub open spec fn value_bound() -> nat {
    0x1_0000_0000_0000_0000_0000_0000_0000_0000_0000_0000_0000_0000_0000_0000_0000_0000nat
}

/// An unsigned 256-bit integer, stored as two 128-bit limbs.
#[derive(Clone, Copy, PartialEq, Eq, Structural, Debug)]
pub struct U256 {
    pub lo: u128,
    pub hi: u128,
}

impl U256 {
    /// The mathematical value of the two limbs.
    pub open spec fn as_nat(self) -> nat {
        (self.lo + self.hi * limb_base()) as nat
    }

    /// Every representable amount lies below 2^256.
    pub proof fn lemma_value_in_range(self)
        ensures
            self.as_nat() < value_bound(),
    {
    }

    pub fn new(hi: u128, lo: u128) -> (r: U256)
        ensures
            r.as_nat() == lo + hi * limb_base(),
    {
        U256 { lo, hi }
    }

    pub fn zero() -> (r: U256)
        ensures
            r.as_nat() == 0,
    {
        U256 { lo: 0, hi: 0 }
    }

    pub fn from_u128(v: u128) -> (r: U256)
        ensures
            r.as_nat() == v,
    {
        U256 { lo: v, hi: 0 }
    }

    pub fn max_value() -> (r: U256)
        ensures
            r.as_nat() == value_bound() - 1,
    {
        U256 { lo: u128::MAX, hi: u128::MAX }
    }

    pub fn is_zero(&self) -> (r: bool)
        ensures
            r <==> self.as_nat() == 0,
    {
        self.lo == 0 && self.hi == 0
    }

    /// The sum, or `None` when it does not fit in 256 bits.
    pub fn checked_add(self, other: U256) -> (r: Option<U256>)
        ensures
            self.as_nat() + other.as_nat() < value_bound() ==> (r matches Some(c)
                && c.as_nat() == self.as_nat() + other.as_nat()),
            self.as_nat() + other.as_nat() >= value_bound() ==> r is None,
    {
        if self.lo <= u128::MAX - other.lo {
            let lo: u128 = self.lo + other.lo;
            if self.hi <= u128::MAX - other.hi {
                Some(U256 { lo, hi: self.hi + other.hi })
            } else {
                None
            }
        } else {
            let lo: u128 = self.lo - (u128::MAX - other.lo) - 1;
            if other.hi < u128::MAX && self.hi <= u128::MAX - other.hi - 1 {
                Some(U256 { lo, hi: self.hi + other.hi + 1 })
            } else {
                None
            }
        }
    }

    /// The difference, or `None` when `other` exceeds `self`.
    pub fn checked_sub(self, other: U256) -> (r: Option<U256>)
        ensures
            self.as_nat() >= other.as_nat() ==> (r matches Some(c)
                && c.as_nat() == self.as_nat() - other.as_nat()),
            self.as_nat() < other.as_nat() ==> r is None,
    {
        if self.hi > other.hi || (self.hi == other.hi && self.lo >= other.lo) {
            if self.lo >= other.lo {
                Some(U256 { lo: self.lo - other.lo, hi: self.hi - other.hi })
            } else {
                Some(U256 { lo: (u128::MAX - other.lo) + self.lo + 1, hi: self.hi - other.hi - 1 })
            }
        } else {
            None
        }
    }
}

} // verus!
