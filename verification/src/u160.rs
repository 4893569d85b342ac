//! 160-bit unsigned integer: the square-root price in Q96 fixed point.
//!
//! Two 64-bit limbs and one 32-bit limb, least significant first, so every
//! representable value lies below 2^160 by construction.

use crate::error::Error;
use crate::limbs::{p128, p160, p64};
use crate::u256::U256;
use core::cmp::Ordering;
use vstd::prelude::*;

verus! {

/// A 160-bit unsigned integer holding a sqrt price scaled by 2^96.
#[derive(Clone, Copy, Debug, PartialEq, Eq, Structural)]
pub struct U160 {
    pub w0: u64,
    pub w1: u64,
    pub w2: u32,
}

impl View for U160 {
    type V = nat;

    open spec fn view(&self) -> nat {
        (self.w0 as nat) + (self.w1 as nat) * p64() + (self.w2 as nat) * p128()
    }
}

/// Every value lies below 2^160.
pub proof fn lemma_u160_range(a: U160)
    ensures
        a@ < p160(),
{
}

/// The view determines the limbs: two values with equal views are equal.
pub proof fn lemma_u160_unique(a: U160, b: U160)
    ensures
        a@ == b@ ==> a == b,
{
    if a@ == b@ {
        lemma_u160_limb_order(a, b);
        lemma_u160_limb_order(b, a);
        assert(a.w2 == b.w2);
        assert(a.w1 == b.w1);
        assert(a.w0 == b.w0);
    }
}

/// Limb-by-limb lexicographic order agrees with the order of the views.
proof fn lemma_u160_limb_order(a: U160, b: U160)
    ensures
        a.w2 < b.w2 ==> a@ < b@,
        a.w2 == b.w2 && a.w1 < b.w1 ==> a@ < b@,
        a.w2 == b.w2 && a.w1 == b.w1 && a.w0 < b.w0 ==> a@ < b@,
{
}

impl U160 {
    /// The zero value.
    pub fn zero() -> (r: U160)
        ensures
            r@ == 0,
    {
        U160 { w0: 0, w1: 0, w2: 0 }
    }

    /// Whether the value is zero.
    pub fn is_zero(&self) -> (r: bool)
        ensures
            r <==> self@ == 0,
    {
        self.w0 == 0 && self.w1 == 0 && self.w2 == 0
    }

    /// The largest 160-bit value, 2^160 - 1.
    pub fn max_value() -> (r: U160)
        ensures
            r@ == p160() - 1,
    {
        U160 { w0: 0xffff_ffff_ffff_ffff, w1: 0xffff_ffff_ffff_ffff, w2: 0xffff_ffff }
    }

    /// Embeds a u128; every u128 fits.
    pub fn from_u128(x: u128) -> (r: U160)
        ensures
            r@ == x,
    {
        let lo: u64 = (x % 0x1_0000_0000_0000_0000u128) as u64;
        let hi: u64 = (x / 0x1_0000_0000_0000_0000u128) as u64;
        proof {
            vstd::arithmetic::div_mod::lemma_fundamental_div_mod(
                x as int,
                0x1_0000_0000_0000_0000,
            );
        }
        U160 { w0: lo, w1: hi, w2: 0 }
    }

    /// Widens to 256 bits.
    pub fn to_u256(&self) -> (r: U256)
        ensures
            r@ == self@,
    {
        U256 { w0: self.w0, w1: self.w1, w2: self.w2 as u64, w3: 0 }
    }

    /// Narrows from 256 bits; a value of 160 bits or more is rejected.
    pub fn try_from_u256(a: &U256) -> (r: Result<U160, Error>)
        ensures
            match r {
                Ok(v) => a@ < p160() && v@ == a@,
                Err(e) => a@ >= p160() && e == Error::Overflow,
            },
    {
        if a.w3 == 0 && a.w2 < 0x1_0000_0000u64 {
            Ok(U160 { w0: a.w0, w1: a.w1, w2: a.w2 as u32 })
        } else {
            Err(Error::Overflow)
        }
    }
}

impl PartialOrd for U160 {
    /// Compares most significant limb first.
    fn partial_cmp(&self, other: &Self) -> Option<Ordering> {
        proof {
            lemma_u160_limb_order(*self, *other);
            lemma_u160_limb_order(*other, *self);
        }
        if self.w2 != other.w2 {
            if self.w2 < other.w2 {
                Some(Ordering::Less)
            } else {
                Some(Ordering::Greater)
            }
        } else if self.w1 != other.w1 {
            if self.w1 < other.w1 {
                Some(Ordering::Less)
            } else {
                Some(Ordering::Greater)
            }
        } else if self.w0 != other.w0 {
            if self.w0 < other.w0 {
                Some(Ordering::Less)
            } else {
                Some(Ordering::Greater)
            }
        } else {
            Some(Ordering::Equal)
        }
    }
}

impl vstd::std_specs::cmp::PartialOrdSpecImpl for U160 {
    open spec fn obeys_partial_cmp_spec() -> bool {
        true
    }

    open spec fn partial_cmp_spec(&self, other: &Self) -> Option<Ordering> {
        if self@ < other@ {
            Some(Ordering::Less)
        } else if self@ == other@ {
            Some(Ordering::Equal)
        } else {
            Some(Ordering::Greater)
        }
    }
}

} // verus!
