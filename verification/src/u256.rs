//! 256-bit unsigned integer: four 64-bit limbs, least significant first.
//!
//! The view of a value is the mathematical natural number it denotes; every
//! operation's contract is stated against that view.

use crate::limbs::{add_limb, p128, p160, p192, p256, p32, p64, p96, split32, sub_limb};
use core::cmp::Ordering;
use vstd::prelude::*;

verus! {

/// A 256-bit unsigned integer. Arithmetic is exact over the view; operations
/// that can lose information come in overflowing, checked and wrapping forms.
#[derive(Clone, Copy, Debug, PartialEq, Eq, Structural)]
pub struct U256 {
    pub w0: u64,
    pub w1: u64,
    pub w2: u64,
    pub w3: u64,
}

impl View for U256 {
    type V = nat;

    open spec fn view(&self) -> nat {
        (self.w0 as nat) + (self.w1 as nat) * p64() + (self.w2 as nat) * p128() + (
        self.w3 as nat) * p192()
    }
}

/// Limb-by-limb lexicographic order agrees with the order of the views.
proof fn lemma_limb_order(a: U256, b: U256)
    ensures
        a.w3 < b.w3 ==> a@ < b@,
        a.w3 == b.w3 && a.w2 < b.w2 ==> a@ < b@,
        a.w3 == b.w3 && a.w2 == b.w2 && a.w1 < b.w1 ==> a@ < b@,
        a.w3 == b.w3 && a.w2 == b.w2 && a.w1 == b.w1 && a.w0 < b.w0 ==> a@ < b@,
{
}

impl U256 {
    /// The zero value.
    pub fn zero() -> (r: U256)
        ensures
            r@ == 0,
    {
        U256 { w0: 0, w1: 0, w2: 0, w3: 0 }
    }

    /// Whether the value is zero.
    pub fn is_zero(&self) -> (r: bool)
        ensures
            r <==> self@ == 0,
    {
        self.w0 == 0 && self.w1 == 0 && self.w2 == 0 && self.w3 == 0
    }

    /// The largest 256-bit value, 2^256 - 1.
    pub fn max_value() -> (r: U256)
        ensures
            r@ == p256() - 1,
    {
        U256 {
            w0: 0xffff_ffff_ffff_ffff,
            w1: 0xffff_ffff_ffff_ffff,
            w2: 0xffff_ffff_ffff_ffff,
            w3: 0xffff_ffff_ffff_ffff,
        }
    }

    /// Embeds a u64.
    pub fn from_u64(x: u64) -> (r: U256)
        ensures
            r@ == x,
    {
        U256 { w0: x, w1: 0, w2: 0, w3: 0 }
    }

    /// Embeds a u128.
    pub fn from_u128(x: u128) -> (r: U256)
        ensures
            r@ == x,
    {
        let lo: u64 = (x % 0x1_0000_0000_0000_0000u128) as u64;
        let hi: u64 = (x / 0x1_0000_0000_0000_0000u128) as u64;
        proof {
            vstd::arithmetic::div_mod::lemma_fundamental_div_mod(
                x as int,
                0x1_0000_0000_0000_0000,
            );
        }
        U256 { w0: lo, w1: hi, w2: 0, w3: 0 }
    }

    /// The low 128 bits, exact when the value fits.
    pub fn to_u128(&self) -> (r: u128)
        requires
            self@ < p128(),
        ensures
            r == self@,
    {
        self.w0 as u128 + (self.w1 as u128) * 0x1_0000_0000_0000_0000u128
    }

    /// Sum with carry out: `r.0@ + r.1 * 2^256 == self@ + other@`.
    pub fn overflowing_add(&self, other: &U256) -> (r: (U256, bool))
        ensures
            r.0@ + (if r.1 {
                p256()
            } else {
                0nat
            }) == self@ + other@,
    {
        let (s0, c0) = add_limb(self.w0, other.w0, 0);
        let (s1, c1) = add_limb(self.w1, other.w1, c0);
        let (s2, c2) = add_limb(self.w2, other.w2, c1);
        let (s3, c3) = add_limb(self.w3, other.w3, c2);
        (U256 { w0: s0, w1: s1, w2: s2, w3: s3 }, c3 == 1)
    }

    /// Sum that reports overflow instead of wrapping.
    pub fn checked_add(&self, other: &U256) -> (r: Option<U256>)
        ensures
            match r {
                Some(s) => s@ == self@ + other@,
                None => self@ + other@ >= p256(),
            },
    {
        let (s, o) = self.overflowing_add(other);
        if o {
            None
        } else {
            Some(s)
        }
    }

    /// Sum modulo 2^256.
    pub fn wrapping_add(&self, other: &U256) -> (r: U256)
        ensures
            r@ == (self@ + other@) % p256(),
    {
        let (s, o) = self.overflowing_add(other);
        proof {
            if o {
                assert(s@ == self@ + other@ - p256());
                assert(s@ < p256() && self@ + other@ < 2 * p256());
                vstd::arithmetic::div_mod::lemma_small_mod(s@, p256());
                assert(((self@ + other@) as int) % (p256() as int) == s@) by {
                    vstd::arithmetic::div_mod::lemma_mod_sub_multiples_vanish(
                        (self@ + other@) as int,
                        p256() as int,
                    );
                }
            } else {
                vstd::arithmetic::div_mod::lemma_small_mod(s@, p256());
            }
        }
        s
    }

    /// Difference with borrow out: `r.0@ == self@ - other@ + r.1 * 2^256`.
    pub fn overflowing_sub(&self, other: &U256) -> (r: (U256, bool))
        ensures
            r.0@ == self@ - other@ + (if r.1 {
                p256() as int
            } else {
                0
            }),
    {
        let (d0, b0) = sub_limb(self.w0, other.w0, 0);
        let (d1, b1) = sub_limb(self.w1, other.w1, b0);
        let (d2, b2) = sub_limb(self.w2, other.w2, b1);
        let (d3, b3) = sub_limb(self.w3, other.w3, b2);
        (U256 { w0: d0, w1: d1, w2: d2, w3: d3 }, b3 == 1)
    }

    /// Difference that reports underflow instead of wrapping.
    pub fn checked_sub(&self, other: &U256) -> (r: Option<U256>)
        ensures
            match r {
                Some(d) => self@ >= other@ && d@ == self@ - other@,
                None => self@ < other@,
            },
    {
        let (d, b) = self.overflowing_sub(other);
        if b {
            None
        } else {
            Some(d)
        }
    }

    /// The value shifted left by 96 bits, the fixed-point scale of a sqrt
    /// price; defined for values below 2^160, whose shift still fits.
    pub fn shl96(&self) -> (r: U256)
        requires
            self@ < p160(),
        ensures
            r@ == self@ * p96(),
    {
        proof {
            assert(self.w3 == 0 && self.w2 < 0x1_0000_0000);
        }
        let (a0l, a0h) = split32(self.w0);
        let (a1l, a1h) = split32(self.w1);
        let (a2l, _a2h) = split32(self.w2);
        U256 {
            w0: 0,
            w1: a0l * 0x1_0000_0000,
            w2: a0h + a1l * 0x1_0000_0000,
            w3: a1h + a2l * 0x1_0000_0000,
        }
    }

    /// The value shifted right by 32 bits, with the quotient and whether any
    /// remainder bits were dropped.
    pub fn shr32(&self) -> (r: (U256, bool))
        ensures
            r.0@ == self@ / p32(),
            r.1 <==> self@ % p32() != 0,
    {
        let (a0l, a0h) = split32(self.w0);
        let (a1l, a1h) = split32(self.w1);
        let (a2l, a2h) = split32(self.w2);
        let (a3l, a3h) = split32(self.w3);
        let q = U256 {
            w0: a0h + a1l * 0x1_0000_0000,
            w1: a1h + a2l * 0x1_0000_0000,
            w2: a2h + a3l * 0x1_0000_0000,
            w3: a3h,
        };
        proof {
            assert(self@ == q@ * p32() + a0l);
            vstd::arithmetic::div_mod::lemma_fundamental_div_mod_converse(
                self@ as int,
                p32() as int,
                q@ as int,
                a0l as int,
            );
        }
        (q, a0l != 0)
    }

    /// Difference modulo 2^256; the telescoping form used by the fee ledger.
    pub fn wrapping_sub(&self, other: &U256) -> (r: U256)
        ensures
            r@ == if self@ >= other@ {
                (self@ - other@) as nat
            } else {
                (self@ + p256() - other@) as nat
            },
    {
        let (d, b) = self.overflowing_sub(other);
        d
    }
}

impl PartialOrd for U256 {
    /// Compares most significant limb first.
    fn partial_cmp(&self, other: &Self) -> Option<Ordering> {
        proof {
            lemma_limb_order(*self, *other);
            lemma_limb_order(*other, *self);
        }
        if self.w3 != other.w3 {
            if self.w3 < other.w3 {
                Some(Ordering::Less)
            } else {
                Some(Ordering::Greater)
            }
        } else if self.w2 != other.w2 {
            if self.w2 < other.w2 {
                Some(Ordering::Less)
            } else {
                Some(Ordering::Greater)
            }
        } else if self.w1 != other.w1 {
            if self.w1 < other.w1 {
                Some(Ordering::Less)
            } else {
                Some(Ordering::Greater)
            }
        } else if self.w0 != other.w0 {
            if self.w0 < other.w0 {
                Some(Ordering::Less)
            } else {
                Some(Ordering::Greater)
            }
        } else {
            Some(Ordering::Equal)
        }
    }
}

impl vstd::std_specs::cmp::PartialOrdSpecImpl for U256 {
    open spec fn obeys_partial_cmp_spec() -> bool {
        true
    }

    open spec fn partial_cmp_spec(&self, other: &Self) -> Option<Ordering> {
        if self@ < other@ {
            Some(Ordering::Less)
        } else if self@ == other@ {
            Some(Ordering::Equal)
        } else {
            Some(Ordering::Greater)
        }
    }
}

} // verus!
