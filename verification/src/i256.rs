//! 256-bit two's-complement signed integer over the unsigned representation.
//!
//! The view of a value is the mathematical integer it denotes; the top bit of
//! the representation is the sign discriminator.

use crate::error::Error;
use crate::limbs::p256;
use crate::u256::U256;
use core::cmp::Ordering;
use vstd::prelude::*;

verus! {

/// A 256-bit signed integer in two's complement.
#[derive(Clone, Copy, Debug, PartialEq, Eq, Structural)]
pub struct I256 {
    pub repr: U256,
}

impl View for I256 {
    type V = int;

    open spec fn view(&self) -> int {
        if self.repr@ >= p256() / 2 {
            self.repr@ - p256()
        } else {
            self.repr@ as int
        }
    }
}

impl I256 {
    /// The two's-complement representation.
    pub open spec fn spec_repr(&self) -> nat {
        self.repr@
    }

    /// The top bit of the representation decides the sign.
    proof fn lemma_sign(&self)
        ensures
            self.repr.w3 >= 0x8000_0000_0000_0000 <==> self.repr@ >= p256() / 2,
            self@ < 0 <==> self.repr@ >= p256() / 2,
    {
    }

    /// The zero value.
    pub fn zero() -> (r: I256)
        ensures
            r@ == 0,
    {
        I256 { repr: U256::zero() }
    }

    /// Whether the value is zero.
    pub fn is_zero(&self) -> (r: bool)
        ensures
            r <==> self@ == 0,
    {
        self.repr.is_zero()
    }

    /// The largest signed value, 2^255 - 1.
    pub fn max_value() -> (r: I256)
        ensures
            r@ == p256() / 2 - 1,
    {
        I256 {
            repr: U256 {
                w0: 0xffff_ffff_ffff_ffff,
                w1: 0xffff_ffff_ffff_ffff,
                w2: 0xffff_ffff_ffff_ffff,
                w3: 0x7fff_ffff_ffff_ffff,
            },
        }
    }

    /// Whether the value is negative.
    pub fn is_negative(&self) -> (r: bool)
        ensures
            r <==> self@ < 0,
    {
        proof {
            self.lemma_sign();
        }
        self.repr.w3 >= 0x8000_0000_0000_0000
    }

    /// Reinterprets an unsigned value; one with the top bit set is rejected
    /// as out of the signed range.
    pub fn try_from_u256(a: &U256) -> (r: Result<I256, Error>)
        ensures
            match r {
                Ok(v) => a@ < p256() / 2 && v@ == a@,
                Err(e) => a@ >= p256() / 2 && e == Error::Overflow,
            },
    {
        let v = I256 { repr: *a };
        proof {
            v.lemma_sign();
        }
        if a.w3 >= 0x8000_0000_0000_0000 {
            Err(Error::Overflow)
        } else {
            Ok(v)
        }
    }

    /// The unsigned value; a negative one is rejected.
    pub fn try_to_u256(&self) -> (r: Result<U256, Error>)
        ensures
            match r {
                Ok(v) => self@ >= 0 && v@ == self@,
                Err(e) => self@ < 0 && e == Error::Overflow,
            },
    {
        proof {
            self.lemma_sign();
        }
        if self.repr.w3 >= 0x8000_0000_0000_0000 {
            Err(Error::Overflow)
        } else {
            Ok(self.repr)
        }
    }

    /// The negated value where a sign is owed together with an unsigned
    /// magnitude; a magnitude above 2^255 is rejected.
    pub fn neg_from_u256(a: &U256) -> (r: Result<I256, Error>)
        ensures
            match r {
                Ok(v) => a@ <= p256() / 2 && v@ == -(a@ as int),
                Err(e) => a@ > p256() / 2 && e == Error::Overflow,
            },
    {
        let zero = U256::zero();
        let (repr, _borrow) = zero.overflowing_sub(a);
        let v = I256 { repr };
        proof {
            v.lemma_sign();
        }
        if a.is_zero() {
            Ok(v)
        } else if v.repr.w3 >= 0x8000_0000_0000_0000 {
            Ok(v)
        } else {
            Err(Error::Overflow)
        }
    }

    /// The magnitude as an unsigned value; the magnitude of the most negative
    /// value, 2^255, still fits.
    pub fn abs_u256(&self) -> (r: U256)
        ensures
            r@ == if self@ >= 0 {
                self@
            } else {
                -self@
            },
    {
        proof {
            self.lemma_sign();
        }
        if self.repr.w3 >= 0x8000_0000_0000_0000 {
            let zero = U256::zero();
            let (m, _borrow) = zero.overflowing_sub(&self.repr);
            m
        } else {
            self.repr
        }
    }

    /// Two's-complement negation, wrapping only on the most negative value.
    pub fn wrapping_neg(&self) -> (r: I256)
        ensures
            r@ == if self@ == -(p256() / 2) {
                self@
            } else {
                -self@
            },
    {
        let zero = U256::zero();
        let (repr, _borrow) = zero.overflowing_sub(&self.repr);
        let v = I256 { repr };
        proof {
            self.lemma_sign();
            v.lemma_sign();
        }
        v
    }
}

impl PartialOrd for I256 {
    /// Compares by sign first; within one sign the representation order is
    /// the signed order.
    fn partial_cmp(&self, other: &Self) -> Option<Ordering> {
        proof {
            self.lemma_sign();
            other.lemma_sign();
        }
        let sn = self.repr.w3 >= 0x8000_0000_0000_0000;
        let on = other.repr.w3 >= 0x8000_0000_0000_0000;
        if sn != on {
            if sn {
                Some(Ordering::Less)
            } else {
                Some(Ordering::Greater)
            }
        } else {
            self.repr.partial_cmp(&other.repr)
        }
    }
}

impl vstd::std_specs::cmp::PartialOrdSpecImpl for I256 {
    open spec fn obeys_partial_cmp_spec() -> bool {
        true
    }

    open spec fn partial_cmp_spec(&self, other: &Self) -> Option<Ordering> {
        if self@ < other@ {
            Some(Ordering::Less)
        } else if self@ == other@ {
            Some(Ordering::Equal)
        } else {
            Some(Ordering::Greater)
        }
    }
}

} // verus!
