//! A pair of per-token fee-growth accumulators in Q128 fixed point.
//!
//! Accumulators add and subtract modulo 2^256: the outside-variant stored per
//! tick is a telescoping difference and may wrap, which is valid and expected.

use crate::limbs::p256;
use crate::u256::U256;
use vstd::prelude::*;

verus! {

/// Subtraction modulo 2^256 over the mathematical naturals.
pub open spec fn wsub(a: nat, b: nat) -> nat {
    if a >= b {
        (a - b) as nat
    } else {
        (a + p256() - b) as nat
    }
}

/// Addition modulo 2^256 over the mathematical naturals.
pub open spec fn wadd(a: nat, b: nat) -> nat {
    if a + b < p256() {
        a + b
    } else {
        (a + b - p256()) as nat
    }
}

/// Cumulative fee per unit of liquidity for each token, scaled by Q128.
#[derive(Clone, Copy, Debug, PartialEq, Eq, Structural)]
pub struct Fee {
    pub token_0: U256,
    pub token_1: U256,
}

impl Fee {
    /// A pair of accumulators.
    pub fn new(token_0: U256, token_1: U256) -> (r: Fee)
        ensures
            r.token_0 == token_0 && r.token_1 == token_1,
    {
        Fee { token_0, token_1 }
    }

    /// Both accumulators zero.
    pub fn zero() -> (r: Fee)
        ensures
            r.token_0@ == 0 && r.token_1@ == 0,
    {
        Fee { token_0: U256::zero(), token_1: U256::zero() }
    }

    /// Pairwise sum modulo 2^256.
    pub fn wrapping_add(&self, other: &Fee) -> (r: Fee)
        ensures
            r.token_0@ == wadd(self.token_0@, other.token_0@),
            r.token_1@ == wadd(self.token_1@, other.token_1@),
    {
        let t0 = self.token_0.wrapping_add(&other.token_0);
        let t1 = self.token_1.wrapping_add(&other.token_1);
        proof {
            lemma_wadd_is_mod(self.token_0@, other.token_0@);
            lemma_wadd_is_mod(self.token_1@, other.token_1@);
        }
        Fee { token_0: t0, token_1: t1 }
    }

    /// Pairwise difference modulo 2^256: the telescoping flip of an outside
    /// accumulator.
    pub fn wrapping_sub(&self, other: &Fee) -> (r: Fee)
        ensures
            r.token_0@ == wsub(self.token_0@, other.token_0@),
            r.token_1@ == wsub(self.token_1@, other.token_1@),
    {
        let t0 = self.token_0.wrapping_sub(&other.token_0);
        let t1 = self.token_1.wrapping_sub(&other.token_1);
        Fee { token_0: t0, token_1: t1 }
    }
}

/// The branching form of wrapping addition is addition modulo 2^256.
proof fn lemma_wadd_is_mod(a: nat, b: nat)
    requires
        a < p256(),
        b < p256(),
    ensures
        wadd(a, b) == (a + b) % p256(),
{
    if a + b < p256() {
        vstd::arithmetic::div_mod::lemma_small_mod(a + b, p256());
    } else {
        vstd::arithmetic::div_mod::lemma_mod_sub_multiples_vanish(
            (a + b) as int,
            p256() as int,
        );
        vstd::arithmetic::div_mod::lemma_small_mod((a + b - p256()) as nat, p256());
    }
}

} // verus!
