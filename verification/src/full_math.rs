//! Full-precision multiply-divide: the product is taken at 512-bit width and
//! only the final quotient must fit back into 256 bits.

use crate::error::Error;
use crate::limbs::p256;
use crate::u256::U256;
use crate::u512::{div_rem_wide, full_mul, U512};
use vstd::arithmetic::div_mod::{
    lemma_div_is_ordered_by_denominator, lemma_div_nonincreasing, lemma_fundamental_div_mod,
};
use vstd::prelude::*;

verus! {

/// The quotient rounded toward positive infinity.
pub open spec fn ceil_div(a: nat, b: nat) -> nat {
    a / b + if a % b > 0 {
        1nat
    } else {
        0nat
    }
}

/// floor(a*b / d) over the mathematical integers.
pub open spec fn mul_div_spec(a: nat, b: nat, d: nat) -> nat {
    (a * b) / d
}

/// (a*b) mod d over the mathematical integers.
pub open spec fn mul_mod_spec(a: nat, b: nat, d: nat) -> nat {
    (a * b) % d
}

/// ceil(a*b / d) over the mathematical integers.
pub open spec fn mul_div_rounding_up_spec(a: nat, b: nat, d: nat) -> nat {
    ceil_div(a * b, d)
}

/// (a*b) mod modulus at full precision; fails only on a zero modulus.
pub fn mulmod(a: &U256, b: &U256, modulus: &U256) -> (r: Result<U256, Error>)
    ensures
        match r {
            Ok(v) => modulus@ > 0 && v@ == mul_mod_spec(a@, b@, modulus@),
            Err(e) => modulus@ == 0 && e == Error::DivisionByZero,
        },
{
    if modulus.is_zero() {
        return Err(Error::DivisionByZero);
    }
    let p = full_mul(a, b);
    let (_q, rem) = div_rem_wide(&p, modulus);
    Ok(rem)
}

/// floor(a*b / div) at full precision; fails on a zero divisor and when the
/// quotient does not fit in 256 bits.
pub fn muldiv(a: &U256, b: &U256, div: &U256) -> (r: Result<U256, Error>)
    ensures
        match r {
            Ok(v) => div@ > 0 && mul_div_spec(a@, b@, div@) < p256() && v@ == mul_div_spec(
                a@,
                b@,
                div@,
            ),
            Err(e) => (div@ == 0 && e == Error::DivisionByZero) || (div@ > 0 && mul_div_spec(
                a@,
                b@,
                div@,
            ) >= p256() && e == Error::Overflow),
        },
{
    if div.is_zero() {
        return Err(Error::DivisionByZero);
    }
    let p = full_mul(a, b);
    let (q, _rem) = div_rem_wide(&p, div);
    if q.fits_u256() {
        Ok(q.to_u256())
    } else {
        Err(Error::Overflow)
    }
}

/// ceil(a*b / denominator) at full precision; fails on a zero denominator and
/// when the rounded-up quotient does not fit in 256 bits.
pub fn mulDivRoundingUp(a: &U256, b: &U256, denominator: &U256) -> (r: Result<U256, Error>)
    ensures
        match r {
            Ok(v) => denominator@ > 0 && mul_div_rounding_up_spec(a@, b@, denominator@)
                < p256() && v@ == mul_div_rounding_up_spec(a@, b@, denominator@),
            Err(e) => (denominator@ == 0 && e == Error::DivisionByZero) || (denominator@ > 0
                && mul_div_rounding_up_spec(a@, b@, denominator@) >= p256() && e
                == Error::Overflow),
        },
{
    let result = match muldiv(a, b, denominator) {
        Ok(v) => v,
        Err(e) => {
            return Err(e);
        },
    };
    let rem = match mulmod(a, b, denominator) {
        Ok(v) => v,
        Err(e) => {
            return Err(e);
        },
    };
    if !rem.is_zero() {
        let one = U256::from_u64(1);
        match result.checked_add(&one) {
            Some(v) => Ok(v),
            None => Err(Error::Overflow),
        }
    } else {
        Ok(result)
    }
}

/// ceil(x / y); fails only on a zero divisor, since the rounded-up quotient
/// of a 256-bit value always fits.
pub fn unsafeDivRoundingUp(x: &U256, y: &U256) -> (r: Result<U256, Error>)
    ensures
        match r {
            Ok(v) => y@ > 0 && v@ == ceil_div(x@, y@),
            Err(e) => y@ == 0 && e == Error::DivisionByZero,
        },
{
    if y.is_zero() {
        return Err(Error::DivisionByZero);
    }
    let n = U512::from_u256(x);
    let (q, rem) = div_rem_wide(&n, y);
    proof {
        lemma_div_nonincreasing(x@ as int, y@ as int);
    }
    let q256 = q.to_u256();
    if rem.is_zero() {
        Ok(q256)
    } else {
        proof {
            lemma_fundamental_div_mod(x@ as int, y@ as int);
            assert(y@ >= 2) by {
                if y@ == 1 {
                    assert(x@ % 1 == 0) by (nonlinear_arith);
                }
            }
            assert(x@ / y@ + 1 < p256()) by (nonlinear_arith)
                requires
                    x@ == y@ * (x@ / y@) + x@ % y@,
                    x@ % y@ >= 1,
                    y@ >= 2,
                    x@ < p256(),
                    x@ / y@ >= 0,
            ;
        }
        let one = U256::from_u64(1);
        let (s, _o) = q256.overflowing_add(&one);
        Ok(s)
    }
}

/// Quotient and remainder of two 256-bit values.
pub fn div_rem_u256(a: &U256, d: &U256) -> (r: (U256, U256))
    requires
        d@ > 0,
    ensures
        r.0@ == a@ / d@,
        r.1@ == a@ % d@,
{
    let n = U512::from_u256(a);
    let (q, rem) = div_rem_wide(&n, d);
    proof {
        lemma_div_nonincreasing(a@ as int, d@ as int);
    }
    (q.to_u256(), rem)
}

/// A rounded-up quotient is bounded by any value whose product with the
/// divisor covers the dividend.
pub proof fn lemma_ceil_div_le(x: nat, y: nat, c: nat)
    requires
        y > 0,
        x <= y * c,
    ensures
        ceil_div(x, y) <= c,
{
    lemma_fundamental_div_mod(x as int, y as int);
    if x % y > 0 {
        assert(x / y < c) by (nonlinear_arith)
            requires
                x == y * (x / y) + x % y,
                x % y > 0,
                x <= y * c,
                y > 0,
        ;
    } else {
        assert(x / y <= c) by (nonlinear_arith)
            requires
                x == y * (x / y) + x % y,
                x % y == 0,
                x <= y * c,
                y > 0,
        ;
    }
}

/// A rounded-up quotient never exceeds the dividend.
pub proof fn lemma_ceil_div_le_self(x: nat, y: nat)
    requires
        y > 0,
    ensures
        ceil_div(x, y) <= x,
{
    lemma_fundamental_div_mod(x as int, y as int);
    lemma_div_nonincreasing(x as int, y as int);
    if x % y > 0 {
        assert(y >= 2) by {
            if y == 1 {
                assert(x % 1 == 0) by (nonlinear_arith);
            }
        }
        assert(x / y + 1 <= x) by (nonlinear_arith)
            requires
                x == y * (x / y) + x % y,
                x % y >= 1,
                y >= 2,
                x / y >= 0,
        ;
    }
}

/// A rounded-up quotient exceeds any value whose product with the divisor
/// falls short of the dividend.
pub proof fn lemma_ceil_div_gt(x: nat, y: nat, c: nat)
    requires
        y > 0,
        x > y * c,
    ensures
        ceil_div(x, y) > c,
{
    lemma_fundamental_div_mod(x as int, y as int);
    if x / y < c {
        assert(false) by (nonlinear_arith)
            requires
                x == y * (x / y) + x % y,
                x % y < y,
                x / y < c,
                x > y * c,
                y > 0,
        ;
    }
    if x / y == c {
        assert(x % y > 0) by (nonlinear_arith)
            requires
                x == y * (x / y) + x % y,
                x / y == c,
                x > y * c,
                y > 0,
        ;
    }
}

/// A rounded-up quotient is monotone in the dividend.
pub proof fn lemma_ceil_div_monotonic(x1: nat, x2: nat, y: nat)
    requires
        y > 0,
        x1 <= x2,
    ensures
        ceil_div(x1, y) <= ceil_div(x2, y),
{
    lemma_fundamental_div_mod(x1 as int, y as int);
    lemma_fundamental_div_mod(x2 as int, y as int);
    vstd::arithmetic::div_mod::lemma_div_is_ordered(x1 as int, x2 as int, y as int);
    if x1 / y == x2 / y && x1 % y > 0 {
        assert(y * (x1 / y) == y * (x2 / y));
        assert(x2 % y > 0);
    }
}

/// Law: rounding up changes the quotient by at most one, and by exactly one
/// precisely when the full-precision product leaves a remainder.
pub proof fn lemma_mul_div_rounding_up(a: nat, b: nat, d: nat)
    requires
        d > 0,
    ensures
        mul_div_spec(a, b, d) <= mul_div_rounding_up_spec(a, b, d),
        mul_div_rounding_up_spec(a, b, d) - mul_div_spec(a, b, d) <= 1,
        mul_div_rounding_up_spec(a, b, d) == mul_div_spec(a, b, d) + 1 <==> mul_mod_spec(
            a,
            b,
            d,
        ) > 0,
{
    if mul_mod_spec(a, b, d) > 0 {
        assert(mul_div_rounding_up_spec(a, b, d) == mul_div_spec(a, b, d) + 1);
    } else {
        assert(mul_div_rounding_up_spec(a, b, d) == mul_div_spec(a, b, d));
    }
}

/// Law: the floor quotient and the remainder reassemble the exact product:
/// `a*b == mul_div(a,b,d) * d + mul_mod(a,b,d)` for every positive d.
pub proof fn lemma_mul_div_mod_roundtrip(a: nat, b: nat, d: nat)
    requires
        d > 0,
    ensures
        a * b == mul_div_spec(a, b, d) * d + mul_mod_spec(a, b, d),
{
    lemma_fundamental_div_mod((a * b) as int, d as int);
    assert((d as int) * (((a * b) as int) / (d as int)) == (((a * b) as int) / (d as int)) * (
    d as int)) by (nonlinear_arith);
}

} // verus!
