//! Square-root-price algebra: the price after adding or removing a token
//! amount, and the token amounts between two prices.
//!
//! Every function's contract equates its result with a spec-level mirror over
//! the mathematical integers, so the rounding direction of each path is pinned
//! exactly: amount0 computations round up, amount1 computations round down,
//! deltas round up when liquidity is added and down when it is removed.

use crate::error::Error;
use crate::fixed_point;
use crate::full_math::{
    ceil_div, div_rem_u256, lemma_ceil_div_le, lemma_ceil_div_le_self, mulDivRoundingUp, muldiv,
    unsafeDivRoundingUp,
};
use crate::i256::I256;
use crate::limbs::{p128, p160, p192, p224, p256, p96};
use crate::u160::U160;
use crate::u256::U256;
use crate::u512::full_mul;
use vstd::arithmetic::div_mod::{
    lemma_div_is_ordered, lemma_div_nonincreasing, lemma_multiply_divide_lt,
};
use vstd::arithmetic::mul::{lemma_mul_inequality, lemma_mul_upper_bound};
use vstd::prelude::*;

verus! {

/// liquidity scaled to Q96, the shared numerator of the amount0 formulas.
pub open spec fn numerator1_spec(l: nat) -> nat {
    l * p96()
}

/// The numerator stays well below 2^224 for any 128-bit liquidity.
proof fn lemma_numerator1_bound(l: nat)
    requires
        l < p128(),
    ensures
        numerator1_spec(l) < p224(),
{
    lemma_mul_upper_bound(l as int, (p128() - 1) as int, p96() as int, p96() as int);
}

/// The price after a token0 delta, always rounding up. The primary formula is
/// `ceil(n1 * p / (n1 +- amount * p))`; when adding, an overflowing numerator
/// or denominator falls back to `ceil(n1 / (n1 / p + amount))`; when
/// removing, an overflow is an error.
pub open spec fn next_from_amount0_spec(p: nat, l: nat, amt: nat, add: bool) -> Result<
    nat,
    Error,
> {
    if amt == 0 {
        Ok(p)
    } else {
        let n1 = numerator1_spec(l);
        let prod = amt * p;
        if add {
            if prod < p256() && n1 + prod < p256() {
                if n1 + prod == 0 {
                    Err(Error::DivisionByZero)
                } else {
                    let v = ceil_div(n1 * p, n1 + prod);
                    if v < p160() {
                        Ok(v)
                    } else {
                        Err(Error::Overflow)
                    }
                }
            } else {
                let d = n1 / p + amt;
                if d >= p256() {
                    Err(Error::Overflow)
                } else {
                    let v = ceil_div(n1, d);
                    if v < p160() {
                        Ok(v)
                    } else {
                        Err(Error::Overflow)
                    }
                }
            }
        } else {
            if prod < p256() && n1 > prod {
                let v = ceil_div(n1 * p, (n1 - prod) as nat);
                if v < p160() {
                    Ok(v)
                } else {
                    Err(Error::Overflow)
                }
            } else {
                Err(Error::Overflow)
            }
        }
    }
}

/// The price after a token1 delta, always rounding down: `p + floor(q)` when
/// adding and `p - ceil(q)` when removing, for `q = amount * Q96 / l`; the
/// removing branch fails when the quotient reaches the price.
pub open spec fn next_from_amount1_spec(p: nat, l: nat, amt: nat, add: bool) -> Result<
    nat,
    Error,
> {
    if add {
        let v = p + (amt * p96()) / l;
        if v < p160() {
            Ok(v)
        } else {
            Err(Error::Overflow)
        }
    } else {
        let q = ceil_div(amt * p96(), l);
        if q >= p {
            Err(Error::Overflow)
        } else {
            Ok((p - q) as nat)
        }
    }
}

/// The price after swapping in `amt` of token0 or token1: rounding keeps the
/// pool from sending too much output.
pub open spec fn next_from_input_spec(p: nat, l: nat, amt: nat, zero_for_one: bool) -> Result<
    nat,
    Error,
> {
    if p == 0 {
        Err(Error::PriceZero)
    } else if l == 0 {
        Err(Error::LiquidityZero)
    } else if zero_for_one {
        next_from_amount0_spec(p, l, amt, true)
    } else {
        next_from_amount1_spec(p, l, amt, true)
    }
}

/// The price after swapping out `amt` of token0 or token1: rounding keeps the
/// pool moving far enough to deliver the requested output.
pub open spec fn next_from_output_spec(p: nat, l: nat, amt: nat, zero_for_one: bool) -> Result<
    nat,
    Error,
> {
    if p == 0 {
        Err(Error::PriceZero)
    } else if l == 0 {
        Err(Error::LiquidityZero)
    } else if zero_for_one {
        next_from_amount1_spec(p, l, amt, false)
    } else {
        next_from_amount0_spec(p, l, amt, false)
    }
}

/// The amount of token0 covering a position of size `l` between two prices:
/// `n1 * (hi - lo) / hi / lo`, rounded up or down stage by stage.
pub open spec fn amount0_delta_spec(pa: nat, pb: nat, l: nat, round_up: bool) -> Result<
    nat,
    Error,
> {
    let lo = if pa <= pb {
        pa
    } else {
        pb
    };
    let hi = if pa <= pb {
        pb
    } else {
        pa
    };
    if lo == 0 {
        Err(Error::PriceZero)
    } else {
        let n1 = numerator1_spec(l);
        let n2 = (hi - lo) as nat;
        if round_up {
            Ok(ceil_div(ceil_div(n1 * n2, hi), lo))
        } else {
            Ok(((n1 * n2) / hi) / lo)
        }
    }
}

/// The amount of token1 covering a position of size `l` between two prices:
/// `l * (hi - lo) / Q96`, rounded up or down. It is total: no input fails.
pub open spec fn amount1_delta_spec(pa: nat, pb: nat, l: nat, round_up: bool) -> nat {
    let n2 = if pa <= pb {
        (pb - pa) as nat
    } else {
        (pa - pb) as nat
    };
    if round_up {
        ceil_div(l * n2, p96())
    } else {
        (l * n2) / p96()
    }
}

/// The signed token0 amount of a liquidity change: round-up and positive for
/// added liquidity, round-down and negated for removed liquidity.
pub open spec fn amount0_delta_signed_spec(pa: nat, pb: nat, l: int) -> Result<int, Error> {
    if l < 0 {
        match amount0_delta_spec(pa, pb, (-l) as nat, false) {
            Ok(v) => Ok(-(v as int)),
            Err(e) => Err(e),
        }
    } else {
        match amount0_delta_spec(pa, pb, l as nat, true) {
            Ok(v) => Ok(v as int),
            Err(e) => Err(e),
        }
    }
}

/// The signed token1 amount of a liquidity change, as for token0.
pub open spec fn amount1_delta_signed_spec(pa: nat, pb: nat, l: int) -> int {
    if l < 0 {
        -(amount1_delta_spec(pa, pb, (-l) as nat, false) as int)
    } else {
        amount1_delta_spec(pa, pb, l as nat, true) as int
    }
}

/// Gets the next sqrt price from a token0 delta, rounding up. A zero amount
/// short-circuits to the input price, since the general formula is not an
/// identity under rounding.
pub fn get_next_sqrt_price_from_amount0_rounding_up(
    sqrt_px96: U160,
    liquidity: u128,
    amount: U256,
    add: bool,
) -> (r: Result<U160, Error>)
    ensures
        ({
            let s = next_from_amount0_spec(sqrt_px96@, liquidity as nat, amount@, add);
            match r {
                Ok(v) => s == Ok::<nat, Error>(v@),
                Err(e) => s == Err::<nat, Error>(e),
            }
        }),
{
    if amount.is_zero() {
        return Ok(sqrt_px96);
    }
    let n1 = U256::from_u128(liquidity).shl96();
    let p = sqrt_px96.to_u256();
    proof {
        lemma_numerator1_bound(liquidity as nat);
    }
    let prod512 = full_mul(&amount, &p);
    if add {
        if prod512.fits_u256() {
            let product = prod512.to_u256();
            if let Some(denominator) = n1.checked_add(&product) {
                // primary formula, exact within 256 bits
                let v = match mulDivRoundingUp(&n1, &p, &denominator) {
                    Ok(v) => v,
                    Err(e) => {
                        return Err(e);
                    },
                };
                return match U160::try_from_u256(&v) {
                    Ok(w) => Ok(w),
                    Err(e) => Err(e),
                };
            }
        }
        // overflow fallback: liquidity / (liquidity / price + amount)
        proof {
            if sqrt_px96@ == 0 {
                assert(amount@ * sqrt_px96@ == 0) by (nonlinear_arith)
                    requires
                        sqrt_px96@ == 0,
                ;
            }
        }
        let (q, _rem) = div_rem_u256(&n1, &p);
        match q.checked_add(&amount) {
            Some(d) => {
                let v = match unsafeDivRoundingUp(&n1, &d) {
                    Ok(v) => v,
                    Err(e) => {
                        return Err(e);
                    },
                };
                match U160::try_from_u256(&v) {
                    Ok(w) => Ok(w),
                    Err(e) => Err(e),
                }
            },
            None => Err(Error::Overflow),
        }
    } else {
        // removing token0: the product must fit and leave the denominator
        // positive, else the price would overflow
        if prod512.fits_u256() {
            let product = prod512.to_u256();
            if product < n1 {
                let (denominator, _b) = n1.overflowing_sub(&product);
                let v = match mulDivRoundingUp(&n1, &p, &denominator) {
                    Ok(v) => v,
                    Err(e) => {
                        return Err(e);
                    },
                };
                match U160::try_from_u256(&v) {
                    Ok(w) => Ok(w),
                    Err(e) => Err(e),
                }
            } else {
                Err(Error::Overflow)
            }
        } else {
            Err(Error::Overflow)
        }
    }
}

/// Gets the next sqrt price from a token1 delta, rounding down; chooses a
/// shift-and-divide path when the amount fits in 160 bits and the full
/// mul-div path otherwise, both with the same mathematical value.
pub fn get_next_sqrt_price_from_amount1_rounding_down(
    sqrt_px96: U160,
    liquidity: u128,
    amount: U256,
    add: bool,
) -> (r: Result<U160, Error>)
    requires
        liquidity > 0,
    ensures
        ({
            let s = next_from_amount1_spec(sqrt_px96@, liquidity as nat, amount@, add);
            match r {
                Ok(v) => s == Ok::<nat, Error>(v@),
                Err(e) => s == Err::<nat, Error>(e),
            }
        }),
{
    let l256 = U256::from_u128(liquidity);
    let small = amount.w3 == 0 && amount.w2 < 0x1_0000_0000u64;
    proof {
        assert(small <==> amount@ < p160());
    }
    let p = sqrt_px96.to_u256();
    if add {
        let quotient: U256 = if small {
            let shifted = amount.shl96();
            let (q, _rem) = div_rem_u256(&shifted, &l256);
            q
        } else {
            match muldiv(&amount, &fixed_point::q96(), &l256) {
                Ok(v) => v,
                Err(_e) => {
                    // the quotient alone exceeds every 160-bit price
                    return Err(Error::Overflow);
                },
            }
        };
        match p.checked_add(&quotient) {
            Some(sum) => match U160::try_from_u256(&sum) {
                Ok(w) => Ok(w),
                Err(e) => Err(e),
            },
            None => Err(Error::Overflow),
        }
    } else {
        let quotient: U256 = if small {
            let shifted = amount.shl96();
            match unsafeDivRoundingUp(&shifted, &l256) {
                Ok(v) => v,
                Err(e) => {
                    return Err(e);
                },
            }
        } else {
            match mulDivRoundingUp(&amount, &fixed_point::q96(), &l256) {
                Ok(v) => v,
                Err(_e) => {
                    // the rounded-up quotient exceeds every 160-bit price
                    proof {
                        assert(ceil_div(amount@ * p96(), liquidity as nat) >= p256());
                    }
                    return Err(Error::Overflow);
                },
            }
        };
        // the price after removal must stay positive
        if p > quotient {
            let (diff, _b) = p.overflowing_sub(&quotient);
            match U160::try_from_u256(&diff) {
                Ok(w) => Ok(w),
                Err(e) => Err(e),
            }
        } else {
            Err(Error::Overflow)
        }
    }
}

/// Gets the next sqrt price given an input amount of token0 or token1,
/// rejecting a zero price or zero liquidity.
pub fn get_next_sqrt_price_from_input(
    sqrt_px96: U160,
    liquidity: u128,
    amount_in: U256,
    zero_for_one: bool,
) -> (r: Result<U160, Error>)
    ensures
        ({
            let s = next_from_input_spec(sqrt_px96@, liquidity as nat, amount_in@, zero_for_one);
            match r {
                Ok(v) => s == Ok::<nat, Error>(v@),
                Err(e) => s == Err::<nat, Error>(e),
            }
        }),
{
    if sqrt_px96.is_zero() {
        return Err(Error::PriceZero);
    }
    if liquidity == 0 {
        return Err(Error::LiquidityZero);
    }
    // round so that the target price is never passed
    if zero_for_one {
        get_next_sqrt_price_from_amount0_rounding_up(sqrt_px96, liquidity, amount_in, true)
    } else {
        get_next_sqrt_price_from_amount1_rounding_down(sqrt_px96, liquidity, amount_in, true)
    }
}

/// Gets the next sqrt price given an output amount of token0 or token1,
/// rejecting a zero price or zero liquidity.
pub fn get_next_sqrt_price_from_output(
    sqrt_px96: U160,
    liquidity: u128,
    amount_out: U256,
    zero_for_one: bool,
) -> (r: Result<U160, Error>)
    ensures
        ({
            let s = next_from_output_spec(sqrt_px96@, liquidity as nat, amount_out@, zero_for_one);
            match r {
                Ok(v) => s == Ok::<nat, Error>(v@),
                Err(e) => s == Err::<nat, Error>(e),
            }
        }),
{
    if sqrt_px96.is_zero() {
        return Err(Error::PriceZero);
    }
    if liquidity == 0 {
        return Err(Error::LiquidityZero);
    }
    // round so that the target price is always passed
    if zero_for_one {
        get_next_sqrt_price_from_amount1_rounding_down(sqrt_px96, liquidity, amount_out, false)
    } else {
        get_next_sqrt_price_from_amount0_rounding_up(sqrt_px96, liquidity, amount_out, false)
    }
}

/// The token0 delta of the round-up stage never exceeds the Q96 numerator.
proof fn lemma_amount0_delta_bounds(lo: nat, hi: nat, n1: nat)
    requires
        0 < lo <= hi,
        hi < p160(),
        n1 < p224(),
    ensures
        ceil_div(n1 * ((hi - lo) as nat), hi) <= n1,
        ceil_div(ceil_div(n1 * ((hi - lo) as nat), hi), lo) <= n1,
        ((n1 * ((hi - lo) as nat)) / hi) / lo <= n1,
{
    let n2 = (hi - lo) as nat;
    lemma_mul_inequality(n2 as int, hi as int, n1 as int);
    assert(n2 * n1 == n1 * n2) by (nonlinear_arith);
    assert(hi * n1 == n1 * hi) by (nonlinear_arith);
    lemma_ceil_div_le(n1 * n2, hi, n1);
    lemma_ceil_div_le_self(ceil_div(n1 * n2, hi), lo);
    lemma_div_is_ordered((n1 * n2) as int, (n1 * hi) as int, hi as int);
    vstd::arithmetic::div_mod::lemma_div_multiples_vanish(n1 as int, hi as int);
    lemma_div_nonincreasing(((n1 * n2) / hi) as int, lo as int);
}

/// Gets the amount of token0 between two prices, order-normalized; rounds up
/// when liquidity is being added and down when it is being removed. Two equal
/// positive prices yield zero.
#[verifier::rlimit(100)]
pub fn get_amount0_delta_helper(
    sqrt_ratio_ax96: U160,
    sqrt_ratio_bx96: U160,
    liquidity: u128,
    round_up: bool,
) -> (r: Result<U256, Error>)
    ensures
        ({
            let s = amount0_delta_spec(sqrt_ratio_ax96@, sqrt_ratio_bx96@, liquidity as nat,
                round_up);
            match r {
                Ok(v) => s == Ok::<nat, Error>(v@) && v@ <= numerator1_spec(liquidity as nat) && (
                sqrt_ratio_ax96@ == sqrt_ratio_bx96@ ==> v@ == 0),
                Err(e) => s == Err::<nat, Error>(e),
            }
        }),
{
    let (lo, hi) = if sqrt_ratio_ax96 > sqrt_ratio_bx96 {
        (sqrt_ratio_bx96, sqrt_ratio_ax96)
    } else {
        (sqrt_ratio_ax96, sqrt_ratio_bx96)
    };
    let n1 = U256::from_u128(liquidity).shl96();
    let hi256 = hi.to_u256();
    let lo256 = lo.to_u256();
    let (n2, _b) = hi256.overflowing_sub(&lo256);
    if lo.is_zero() {
        return Err(Error::PriceZero);
    }
    proof {
        lemma_numerator1_bound(liquidity as nat);
        crate::u160::lemma_u160_range(hi);
        lemma_amount0_delta_bounds(lo@, hi@, n1@);
        if lo@ == hi@ {
            assert(n1@ * 0nat == 0) by (nonlinear_arith);
        }
    }
    let v = if round_up {
        amount0_delta_round_up(&n1, &n2, &hi256, &lo256)
    } else {
        amount0_delta_round_down(&n1, &n2, &hi256, &lo256)
    };
    proof {
        if lo@ == hi@ {
            assert(ceil_div(0, hi@) == 0);
            assert(ceil_div(0, lo@) == 0);
            assert((0nat / hi@) / lo@ == 0);
        }
    }
    Ok(v)
}

/// The round-up stage of the token0 delta; the intermediate quotients always
/// fit because the price difference stays below the higher price.
fn amount0_delta_round_up(n1: &U256, n2: &U256, hi: &U256, lo: &U256) -> (v: U256)
    requires
        0 < lo@ <= hi@,
        hi@ < p160(),
        n1@ < p224(),
        n2@ == hi@ - lo@,
    ensures
        v@ == ceil_div(ceil_div(n1@ * n2@, hi@), lo@),
        v@ <= n1@,
{
    proof {
        lemma_amount0_delta_bounds(lo@, hi@, n1@);
    }
    let x = match mulDivRoundingUp(n1, n2, hi) {
        Ok(v) => v,
        Err(_e) => {
            // unreachable: the rounded-up quotient is bounded by n1 < 2^224
            return U256::zero();
        },
    };
    match unsafeDivRoundingUp(&x, lo) {
        Ok(v) => v,
        Err(_e) => {
            // unreachable: lo is positive
            U256::zero()
        },
    }
}

/// The round-down stage of the token0 delta.
fn amount0_delta_round_down(n1: &U256, n2: &U256, hi: &U256, lo: &U256) -> (v: U256)
    requires
        0 < lo@ <= hi@,
        hi@ < p160(),
        n1@ < p224(),
        n2@ == hi@ - lo@,
    ensures
        v@ == ((n1@ * n2@) / hi@) / lo@,
        v@ <= n1@,
{
    proof {
        lemma_amount0_delta_bounds(lo@, hi@, n1@);
    }
    let x = match muldiv(n1, n2, hi) {
        Ok(v) => v,
        Err(_e) => {
            // unreachable: the quotient is bounded by n1 < 2^224
            return U256::zero();
        },
    };
    let (q, _rem) = div_rem_u256(&x, lo);
    q
}

/// The token1 delta always fits: it stays below 2^192.
proof fn lemma_amount1_delta_bounds(l: nat, n2: nat)
    requires
        l < p128(),
        n2 < p160(),
    ensures
        ceil_div(l * n2, p96()) <= p192(),
        (l * n2) / p96() <= p192(),
{
    lemma_mul_upper_bound(l as int, (p128() - 1) as int, n2 as int, (p160() - 1) as int);
    assert((p128() - 1) * (p160() - 1) < p96() * p192()) by (nonlinear_arith);
    lemma_multiply_divide_lt((l * n2) as int, p96() as int, p192() as int);
    lemma_ceil_div_le(l * n2, p96(), p192());
}

/// Gets the amount of token1 between two prices, order-normalized; rounds up
/// when liquidity is being added and down when it is being removed. The
/// result always fits, so no input fails.
pub fn get_amount1_delta_helper(
    sqrt_ratio_ax96: U160,
    sqrt_ratio_bx96: U160,
    liquidity: u128,
    round_up: bool,
) -> (r: Result<U256, Error>)
    ensures
        ({
            let s = amount1_delta_spec(sqrt_ratio_ax96@, sqrt_ratio_bx96@, liquidity as nat,
                round_up);
            match r {
                Ok(v) => v@ == s && v@ <= p192(),
                Err(_e) => false,
            }
        }),
{
    let (lo, hi) = if sqrt_ratio_ax96 > sqrt_ratio_bx96 {
        (sqrt_ratio_bx96, sqrt_ratio_ax96)
    } else {
        (sqrt_ratio_ax96, sqrt_ratio_bx96)
    };
    let l256 = U256::from_u128(liquidity);
    let hi256 = hi.to_u256();
    let lo256 = lo.to_u256();
    let (n2, _b) = hi256.overflowing_sub(&lo256);
    proof {
        crate::u160::lemma_u160_range(hi);
        lemma_amount1_delta_bounds(liquidity as nat, n2@);
    }
    if round_up {
        match mulDivRoundingUp(&l256, &n2, &fixed_point::q96()) {
            Ok(v) => Ok(v),
            Err(e) => Err(e),
        }
    } else {
        match muldiv(&l256, &n2, &fixed_point::q96()) {
            Ok(v) => Ok(v),
            Err(e) => Err(e),
        }
    }
}

/// The magnitude of a negative i128 as a u128; the most negative value still
/// fits.
fn neg_magnitude(x: i128) -> (r: u128)
    requires
        x < 0,
    ensures
        r == -(x as int),
{
    ((-1 - x) as u128) + 1
}

/// Gets the signed token0 delta: the round-up amount unchanged for
/// non-negative liquidity, the round-down amount negated for negative
/// liquidity, so a position opened and closed never over-returns.
pub fn get_amount0_delta(sqrt_ratio_ax96: U160, sqrt_ratio_bx96: U160, liquidity: i128) -> (r:
    Result<I256, Error>)
    ensures
        ({
            let s = amount0_delta_signed_spec(sqrt_ratio_ax96@, sqrt_ratio_bx96@,
                liquidity as int);
            match r {
                Ok(v) => s == Ok::<int, Error>(v@),
                Err(e) => s == Err::<int, Error>(e),
            }
        }),
{
    proof {
        lemma_numerator1_bound(
            if liquidity < 0 {
                (-(liquidity as int)) as nat
            } else {
                liquidity as nat
            },
        );
    }
    if liquidity < 0 {
        let mag = neg_magnitude(liquidity);
        match get_amount0_delta_helper(sqrt_ratio_ax96, sqrt_ratio_bx96, mag, false) {
            Ok(v) => match I256::neg_from_u256(&v) {
                Ok(w) => Ok(w),
                Err(e) => Err(e),
            },
            Err(e) => Err(e),
        }
    } else {
        match get_amount0_delta_helper(sqrt_ratio_ax96, sqrt_ratio_bx96, liquidity as u128, true) {
            Ok(v) => match I256::try_from_u256(&v) {
                Ok(w) => Ok(w),
                Err(e) => Err(e),
            },
            Err(e) => Err(e),
        }
    }
}

/// Gets the signed token1 delta, as for token0.
pub fn get_amount1_delta(sqrt_ratio_ax96: U160, sqrt_ratio_bx96: U160, liquidity: i128) -> (r:
    Result<I256, Error>)
    ensures
        ({
            let s = amount1_delta_signed_spec(sqrt_ratio_ax96@, sqrt_ratio_bx96@,
                liquidity as int);
            match r {
                Ok(v) => v@ == s,
                Err(_e) => false,
            }
        }),
{
    if liquidity < 0 {
        let mag = neg_magnitude(liquidity);
        match get_amount1_delta_helper(sqrt_ratio_ax96, sqrt_ratio_bx96, mag, false) {
            Ok(v) => match I256::neg_from_u256(&v) {
                Ok(w) => Ok(w),
                Err(e) => Err(e),
            },
            Err(e) => Err(e),
        }
    } else {
        match get_amount1_delta_helper(sqrt_ratio_ax96, sqrt_ratio_bx96, liquidity as u128, true) {
            Ok(v) => match I256::try_from_u256(&v) {
                Ok(w) => Ok(w),
                Err(e) => Err(e),
            },
            Err(e) => Err(e),
        }
    }
}

/// Law: the zero-amount identity. Moving the price by a zero token0 amount
/// returns the input price exactly, for every price, liquidity and direction.
pub proof fn lemma_next_from_amount0_zero(p: nat, l: nat, add: bool)
    ensures
        next_from_amount0_spec(p, l, 0, add) == Ok::<nat, Error>(p),
{
}

/// Law: the token0 delta between equal positive prices is zero, whichever
/// way it rounds.
pub proof fn lemma_amount0_delta_equal_prices(p: nat, l: nat, round_up: bool)
    requires
        p > 0,
    ensures
        amount0_delta_spec(p, p, l, round_up) == Ok::<nat, Error>(0nat),
{
    let n1 = numerator1_spec(l);
    assert(n1 * 0nat == 0) by (nonlinear_arith);
}

/// Law: a token1 addition never lowers the price, and a larger added amount
/// never yields a smaller price.
pub proof fn lemma_next_from_amount1_add_monotonic(p: nat, l: nat, a1: nat, a2: nat)
    requires
        l > 0,
        a1 <= a2,
    ensures
        p + (a1 * p96()) / l <= p + (a2 * p96()) / l,
        next_from_amount1_spec(p, l, a1, true) matches Ok(v1) ==> v1 >= p,
        next_from_amount1_spec(p, l, a1, true) matches Ok(v1) ==> next_from_amount1_spec(
            p,
            l,
            a2,
            true,
        ) matches Ok(v2) ==> v1 <= v2,
{
    lemma_mul_inequality(a1 as int, a2 as int, p96() as int);
    lemma_div_is_ordered((a1 * p96()) as int, (a2 * p96()) as int, l as int);
}

/// Law: the pure quotes are functions of their inputs alone: two results of
/// the same quote on identical inputs are identical.
pub proof fn lemma_quote_deterministic(p: nat, l: nat, amt: nat, zero_for_one: bool, v1: nat, v2: nat)
    requires
        next_from_input_spec(p, l, amt, zero_for_one) == Ok::<nat, Error>(v1),
        next_from_input_spec(p, l, amt, zero_for_one) == Ok::<nat, Error>(v2),
    ensures
        v1 == v2,
{
}

/// Law: a token1 removal never raises the price; a larger removed amount
/// never yields a larger price; and a quotient that reaches the price fails
/// rather than wrapping.
pub proof fn lemma_next_from_amount1_sub_monotonic(p: nat, l: nat, a1: nat, a2: nat)
    requires
        l > 0,
        a1 <= a2,
    ensures
        next_from_amount1_spec(p, l, a1, false) matches Ok(v1) ==> v1 <= p,
        ceil_div(a1 * p96(), l) >= p ==> next_from_amount1_spec(p, l, a1, false) == Err::<
            nat,
            Error,
        >(Error::Overflow),
        next_from_amount1_spec(p, l, a2, false) matches Ok(v2) ==> next_from_amount1_spec(
            p,
            l,
            a1,
            false,
        ) matches Ok(v1) && v2 <= v1,
{
    lemma_mul_inequality(a1 as int, a2 as int, p96() as int);
    crate::full_math::lemma_ceil_div_monotonic(a1 * p96(), a2 * p96(), l);
}

} // verus!
