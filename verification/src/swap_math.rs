//! One step of a swap: given the current price, a bounding target price, the
//! usable liquidity, the signed remaining amount and the fee rate, compute
//! the next price, the amounts exchanged and the fee charged.
//!
//! The computation is a pure function of its inputs; its contract equates the
//! result with a spec-level mirror, and states the facts the swap loop lives
//! on: the next price stays between the current price and the target, an
//! exact-input step never charges more than the remaining amount and consumes
//! it exactly when the target is not reached, and an exact-output step never
//! delivers more than requested and always moves the price when it falls
//! short mid-step.

use crate::error::Error;
use crate::full_math::{ceil_div, lemma_ceil_div_gt, mulDivRoundingUp, muldiv};
use crate::i256::I256;
use crate::limbs::{p256, p96};
use crate::sqrt_price_math::{
    amount0_delta_spec, amount1_delta_spec, get_amount0_delta_helper, get_amount1_delta_helper,
    get_next_sqrt_price_from_input, get_next_sqrt_price_from_output, next_from_input_spec,
    next_from_output_spec, numerator1_spec,
};
use crate::u160::{lemma_u160_unique, U160};
use crate::u256::U256;
use vstd::arithmetic::div_mod::lemma_fundamental_div_mod;
use vstd::prelude::*;

verus! {

/// The outcome of one swap step.
#[derive(Clone, Copy, Debug, PartialEq, Eq, Structural)]
pub struct ComputeSwapStepReturn {
    /// the price after this step, never past the target
    pub sqrtRatioNextX96: U160,
    /// the input-token amount consumed by this step, fee excluded
    pub amount_in: U256,
    /// the output-token amount delivered by this step
    pub amount_out: U256,
    /// the input-token amount charged as fee
    pub feeAmount: U256,
}

/// The input amount needed to move the price from `cur` to `next`, always
/// rounded up.
pub open spec fn swap_in_to(cur: nat, next: nat, l: nat, zfo: bool) -> Result<nat, Error> {
    if zfo {
        amount0_delta_spec(next, cur, l, true)
    } else {
        Ok(amount1_delta_spec(cur, next, l, true))
    }
}

/// The output amount obtained by moving the price from `cur` to `next`,
/// always rounded down.
pub open spec fn swap_out_to(cur: nat, next: nat, l: nat, zfo: bool) -> Result<nat, Error> {
    if zfo {
        Ok(amount1_delta_spec(next, cur, l, false))
    } else {
        amount0_delta_spec(cur, next, l, false)
    }
}

/// Whether a computed next price leaves the interval between the current
/// price and the target; such a result is rejected rather than used.
pub open spec fn overshoots(cur: nat, target: nat, next: nat, zfo: bool) -> bool {
    if zfo {
        next < target || next > cur
    } else {
        next > target || next < cur
    }
}

/// The mirror of one swap step over the mathematical integers: the next
/// price, amount in, amount out and fee, or the error of the stage that
/// failed. Kept opaque: callers reason through the function that computes it.
#[verifier::opaque]
pub open spec fn compute_swap_step_spec(
    cur: nat,
    target: nat,
    l: nat,
    rem: int,
    fee_pips: nat,
) -> Result<(nat, nat, nat, nat), Error> {
    let zfo = cur >= target;
    if rem >= 0 {
        // exact input: work with the fee-deducted remainder
        let rlf = ((rem as nat) * ((1000000 - fee_pips) as nat)) / 1000000;
        match swap_in_to(cur, target, l, zfo) {
            Err(e) => Err(e),
            Ok(in_t) => {
                let next_r: Result<nat, Error> = if rlf >= in_t {
                    Ok(target)
                } else {
                    next_from_input_spec(cur, l, rlf, zfo)
                };
                match next_r {
                    Err(e) => Err(e),
                    Ok(next) => {
                        if overshoots(cur, target, next, zfo) {
                            Err(Error::PriceOvershoot)
                        } else {
                            let in_r = if next == target {
                                Ok(in_t)
                            } else {
                                swap_in_to(cur, next, l, zfo)
                            };
                            match in_r {
                                Err(e) => Err(e),
                                Ok(amount_in) => match swap_out_to(cur, next, l, zfo) {
                                    Err(e) => Err(e),
                                    Ok(amount_out) => {
                                        if next != target {
                                            // the whole shortfall becomes fee
                                            if amount_in > rem {
                                                Err(Error::Overflow)
                                            } else {
                                                Ok(
                                                    (
                                                        next,
                                                        amount_in,
                                                        amount_out,
                                                        (rem - amount_in) as nat,
                                                    ),
                                                )
                                            }
                                        } else {
                                            if fee_pips == 1000000 {
                                                Err(Error::DivisionByZero)
                                            } else {
                                                let fee = ceil_div(
                                                    amount_in * fee_pips,
                                                    (1000000 - fee_pips) as nat,
                                                );
                                                if fee >= p256() {
                                                    Err(Error::Overflow)
                                                } else if amount_in + fee > rem {
                                                    Err(Error::Overflow)
                                                } else {
                                                    Ok((next, amount_in, amount_out, fee))
                                                }
                                            }
                                        }
                                    },
                                },
                            }
                        }
                    },
                }
            },
        }
    } else {
        // exact output
        let out_mag = (-rem) as nat;
        match swap_out_to(cur, target, l, zfo) {
            Err(e) => Err(e),
            Ok(out_t) => {
                let next_r: Result<nat, Error> = if out_mag >= out_t {
                    Ok(target)
                } else {
                    next_from_output_spec(cur, l, out_mag, zfo)
                };
                match next_r {
                    Err(e) => Err(e),
                    Ok(next) => {
                        if overshoots(cur, target, next, zfo) {
                            Err(Error::PriceOvershoot)
                        } else {
                            match swap_in_to(cur, next, l, zfo) {
                                Err(e) => Err(e),
                                Ok(amount_in) => {
                                    let out_r = if next == target {
                                        Ok(out_t)
                                    } else {
                                        swap_out_to(cur, next, l, zfo)
                                    };
                                    match out_r {
                                        Err(e) => Err(e),
                                        Ok(out_u) => {
                                            // never deliver more than requested
                                            let amount_out = if out_u > out_mag {
                                                out_mag
                                            } else {
                                                out_u
                                            };
                                            if fee_pips == 1000000 {
                                                Err(Error::DivisionByZero)
                                            } else {
                                                let fee = ceil_div(
                                                    amount_in * fee_pips,
                                                    (1000000 - fee_pips) as nat,
                                                );
                                                if fee >= p256() {
                                                    Err(Error::Overflow)
                                                } else {
                                                    Ok((next, amount_in, amount_out, fee))
                                                }
                                            }
                                        },
                                    }
                                },
                            }
                        }
                    },
                }
            },
        }
    }
}

/// Computes the result of swapping some amount in or out, given the
/// parameters of the swap; the direction is inferred from the target lying
/// at or below the current price. The fee plus the amount in never exceed
/// the remaining amount when the swap is exact-input.
#[verifier::rlimit(100)]
pub fn computeSwapStep(
    sqrtRatioCurrentX96: U160,
    sqrtRatioTargetX96: U160,
    liquidity: u128,
    amountRemaining: I256,
    feePips: u32,
) -> (r: Result<ComputeSwapStepReturn, Error>)
    requires
        feePips <= 1000000,
    ensures
        ({
            let s = compute_swap_step_spec(
                sqrtRatioCurrentX96@,
                sqrtRatioTargetX96@,
                liquidity as nat,
                amountRemaining@,
                feePips as nat,
            );
            match r {
                Ok(v) => s == Ok::<(nat, nat, nat, nat), Error>(
                    (v.sqrtRatioNextX96@, v.amount_in@, v.amount_out@, v.feeAmount@),
                ),
                Err(e) => s == Err::<(nat, nat, nat, nat), Error>(e),
            }
        }),
        r matches Ok(v) ==> {
            let cur = sqrtRatioCurrentX96@;
            let target = sqrtRatioTargetX96@;
            let next = v.sqrtRatioNextX96@;
            &&& (cur >= target ==> target <= next <= cur)
            &&& (cur < target ==> cur <= next <= target)
            &&& (amountRemaining@ >= 0 ==> v.amount_in@ + v.feeAmount@ <= amountRemaining@ && (
            next != target ==> v.amount_in@ + v.feeAmount@ == amountRemaining@))
            &&& (amountRemaining@ < 0 ==> v.amount_out@ <= -amountRemaining@ && (next != target
                && v.amount_out@ < -amountRemaining@ ==> (cur >= target ==> next < cur) && (cur
                < target ==> next > cur)))
        },
        r matches Err(e) ==> e != Error::AmountZero && e != Error::InvalidPriceLimit && e
            != Error::NoLiquidity && e != Error::TickNotFound && e != Error::TickOutOfRange,
{
    proof {
        reveal(compute_swap_step_spec);
    }
    let zero_for_one = sqrtRatioCurrentX96 >= sqrtRatioTargetX96;
    let exact_in = !amountRemaining.is_negative();
    let mag = amountRemaining.abs_u256();
    let fee_factor = U256::from_u64((1000000 - feePips) as u64);
    let million = U256::from_u64(1000000);
    let fee_u = U256::from_u64(feePips as u64);
    proof {
        lemma_u160_unique(sqrtRatioCurrentX96, sqrtRatioTargetX96);
    }
    if exact_in {
        proof {
            assert(mag@ * fee_factor@ <= 1000000 * mag@) by (nonlinear_arith)
                requires
                    fee_factor@ <= 1000000,
                    mag@ >= 0,
            ;
            vstd::arithmetic::div_mod::lemma_multiply_divide_le(
                (mag@ * fee_factor@) as int,
                1000000,
                mag@ as int,
            );
        }
        let amount_remaining_less_fee = match muldiv(&mag, &fee_factor, &million) {
            Ok(v) => v,
            Err(e) => {
                return Err(e);
            },
        };
        let amount_in_t = if zero_for_one {
            match get_amount0_delta_helper(sqrtRatioTargetX96, sqrtRatioCurrentX96, liquidity,
                true) {
                Ok(v) => v,
                Err(e) => {
                    return Err(e);
                },
            }
        } else {
            match get_amount1_delta_helper(sqrtRatioCurrentX96, sqrtRatioTargetX96, liquidity,
                true) {
                Ok(v) => v,
                Err(e) => {
                    return Err(e);
                },
            }
        };
        let next: U160 = if amount_remaining_less_fee >= amount_in_t {
            sqrtRatioTargetX96
        } else {
            match get_next_sqrt_price_from_input(
                sqrtRatioCurrentX96,
                liquidity,
                amount_remaining_less_fee,
                zero_for_one,
            ) {
                Ok(v) => v,
                Err(e) => {
                    return Err(e);
                },
            }
        };
        proof {
            lemma_u160_unique(next, sqrtRatioTargetX96);
        }
        if zero_for_one {
            if next < sqrtRatioTargetX96 || next > sqrtRatioCurrentX96 {
                return Err(Error::PriceOvershoot);
            }
        } else {
            if next > sqrtRatioTargetX96 || next < sqrtRatioCurrentX96 {
                return Err(Error::PriceOvershoot);
            }
        }
        let max = next == sqrtRatioTargetX96;
        let amount_in = if max {
            amount_in_t
        } else {
            if zero_for_one {
                match get_amount0_delta_helper(next, sqrtRatioCurrentX96, liquidity, true) {
                    Ok(v) => v,
                    Err(e) => {
                        return Err(e);
                    },
                }
            } else {
                match get_amount1_delta_helper(sqrtRatioCurrentX96, next, liquidity, true) {
                    Ok(v) => v,
                    Err(e) => {
                        return Err(e);
                    },
                }
            }
        };
        let amount_out = if zero_for_one {
            match get_amount1_delta_helper(next, sqrtRatioCurrentX96, liquidity, false) {
                Ok(v) => v,
                Err(e) => {
                    return Err(e);
                },
            }
        } else {
            match get_amount0_delta_helper(sqrtRatioCurrentX96, next, liquidity, false) {
                Ok(v) => v,
                Err(e) => {
                    return Err(e);
                },
            }
        };
        let fee_amount = if !max {
            // the target was not reached: the remainder of the input is fee
            match mag.checked_sub(&amount_in) {
                Some(f) => f,
                None => {
                    return Err(Error::Overflow);
                },
            }
        } else {
            match mulDivRoundingUp(&amount_in, &fee_u, &fee_factor) {
                Ok(f) => f,
                Err(e) => {
                    return Err(e);
                },
            }
        };
        // the input and its fee may never exceed the remaining amount
        if max {
            match amount_in.checked_add(&fee_amount) {
                Some(total) => {
                    if total > mag {
                        return Err(Error::Overflow);
                    }
                },
                None => {
                    return Err(Error::Overflow);
                },
            }
        }
        Ok(
            ComputeSwapStepReturn {
                sqrtRatioNextX96: next,
                amount_in,
                amount_out,
                feeAmount: fee_amount,
            },
        )
    } else {
        let amount_out_t = if zero_for_one {
            match get_amount1_delta_helper(sqrtRatioTargetX96, sqrtRatioCurrentX96, liquidity,
                false) {
                Ok(v) => v,
                Err(e) => {
                    return Err(e);
                },
            }
        } else {
            match get_amount0_delta_helper(sqrtRatioCurrentX96, sqrtRatioTargetX96, liquidity,
                false) {
                Ok(v) => v,
                Err(e) => {
                    return Err(e);
                },
            }
        };
        let next: U160 = if mag >= amount_out_t {
            sqrtRatioTargetX96
        } else {
            match get_next_sqrt_price_from_output(
                sqrtRatioCurrentX96,
                liquidity,
                mag,
                zero_for_one,
            ) {
                Ok(v) => v,
                Err(e) => {
                    return Err(e);
                },
            }
        };
        proof {
            lemma_u160_unique(next, sqrtRatioTargetX96);
        }
        if zero_for_one {
            if next < sqrtRatioTargetX96 || next > sqrtRatioCurrentX96 {
                return Err(Error::PriceOvershoot);
            }
        } else {
            if next > sqrtRatioTargetX96 || next < sqrtRatioCurrentX96 {
                return Err(Error::PriceOvershoot);
            }
        }
        let max = next == sqrtRatioTargetX96;
        let amount_in = if zero_for_one {
            match get_amount0_delta_helper(next, sqrtRatioCurrentX96, liquidity, true) {
                Ok(v) => v,
                Err(e) => {
                    return Err(e);
                },
            }
        } else {
            match get_amount1_delta_helper(sqrtRatioCurrentX96, next, liquidity, true) {
                Ok(v) => v,
                Err(e) => {
                    return Err(e);
                },
            }
        };
        let amount_out_u = if max {
            amount_out_t
        } else {
            if zero_for_one {
                match get_amount1_delta_helper(next, sqrtRatioCurrentX96, liquidity, false) {
                    Ok(v) => v,
                    Err(e) => {
                        return Err(e);
                    },
                }
            } else {
                match get_amount0_delta_helper(sqrtRatioCurrentX96, next, liquidity, false) {
                    Ok(v) => v,
                    Err(e) => {
                        return Err(e);
                    },
                }
            }
        };
        // cap the output at the requested magnitude
        let amount_out = if amount_out_u > mag {
            mag
        } else {
            amount_out_u
        };
        proof {
            if !max && amount_out@ < mag@ {
                lemma_output_step_moves(
                    sqrtRatioCurrentX96@,
                    sqrtRatioTargetX96@,
                    next@,
                    liquidity as nat,
                    mag@,
                );
            }
        }
        let fee_amount = match mulDivRoundingUp(&amount_in, &fee_u, &fee_factor) {
            Ok(f) => f,
            Err(e) => {
                return Err(e);
            },
        };
        Ok(
            ComputeSwapStepReturn {
                sqrtRatioNextX96: next,
                amount_in,
                amount_out,
                feeAmount: fee_amount,
            },
        )
    }
}

/// A solved exact-output step strictly moves the price: removing a positive
/// output amount lowers the price toward lower prices and raises it toward
/// higher ones.
proof fn lemma_output_step_moves(cur: nat, target: nat, next: nat, l: nat, out_mag: nat)
    requires
        out_mag >= 1,
        next_from_output_spec(cur, l, out_mag, cur >= target) == Ok::<nat, Error>(next),
    ensures
        cur >= target ==> next < cur,
        cur < target ==> next > cur,
{
    let zfo = cur >= target;
    if zfo {
        // token1 removal: the rounded-up quotient is at least one
        let x = out_mag * p96();
        let q = ceil_div(x, l);
        assert(p96() >= 1);
        assert(out_mag * p96() >= 1) by (nonlinear_arith)
            requires
                out_mag >= 1,
                p96() >= 1,
        ;
        assert(x >= 1);
        assert(l >= 1);
        lemma_fundamental_div_mod(x as int, l as int);
        if x % l == 0 {
            assert(x / l >= 1) by (nonlinear_arith)
                requires
                    x == l * (x / l) + x % l,
                    x % l == 0,
                    x >= 1,
                    l >= 1,
            ;
        }
        assert(q >= 1);
    } else {
        // token0 removal: the denominator shrank, so the quotient grew
        let n1 = l * p96();
        let prod = out_mag * cur;
        assert(out_mag * cur >= cur) by (nonlinear_arith)
            requires
                out_mag >= 1,
                cur >= 0,
        ;
        assert(prod >= cur);
        if prod < p256() && n1 > prod {
            assert(n1 * cur > ((n1 - prod) as nat) * cur) by (nonlinear_arith)
                requires
                    n1 > prod,
                    prod >= cur,
                    cur >= 1,
            ;
            lemma_ceil_div_gt(n1 * cur, (n1 - prod) as nat, cur);
        }
    }
}


/// With no usable liquidity, one swap step moves the price all the way to
/// the target and exchanges nothing: every amount and the fee are zero.
pub proof fn lemma_step_zero_liquidity(cur: nat, target: nat, rem: int, fee_pips: nat)
    requires
        rem != 0,
        fee_pips < 1000000,
        cur >= target ==> target >= 1,
        cur < target ==> cur >= 1,
    ensures
        compute_swap_step_spec(cur, target, 0, rem, fee_pips) == Ok::<(nat, nat, nat, nat), Error>(
            (target, 0, 0, 0),
        ),
{
    reveal(compute_swap_step_spec);
    let zfo = cur >= target;
    assert(numerator1_spec(0) == 0) by (nonlinear_arith);
    let lo = if zfo {
        target
    } else {
        cur
    };
    let hi = if zfo {
        cur
    } else {
        target
    };
    assert(0nat * ((hi - lo) as nat) == 0) by (nonlinear_arith);
    assert(ceil_div(0, hi) == 0);
    assert(ceil_div(0, lo) == 0);
    assert((0nat / hi) / lo == 0);
    assert(0nat * p96() == 0) by (nonlinear_arith);
    assert(ceil_div(0, p96()) == 0);
    // in and out amounts to the target are zero in both directions
    assert(swap_in_to(cur, target, 0, zfo) == Ok::<nat, Error>(0nat));
    assert(swap_out_to(cur, target, 0, zfo) == Ok::<nat, Error>(0nat));
    assert(!overshoots(cur, target, target, zfo));
    // the fee on a zero input is zero
    let k = (1000000 - fee_pips) as nat;
    assert(0nat * fee_pips == 0) by (nonlinear_arith);
    assert(ceil_div(0, k) == 0);
    if rem >= 0 {
        let rlf = ((rem as nat) * ((1000000 - fee_pips) as nat)) / 1000000;
        assert(rlf >= 0);
    }
}

} // verus!
