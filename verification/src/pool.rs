//! The pool record and the tick-crossing swap loop.
//!
//! A swap repeatedly runs one swap step bounded by the nearer of the next
//! initialized tick's price and the caller's price limit, crossing ticks and
//! apportioning fees, until the requested amount is exhausted or the limit is
//! reached. All mutation happens on local state and is committed in one place
//! after the loop: a failed swap leaves the pool exactly as it was.

use crate::error::Error;
use crate::fee::Fee;
use crate::fixed_point::q128;
use crate::full_math::{div_rem_u256, muldiv};
use crate::i256::I256;
use crate::liq_math::addDelta;
use crate::limbs::p256;
use crate::swap_math::computeSwapStep;
use crate::tick::{TickTable, MAX_TICK, MIN_TICK};
use crate::tick_math::{all_ratios_ok, get_sqrt_ratio_at_tick, get_tick_at_sqrt_ratio, sqrt_ratio_opt};
use crate::u160::U160;
use crate::u256::U256;
use vstd::prelude::*;

verus! {

/// The committed tick corresponds to the committed price: the tick's own
/// price does not exceed it, and the price does not exceed the price one tick
/// above. Both bounds are conditional on the tick having a price at all, so
/// the transient tick one below the valid range satisfies them vacuously on
/// its lower side.
pub open spec fn tick_price_ok(tick: int, price: nat) -> bool {
    &&& (sqrt_ratio_opt(tick) matches Ok(v) ==> v <= price)
    &&& (sqrt_ratio_opt(tick + 1) matches Ok(w) ==> price <= w)
}

/// A swap request against a pool with no liquidity anywhere: no in-range
/// liquidity and no initialized tick, with a well-defined price domain, a fee
/// below one, a positive price, and a limit strictly inside the domain on the
/// requested side of the price. On such a request the swap owes the
/// no-liquidity error.
pub open spec fn no_liquidity_inputs(
    table: TickTable,
    liquidity: u128,
    price: nat,
    limit: nat,
    zero_for_one: bool,
    fee_pips: u32,
) -> bool {
    &&& liquidity == 0
    &&& (forall|k: int|
        0 <= k < table.entries@.len() ==> (#[trigger] table.entries@[k]).1.liquidity_gross
            == 0)
    &&& fee_pips < 1000000
    &&& all_ratios_ok()
    &&& price >= 1
    &&& (sqrt_ratio_opt(MIN_TICK as int) matches Ok(lo) && lo < limit)
    &&& (sqrt_ratio_opt(MAX_TICK as int) matches Ok(hi) && limit < hi)
    &&& (zero_for_one ==> limit < price)
    &&& (!zero_for_one ==> price < limit)
}

/// A concentrated-liquidity pool: price, tick, in-range liquidity, fee
/// accumulators and the tick ledger, owned exclusively by its holder.
///
/// The pool models no oracle clock: it keeps no seconds-per-liquidity or
/// tick-cumulative accumulators of its own, and a swap hands zeros for them
/// to `TickTable::cross`, so the per-tick oracle fields hold telescoped
/// zeros rather than maintained data. A host that needs the oracle keeps
/// those accumulators itself and drives `cross` through its own calls.
pub struct UniV3Pool {
    /// spacing between usable ticks
    pub tick_spacing: i32,
    /// the swap fee in hundredths of a basis point
    pub fee_pips: u32,
    /// the protocol's share denominator of the swap fee; zero disables it
    pub fee_protocol: u32,
    /// the current sqrt price in Q96
    pub sqrt_price: U160,
    /// the tick of the current price
    pub tick: i32,
    /// the liquidity in range at the current price
    pub liquidity: u128,
    /// all-time fee growth per unit of liquidity, both tokens
    pub fee_growth_global: Fee,
    /// accrued protocol fees, both tokens
    pub protocol_fees: Fee,
    /// the per-tick ledger
    pub tick_table: TickTable,
}

impl UniV3Pool {
    /// The pool's invariant: a sorted ledger, a tick in range (one below the
    /// lowest is reachable transiently after crossing it downward), a positive
    /// spacing and a fee below one.
    pub open spec fn wf(&self) -> bool {
        &&& self.tick_table.wf()
        &&& MIN_TICK - 1 <= self.tick <= MAX_TICK
        &&& self.tick_spacing > 0
        &&& self.fee_pips <= 1000000
        &&& tick_price_ok(self.tick as int, self.sqrt_price@)
    }

    /// A pool at a starting price with no liquidity; the tick is derived from
    /// the price. Success is owed whenever every valid tick has a price and
    /// the starting price lies inside the price domain.
    pub fn new(sqrt_price: U160, tick_spacing: i32, fee_pips: u32, fee_protocol: u32) -> (r:
        Result<UniV3Pool, Error>)
        requires
            tick_spacing > 0,
            fee_pips <= 1000000,
        ensures
            r matches Ok(p) ==> p.wf() && p.sqrt_price == sqrt_price && p.liquidity == 0
                && p.tick_spacing == tick_spacing && p.fee_pips == fee_pips && p.fee_protocol
                == fee_protocol && p.tick_table.entries@.len() == 0,
            (all_ratios_ok() && (sqrt_ratio_opt(MIN_TICK as int) matches Ok(lo) && lo
                <= sqrt_price@) && (sqrt_ratio_opt(MAX_TICK as int) matches Ok(hi)
                && sqrt_price@ < hi)) ==> r matches Ok(_),
            r matches Err(e) ==> (e == Error::TickOutOfRange && ((sqrt_ratio_opt(
                MIN_TICK as int,
            ) matches Ok(v) && sqrt_price@ < v) || (sqrt_ratio_opt(MAX_TICK as int) matches Ok(
                w,
            ) && w <= sqrt_price@))) || (exists|t: int|
                MIN_TICK <= t <= MAX_TICK && sqrt_ratio_opt(t) == Err::<nat, Error>(e)),
            r matches Err(e) ==> e == Error::TickOutOfRange || e == Error::DivisionByZero || e
                == Error::Overflow,
    {
        let tick = match get_tick_at_sqrt_ratio(sqrt_price) {
            Ok(t) => t,
            Err(e) => {
                return Err(e);
            },
        };
        Ok(
            UniV3Pool {
                tick_spacing,
                fee_pips,
                fee_protocol,
                sqrt_price,
                tick,
                liquidity: 0,
                fee_growth_global: Fee::zero(),
                protocol_fees: Fee::zero(),
                tick_table: TickTable::new(),
            },
        )
    }

    /// Swaps token0 for token1 or the reverse. A positive amount is an exact
    /// input, a negative one an exact output. The returned pair is the signed
    /// (token0, token1) balance change of the pool: positive amounts flow in,
    /// negative amounts flow out. On any failure the pool is unchanged; on
    /// success the price has moved from the old price toward (at most to) the
    /// limit, and the swap exchanged something.
    #[verifier::rlimit(100)]
    #[verifier::loop_isolation(false)]
    pub fn swap(
        &mut self,
        zero_for_one: bool,
        amount_specified: I256,
        sqrt_price_limit: U160,
        block_timestamp: u32,
    ) -> (r: Result<(I256, I256), Error>)
        requires
            old(self).wf(),
        ensures
            final(self).wf(),
            r matches Err(_) ==> *final(self) == *old(self),
            r == Err::<(I256, I256), Error>(Error::AmountZero) <==> amount_specified@ == 0,
            amount_specified@ != 0 ==> ({
                sqrt_ratio_opt(MIN_TICK as int) matches Ok(lo) ==> sqrt_ratio_opt(
                    MAX_TICK as int,
                ) matches Ok(hi) ==> (r == Err::<(I256, I256), Error>(Error::InvalidPriceLimit)
                    <==> !(if zero_for_one {
                    lo < sqrt_price_limit@ < old(self).sqrt_price@
                } else {
                    old(self).sqrt_price@ < sqrt_price_limit@ < hi
                }))
            }),
            (amount_specified@ != 0 && no_liquidity_inputs(
                old(self).tick_table,
                old(self).liquidity,
                old(self).sqrt_price@,
                sqrt_price_limit@,
                zero_for_one,
                old(self).fee_pips,
            )) ==> r == Err::<(I256, I256), Error>(Error::NoLiquidity),
            r matches Ok(_) ==> tick_price_ok(final(self).tick as int, final(self).sqrt_price@),
            r matches Ok(_) ==> {
                &&& (zero_for_one ==> final(self).fee_growth_global.token_1 == old(
                    self,
                ).fee_growth_global.token_1 && final(self).protocol_fees.token_1 == old(
                    self,
                ).protocol_fees.token_1 && final(self).protocol_fees.token_0@ >= old(
                    self,
                ).protocol_fees.token_0@)
                &&& (!zero_for_one ==> final(self).fee_growth_global.token_0 == old(
                    self,
                ).fee_growth_global.token_0 && final(self).protocol_fees.token_0 == old(
                    self,
                ).protocol_fees.token_0 && final(self).protocol_fees.token_1@ >= old(
                    self,
                ).protocol_fees.token_1@)
                &&& (old(self).fee_protocol == 0 ==> final(self).protocol_fees == old(
                    self,
                ).protocol_fees)
            },
            r matches Ok(amounts) ==> {
                let exact_input = amount_specified@ > 0;
                &&& !(amounts.0@ == 0 && amounts.1@ == 0)
                &&& amount_specified@ != 0
                &&& (zero_for_one ==> sqrt_price_limit@ <= final(self).sqrt_price@ <= old(self).sqrt_price@)
                &&& (!zero_for_one ==> old(self).sqrt_price@ <= final(self).sqrt_price@
                    <= sqrt_price_limit@)
                &&& (exact_input && zero_for_one ==> 0 <= amounts.0@ <= amount_specified@
                    && amounts.1@ <= 0 && (amounts.0@ == amount_specified@ || final(self).sqrt_price@ == sqrt_price_limit@))
                &&& (exact_input && !zero_for_one ==> 0 <= amounts.1@ <= amount_specified@
                    && amounts.0@ <= 0 && (amounts.1@ == amount_specified@ || final(self).sqrt_price@ == sqrt_price_limit@))
                &&& (!exact_input && zero_for_one ==> amount_specified@ <= amounts.1@ <= 0
                    && amounts.0@ >= 0 && (amounts.1@ == amount_specified@ || final(self).sqrt_price@ == sqrt_price_limit@))
                &&& (!exact_input && !zero_for_one ==> amount_specified@ <= amounts.0@ <= 0
                    && amounts.1@ >= 0 && (amounts.0@ == amount_specified@ || final(self).sqrt_price@ == sqrt_price_limit@))
            },
    {
        if amount_specified.is_zero() {
            return Err(Error::AmountZero);
        }
        // the price limit must lie strictly between the current price and the
        // domain bound for the requested direction
        let min_p = match get_sqrt_ratio_at_tick(MIN_TICK) {
            Ok(v) => v,
            Err(e) => {
                return Err(e);
            },
        };
        let max_p = match get_sqrt_ratio_at_tick(MAX_TICK) {
            Ok(v) => v,
            Err(e) => {
                return Err(e);
            },
        };
        if zero_for_one {
            if !(sqrt_price_limit < self.sqrt_price && sqrt_price_limit > min_p) {
                return Err(Error::InvalidPriceLimit);
            }
        } else {
            if !(sqrt_price_limit > self.sqrt_price && sqrt_price_limit < max_p) {
                return Err(Error::InvalidPriceLimit);
            }
        }
        let exact_input = !amount_specified.is_negative();
        let mag0: U256 = amount_specified.abs_u256();
        let fee_pips = self.fee_pips;
        let fee_protocol = self.fee_protocol;
        let timestamp = block_timestamp;

        // swap state, committed only after the loop
        let mut state_price: U160 = self.sqrt_price;
        let mut state_tick: i32 = self.tick;
        let mut state_liquidity: u128 = self.liquidity;
        let mut rem_mag: U256 = mag0;
        let mut calc_mag: U256 = U256::zero();
        let mut fee_growth: U256 = if zero_for_one {
            self.fee_growth_global.token_0
        } else {
            self.fee_growth_global.token_1
        };
        let other_growth: U256 = if zero_for_one {
            self.fee_growth_global.token_1
        } else {
            self.fee_growth_global.token_0
        };
        let mut protocol_fee: U256 = U256::zero();
        let mut table: TickTable = self.tick_table.duplicate();

        while !rem_mag.is_zero() && !(state_price == sqrt_price_limit)
            invariant
                fee_pips <= 1000000,
                table.wf(),
                MIN_TICK - 1 <= state_tick <= MAX_TICK,
                rem_mag@ <= mag0@,
                mag0@ <= p256() / 2,
                exact_input ==> mag0@ < p256() / 2,
                zero_for_one ==> sqrt_price_limit@ <= state_price@,
                !zero_for_one ==> state_price@ <= sqrt_price_limit@,
                zero_for_one ==> state_price@ <= old(self).sqrt_price@,
                !zero_for_one ==> old(self).sqrt_price@ <= state_price@,
                tick_price_ok(state_tick as int, state_price@),
                fee_protocol == 0 ==> protocol_fee@ == 0,
                no_liquidity_inputs(
                    old(self).tick_table,
                    old(self).liquidity,
                    old(self).sqrt_price@,
                    sqrt_price_limit@,
                    zero_for_one,
                    fee_pips,
                ) ==> state_liquidity == 0 && rem_mag@ == mag0@ && calc_mag@ == 0
                    && table.entries@ == old(self).tick_table.entries@ && (state_price@ == old(
                    self,
                ).sqrt_price@ || state_price@ == sqrt_price_limit@),
            decreases
                    (if rem_mag@ != 0 && state_price@ != sqrt_price_limit@ {
                        1int
                    } else {
                        0int
                    }),
                    (if zero_for_one {
                        state_price@ - sqrt_price_limit@
                    } else {
                        sqrt_price_limit@ - state_price@
                    }),
                    (if zero_for_one {
                        state_tick - (MIN_TICK - 1)
                    } else {
                        MAX_TICK - state_tick
                    }),
        {
            proof {
                crate::u160::lemma_u160_unique(state_price, sqrt_price_limit);
            }
            let step_r = swap_iteration(
                &mut table,
                &mut state_price,
                &mut state_tick,
                &mut state_liquidity,
                &mut rem_mag,
                &mut calc_mag,
                &mut fee_growth,
                &mut protocol_fee,
                zero_for_one,
                exact_input,
                fee_pips,
                fee_protocol,
                timestamp,
                sqrt_price_limit,
                other_growth,
            );
            match step_r {
                Ok(u) => u,
                Err(e) => {
                    return Err(e);
                },
            }
        }
        // assemble the signed amounts: what the pool gained is positive
        let moved = {
            let (m, _b) = mag0.overflowing_sub(&rem_mag);
            m
        };
        let in_signed: I256 = if exact_input {
            match I256::try_from_u256(&moved) {
                Ok(v) => v,
                Err(e) => {
                    return Err(e);
                },
            }
        } else {
            match I256::neg_from_u256(&moved) {
                Ok(v) => v,
                Err(e) => {
                    return Err(e);
                },
            }
        };
        let calc_signed: I256 = if exact_input {
            match I256::neg_from_u256(&calc_mag) {
                Ok(v) => v,
                Err(e) => {
                    return Err(e);
                },
            }
        } else {
            match I256::try_from_u256(&calc_mag) {
                Ok(v) => v,
                Err(e) => {
                    return Err(e);
                },
            }
        };
        let (amount0, amount1) = if zero_for_one == exact_input {
            (in_signed, calc_signed)
        } else {
            (calc_signed, in_signed)
        };
        // a swap that exchanged nothing found no usable liquidity
        if amount0.is_zero() && amount1.is_zero() {
            return Err(Error::NoLiquidity);
        }
        let new_protocol_fees = if protocol_fee.is_zero() {
            self.protocol_fees
        } else if zero_for_one {
            let t0 = match self.protocol_fees.token_0.checked_add(&protocol_fee) {
                Some(v) => v,
                None => {
                    return Err(Error::Overflow);
                },
            };
            Fee { token_0: t0, token_1: self.protocol_fees.token_1 }
        } else {
            let t1 = match self.protocol_fees.token_1.checked_add(&protocol_fee) {
                Some(v) => v,
                None => {
                    return Err(Error::Overflow);
                },
            };
            Fee { token_0: self.protocol_fees.token_0, token_1: t1 }
        };
        // commit the final state in one place
        self.sqrt_price = state_price;
        self.tick = state_tick;
        self.liquidity = state_liquidity;
        self.fee_growth_global = if zero_for_one {
            Fee { token_0: fee_growth, token_1: other_growth }
        } else {
            Fee { token_0: other_growth, token_1: fee_growth }
        };
        self.protocol_fees = new_protocol_fees;
        self.tick_table = table;
        Ok((amount0, amount1))
    }
}


/// One iteration of the swap loop: finds the bounding target, runs one swap
/// step, accounts the amounts and fees, crosses or recomputes the tick, and
/// reports whether it advanced. On an error the caller abandons the whole
/// swap, so the partially updated locals are never observed.
#[verifier::rlimit(100)]
fn swap_iteration(
    table: &mut TickTable,
    state_price: &mut U160,
    state_tick: &mut i32,
    state_liquidity: &mut u128,
    rem_mag: &mut U256,
    calc_mag: &mut U256,
    fee_growth: &mut U256,
    protocol_fee: &mut U256,
    zero_for_one: bool,
    exact_input: bool,
    fee_pips: u32,
    fee_protocol: u32,
    timestamp: u32,
    sqrt_price_limit: U160,
    other_growth: U256,
) -> (r: Result<(), Error>)
    requires
        old(table).wf(),
        fee_pips <= 1000000,
        MIN_TICK - 1 <= *old(state_tick) <= MAX_TICK,
        old(rem_mag)@ > 0,
        old(rem_mag)@ <= p256() / 2,
        exact_input ==> old(rem_mag)@ < p256() / 2,
        zero_for_one ==> sqrt_price_limit@ < old(state_price)@,
        !zero_for_one ==> old(state_price)@ < sqrt_price_limit@,
        tick_price_ok(*old(state_tick) as int, old(state_price)@),
    ensures
        r matches Ok(_) ==> {
            &&& final(table).wf()
            &&& MIN_TICK - 1 <= *final(state_tick) <= MAX_TICK
            &&& final(rem_mag)@ <= old(rem_mag)@
            &&& (zero_for_one ==> sqrt_price_limit@ <= final(state_price)@ <= old(
                state_price,
            )@)
            &&& (!zero_for_one ==> old(state_price)@ <= final(state_price)@
                <= sqrt_price_limit@)
            &&& tick_price_ok(*final(state_tick) as int, final(state_price)@)
            &&& (final(rem_mag)@ != 0 && final(state_price)@ != sqrt_price_limit@ ==> (
            zero_for_one ==> final(state_price)@ < old(state_price)@ || *final(state_tick)
                < *old(state_tick)) && (!zero_for_one ==> final(state_price)@ > old(
                state_price,
            )@ || *final(state_tick) > *old(state_tick)))
            &&& (fee_protocol == 0 ==> final(protocol_fee)@ == old(protocol_fee)@)
            &&& final(protocol_fee)@ >= old(protocol_fee)@
        },
        r matches Err(e) ==> e != Error::AmountZero && e != Error::InvalidPriceLimit && e
            != Error::NoLiquidity,
        no_liquidity_inputs(
            *old(table),
            *old(state_liquidity),
            old(state_price)@,
            sqrt_price_limit@,
            zero_for_one,
            fee_pips,
        ) ==> (r matches Ok(_)) && final(state_price)@ == sqrt_price_limit@
            && final(rem_mag)@ == old(rem_mag)@ && final(calc_mag)@ == old(calc_mag)@
            && *final(state_liquidity) == 0 && final(table).entries@ == old(table).entries@,
{
    // the next initialized tick in the swap direction, or the bound
    let (tick_next_raw, initialized) = table.next_initialized_tick(*state_tick, zero_for_one);
    let tick_next: i32 = if tick_next_raw < MIN_TICK {
        MIN_TICK
    } else if tick_next_raw > MAX_TICK {
        MAX_TICK
    } else {
        tick_next_raw
    };
    let price_next = match get_sqrt_ratio_at_tick(tick_next) {
        Ok(v) => v,
        Err(e) => {
            return Err(e);
        },
    };
    // stop at the price limit if it is nearer than the tick's price
    let target: U160 = if zero_for_one {
        if price_next < sqrt_price_limit {
            sqrt_price_limit
        } else {
            price_next
        }
    } else {
        if price_next > sqrt_price_limit {
            sqrt_price_limit
        } else {
            price_next
        }
    };
    // the step's target must lie on the swap's side of the current price
    if zero_for_one {
        if target > *state_price {
            return Err(Error::PriceOvershoot);
        }
    } else {
        if target < *state_price {
            return Err(Error::PriceOvershoot);
        }
    }
    let rem_signed: I256 = if exact_input {
        match I256::try_from_u256(rem_mag) {
            Ok(v) => v,
            Err(e) => {
                return Err(e);
            },
        }
    } else {
        match I256::neg_from_u256(rem_mag) {
            Ok(v) => v,
            Err(e) => {
                return Err(e);
            },
        }
    };
    proof {
        if no_liquidity_inputs(
            *old(table),
            *old(state_liquidity),
            old(state_price)@,
            sqrt_price_limit@,
            zero_for_one,
            fee_pips,
        ) {
            crate::swap_math::lemma_step_zero_liquidity(
                state_price@,
                target@,
                rem_signed@,
                fee_pips as nat,
            );
        }
    }
    let step = match computeSwapStep(*state_price, target, *state_liquidity, rem_signed,
        fee_pips) {
        Ok(s) => s,
        Err(e) => {
            return Err(e);
        },
    };
    // account the step's amounts
    if exact_input {
        let consumed = match step.amount_in.checked_add(&step.feeAmount) {
            Some(c) => c,
            None => {
                return Err(Error::Overflow);
            },
        };
        let (nr, _b) = rem_mag.overflowing_sub(&consumed);
        *rem_mag = nr;
        *calc_mag = match calc_mag.checked_add(&step.amount_out) {
            Some(c) => c,
            None => {
                return Err(Error::Overflow);
            },
        };
    } else {
        let (nr, _b) = rem_mag.overflowing_sub(&step.amount_out);
        *rem_mag = nr;
        let consumed = match step.amount_in.checked_add(&step.feeAmount) {
            Some(c) => c,
            None => {
                return Err(Error::Overflow);
            },
        };
        *calc_mag = match calc_mag.checked_add(&consumed) {
            Some(c) => c,
            None => {
                return Err(Error::Overflow);
            },
        };
    }
    // apportion the protocol's share of the fee
    let mut fee_amt: U256 = step.feeAmount;
    if fee_protocol > 0 {
        let (delta, _r) = div_rem_u256(&fee_amt, &U256::from_u64(fee_protocol as u64));
        proof {
            vstd::arithmetic::div_mod::lemma_div_nonincreasing(
                fee_amt@ as int,
                fee_protocol as int,
            );
        }
        let (nf, _b2) = fee_amt.overflowing_sub(&delta);
        fee_amt = nf;
        *protocol_fee = match protocol_fee.checked_add(&delta) {
            Some(c) => c,
            None => {
                return Err(Error::Overflow);
            },
        };
    }
    // accrue global fee growth while liquidity is in range
    if *state_liquidity > 0 {
        let growth = match muldiv(&fee_amt, &q128(), &U256::from_u128(*state_liquidity)) {
            Ok(g) => g,
            Err(e) => {
                return Err(e);
            },
        };
        *fee_growth = fee_growth.wrapping_add(&growth);
    }
    // shift the tick if the step reached the next tick's price
    proof {
        crate::u160::lemma_u160_unique(step.sqrtRatioNextX96, price_next);
        crate::u160::lemma_u160_unique(step.sqrtRatioNextX96, *state_price);
        crate::u160::lemma_u160_unique(target, sqrt_price_limit);
        crate::u160::lemma_u160_unique(target, price_next);
    }
    if step.sqrtRatioNextX96 == price_next {
        if initialized && tick_next == tick_next_raw {
            // the crossing sees the input token's growth up to date
            let cross_growth = if zero_for_one {
                Fee { token_0: *fee_growth, token_1: other_growth }
            } else {
                Fee { token_0: other_growth, token_1: *fee_growth }
            };
            // the pool keeps no oracle accumulators: the crossing receives
            // zeros for seconds-per-liquidity and tick-cumulative
            let net = match table.cross(tick_next, cross_growth, 0, 0, timestamp) {
                Ok(n) => n,
                Err(e) => {
                    return Err(e);
                },
            };
            // moving toward lower prices applies the net in reverse
            let net_eff: i128 = if zero_for_one {
                if net == i128::MIN {
                    return Err(Error::Overflow);
                }
                -net
            } else {
                net
            };
            *state_liquidity = match addDelta(*state_liquidity, net_eff) {
                Ok(l) => l,
                Err(e) => {
                    return Err(e);
                },
            };
        }
        let new_tick: i32 = if zero_for_one {
            tick_next - 1
        } else {
            tick_next
        };
        // the traversal must advance through the tick space
        if zero_for_one {
            if new_tick >= *state_tick {
                return Err(Error::PriceOvershoot);
            }
        } else {
            if new_tick <= *state_tick {
                return Err(Error::PriceOvershoot);
            }
        }
        // the tick we land on must price at or below the boundary price we
        // stand at (its other side is the boundary itself)
        if zero_for_one {
            match get_sqrt_ratio_at_tick(new_tick) {
                Ok(below) => {
                    if below > price_next {
                        return Err(Error::PriceOvershoot);
                    }
                },
                Err(_e) => {},
            }
        } else {
            match get_sqrt_ratio_at_tick(new_tick + 1) {
                Ok(above) => {
                    if above < price_next {
                        return Err(Error::PriceOvershoot);
                    }
                },
                Err(_e) => {},
            }
        }
        *state_tick = new_tick;
    } else if !(step.sqrtRatioNextX96 == *state_price) {
        // the price stopped between ticks: recompute the tick from the price
        let t = match get_tick_at_sqrt_ratio(step.sqrtRatioNextX96) {
            Ok(t) => t,
            Err(e) => {
                return Err(e);
            },
        };
        *state_tick = t;
    }
    *state_price = step.sqrtRatioNextX96;
    Ok(())
}

} // verus!
