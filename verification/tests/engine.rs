//! Tests of the tick ledger, the tick-price conversion, the swap step and
//! the pool swap loop.

use unisim::error::Error;
use unisim::fee::Fee;
use unisim::i256::I256;
use unisim::liq_math::addDelta;
use unisim::pool::UniV3Pool;
use unisim::swap_math::computeSwapStep;
use unisim::tick::{max_liquidity_per_tick, TickTable, MAX_TICK, MIN_TICK};
use unisim::tick_math::{get_sqrt_ratio_at_tick, get_tick_at_sqrt_ratio};
use unisim::u160::U160;
use unisim::u256::U256;

fn u(x: u128) -> U256 {
    U256::from_u128(x)
}

fn p(x: u128) -> U160 {
    U160::from_u128(x)
}

fn i(x: i128) -> I256 {
    if x < 0 {
        I256::neg_from_u256(&u(x.unsigned_abs())).unwrap()
    } else {
        I256::try_from_u256(&u(x as u128)).unwrap()
    }
}

const Q96: u128 = 79228162514264337593543950336;
const MIN_SQRT_RATIO: u128 = 4295128739;

#[test]
fn fee_it_works() {
    let a = Fee::new(u(10), u(20));
    let b = Fee::new(u(3), u(5));
    let s = a.wrapping_add(&b);
    assert_eq!(s.token_0, u(13));
    assert_eq!(s.token_1, u(25));
    let d = a.wrapping_sub(&b);
    assert_eq!(d.token_0, u(7));
    assert_eq!(d.token_1, u(15));
    // the outside variant may wrap below zero; this is valid and expected
    let w = b.wrapping_sub(&a);
    let max = U256::max_value();
    assert_eq!(w.token_0, max.checked_sub(&u(6)).unwrap());
    assert!(Fee::zero().token_0.is_zero());
}

#[test]
fn liq_math_fails_loudly() {
    assert_eq!(addDelta(100, 50).unwrap(), 150);
    assert_eq!(addDelta(100, -50).unwrap(), 50);
    assert_eq!(addDelta(5, -6).unwrap_err(), Error::LiquiditySubUnderflow);
    assert_eq!(addDelta(u128::MAX, 1).unwrap_err(), Error::LiquidityAddOverflow);
}

#[test]
fn tick_it_works() {
    let mut t = TickTable::new();
    assert!(t.get(0).is_none());
    let flipped = t
        .update(100, 0, 500, Fee::zero(), 0, 0, 7, false, u128::MAX)
        .unwrap();
    assert!(flipped);
    let info = t.get(100).unwrap();
    assert_eq!(info.liquidity_gross, 500);
    assert_eq!(info.liquidity_net, 500);
    assert!(info.initialized);
    // an upper bound takes the delta negatively
    let flipped_upper = t
        .update(200, 0, 500, Fee::zero(), 0, 0, 7, true, u128::MAX)
        .unwrap();
    assert!(flipped_upper);
    assert_eq!(t.get(200).unwrap().liquidity_net, -500);
    // removing all liquidity flips the tick back
    let flipped_down = t
        .update(100, 0, -500, Fee::zero(), 0, 0, 9, false, u128::MAX)
        .unwrap();
    assert!(flipped_down);
    assert_eq!(t.get(100).unwrap().liquidity_gross, 0);
}

#[test]
fn tick_update_respects_max_liquidity() {
    let mut t = TickTable::new();
    let err = t
        .update(0, 0, 1001, Fee::zero(), 0, 0, 0, false, 1000)
        .unwrap_err();
    assert_eq!(err, Error::LiquidityGrossOverflow);
    assert!(t.get(0).is_none());
    let err2 = t.cross(0, Fee::zero(), 0, 0, 0).unwrap_err();
    assert_eq!(err2, Error::TickNotFound);
}

/// Update followed immediately by cross on the same tick, with matching
/// accumulators, leaves liquidity_net's magnitude unchanged.
#[test]
fn update_then_cross_keeps_net() {
    let mut t = TickTable::new();
    t.update(-50, 0, 12345, Fee::zero(), 0, 0, 0, false, u128::MAX)
        .unwrap();
    let g = Fee::new(u(7), u(9));
    let net = t.cross(-50, g, 0, 0, 0).unwrap();
    assert_eq!(net, 12345);
    let info = t.get(-50).unwrap();
    assert_eq!(info.liquidity_net, 12345);
    assert_eq!(info.liquidity_gross, 12345);
    // the outside accumulators telescoped to global - outside
    assert_eq!(info.fee_growth_outside.token_0, u(7));
    assert_eq!(info.fee_growth_outside.token_1, u(9));
    // crossing back flips them again
    let net2 = t.cross(-50, g, 0, 0, 0).unwrap();
    assert_eq!(net2, 12345);
    assert!(t.get(-50).unwrap().fee_growth_outside.token_0.is_zero());
}

#[test]
fn fee_growth_inside_telescopes() {
    let mut t = TickTable::new();
    // both ticks initialized while the current tick is above them, so their
    // outside accumulators snapshot the global value
    t.update(-10, 50, 1, Fee::new(u(100), u(200)), 0, 0, 0, false, u128::MAX)
        .unwrap();
    t.update(10, 50, 1, Fee::new(u(100), u(200)), 0, 0, 0, true, u128::MAX)
        .unwrap();
    // current tick between the bounds: inside = global - below - above
    let f = t
        .get_fee_growth_inside(-10, 10, 0, Fee::new(u(160), u(260)))
        .unwrap();
    // below = outside(lower) = 100 and above = outside(upper) = 100, so the
    // inside growth telescopes to 160 - 100 - 100 = -40, wrapping
    assert_eq!(f.token_0, U256::zero().wrapping_sub(&u(40)));
    assert_eq!(f.token_1, U256::zero().wrapping_sub(&u(140)));
    let missing = t.get_fee_growth_inside(-10, 999, 0, Fee::zero());
    assert_eq!(missing.unwrap_err(), Error::TickNotFound);
}

#[test]
fn next_initialized_tick_walks_the_ledger() {
    let mut t = TickTable::new();
    t.update(-100, 0, 5, Fee::zero(), 0, 0, 0, false, u128::MAX).unwrap();
    t.update(60, 0, 5, Fee::zero(), 0, 0, 0, false, u128::MAX).unwrap();
    assert_eq!(t.next_initialized_tick(0, true), (-100, true));
    assert_eq!(t.next_initialized_tick(-100, true), (-100, true));
    assert_eq!(t.next_initialized_tick(-101, true), (MIN_TICK, false));
    assert_eq!(t.next_initialized_tick(0, false), (60, true));
    assert_eq!(t.next_initialized_tick(60, false), (MAX_TICK, false));
}

#[test]
fn max_liquidity_per_tick_formula() {
    assert_eq!(
        max_liquidity_per_tick(60),
        11505743598341114571880798222544994
    );
    assert_eq!(max_liquidity_per_tick(1), 191757530477355301479181766273477);
}

#[test]
fn sqrt_ratio_at_canonical_ticks() {
    // tick 0 is the 1:1 price
    assert_eq!(get_sqrt_ratio_at_tick(0).unwrap(), p(Q96));
    // the domain bounds
    assert_eq!(get_sqrt_ratio_at_tick(MIN_TICK).unwrap(), p(MIN_SQRT_RATIO));
    let max_ratio = U160 { w0: 0x5d95_1d52_6398_8d26, w1: 0xefd1_fc6a_5064_8849, w2: 0xfffd_8963 };
    assert_eq!(get_sqrt_ratio_at_tick(MAX_TICK).unwrap(), max_ratio);
    // symmetric ticks multiply out to one
    let up = get_sqrt_ratio_at_tick(60).unwrap();
    let down = get_sqrt_ratio_at_tick(-60).unwrap();
    assert!(down < p(Q96));
    assert!(up > p(Q96));
    assert_eq!(get_sqrt_ratio_at_tick(MAX_TICK + 1).unwrap_err(), Error::TickOutOfRange);
    assert_eq!(get_sqrt_ratio_at_tick(MIN_TICK - 1).unwrap_err(), Error::TickOutOfRange);
}

#[test]
fn tick_at_sqrt_ratio_brackets_the_price() {
    assert_eq!(get_tick_at_sqrt_ratio(p(Q96)).unwrap(), 0);
    assert_eq!(get_tick_at_sqrt_ratio(p(MIN_SQRT_RATIO)).unwrap(), MIN_TICK);
    for tick in [-887271, -1000, -60, -1, 0, 1, 60, 1000, 887271] {
        let price = get_sqrt_ratio_at_tick(tick).unwrap();
        assert_eq!(get_tick_at_sqrt_ratio(price).unwrap(), tick);
    }
    // below the domain is rejected
    assert_eq!(get_tick_at_sqrt_ratio(p(1)).unwrap_err(), Error::TickOutOfRange);
    assert_eq!(
        get_tick_at_sqrt_ratio(U160::max_value()).unwrap_err(),
        Error::TickOutOfRange
    );
}

#[test]
fn swap_step_exact_input_consumes_remainder() {
    let cur = p(Q96);
    let target = get_sqrt_ratio_at_tick(-600).unwrap();
    let step = computeSwapStep(cur, target, 1_000_000_000_000, i(1_000_000), 3000).unwrap();
    // the fee plus the amount in never exceed the remaining amount
    let total = step.amount_in.checked_add(&step.feeAmount).unwrap();
    assert!(total <= u(1_000_000));
    assert!(step.sqrtRatioNextX96 <= cur);
    assert!(step.sqrtRatioNextX96 >= target);
    if step.sqrtRatioNextX96 != target {
        assert_eq!(total, u(1_000_000));
    }
    assert!(!step.amount_out.is_zero());
}

#[test]
fn swap_step_exact_output_caps_the_output() {
    let cur = p(Q96);
    let target = get_sqrt_ratio_at_tick(-600).unwrap();
    let step = computeSwapStep(cur, target, 1_000_000_000_000, i(-250_000), 3000).unwrap();
    assert!(step.amount_out <= u(250_000));
    assert!(step.sqrtRatioNextX96 >= target);
    if step.sqrtRatioNextX96 != target {
        assert_eq!(step.amount_out, u(250_000));
    }
}

#[test]
fn mod_it_works() {
    let pool = UniV3Pool::new(p(Q96), 60, 3000, 0).unwrap();
    assert_eq!(pool.tick, 0);
    assert_eq!(pool.liquidity, 0);
    let mut pool = pool;
    // a zero amount is rejected
    let r = pool.swap(true, I256::zero(), p(MIN_SQRT_RATIO + 1), 0);
    assert_eq!(r.unwrap_err(), Error::AmountZero);
    // the limit must lie strictly between the bound and the current price
    let r2 = pool.swap(true, i(1), p(Q96 * 2), 0);
    assert_eq!(r2.unwrap_err(), Error::InvalidPriceLimit);
    let r3 = pool.swap(false, i(1), p(Q96 / 2), 0);
    assert_eq!(r3.unwrap_err(), Error::InvalidPriceLimit);
    // a limit exactly at the current price is not strictly between the bounds
    let r4 = pool.swap(true, i(1), p(Q96), 0);
    assert_eq!(r4.unwrap_err(), Error::InvalidPriceLimit);
    let r5 = pool.swap(false, i(1), p(Q96), 0);
    assert_eq!(r5.unwrap_err(), Error::InvalidPriceLimit);
}

/// A pool at the 1:1 price with no liquidity fails any non-zero swap with a
/// domain error instead of returning a zero-amount success.
#[test]
fn swap_with_zero_liquidity_fails() {
    let mut pool = UniV3Pool::new(p(Q96), 60, 3000, 0).unwrap();
    let before_price = pool.sqrt_price;
    let r = pool.swap(true, i(1_000_000), p(MIN_SQRT_RATIO + 1), 0);
    assert_eq!(r.unwrap_err(), Error::NoLiquidity);
    // the failed swap left the pool untouched
    assert_eq!(pool.sqrt_price, before_price);
    assert_eq!(pool.liquidity, 0);
    let below_max_ratio =
        U160 { w0: 0x5d95_1d52_6398_8d25, w1: 0xefd1_fc6a_5064_8849, w2: 0xfffd_8963 };
    let r2 = pool.swap(false, i(-55), below_max_ratio, 0);
    assert_eq!(r2.unwrap_err(), Error::NoLiquidity);
}

fn pool_with_full_range_liquidity(fee_pips: u32, liquidity: u128) -> UniV3Pool {
    let mut pool = UniV3Pool::new(p(Q96), 60, fee_pips, 0).unwrap();
    let max_liq = max_liquidity_per_tick(60);
    pool.tick_table
        .update(MIN_TICK, 0, liquidity as i128, Fee::zero(), 0, 0, 0, false, max_liq)
        .unwrap();
    pool.tick_table
        .update(MAX_TICK, 0, liquidity as i128, Fee::zero(), 0, 0, 0, true, max_liq)
        .unwrap();
    pool.liquidity = liquidity;
    pool
}

/// An exact-input swap of 10^6 token0 against 10^12 full-range liquidity and
/// a 0.3% fee takes the full input, pays out strictly less than the no-fee
/// equivalent, and attributes the fee to global growth with the protocol
/// share disabled.
#[test]
fn exact_input_swap_against_full_range_liquidity() {
    let liquidity: u128 = 1_000_000_000_000;
    let mut pool = pool_with_full_range_liquidity(3000, liquidity);
    let limit = p(MIN_SQRT_RATIO + 1);
    let (a0, a1) = pool.swap(true, i(1_000_000), limit, 0).unwrap();
    // the whole input is consumed, exactly
    assert_eq!(a0, i(1_000_000));
    // token1 flows out
    assert!(a1.is_negative());
    assert!(!a1.abs_u256().is_zero());
    // protocol fee disabled: everything goes to the growth accumulator
    assert!(pool.protocol_fees.token_0.is_zero());
    assert!(pool.protocol_fees.token_1.is_zero());
    assert!(!pool.fee_growth_global.token_0.is_zero());
    assert!(pool.fee_growth_global.token_1.is_zero());
    // the price moved down and stayed above the limit
    assert!(pool.sqrt_price < p(Q96));
    assert!(pool.sqrt_price > limit);

    // the same swap with no fee pays out strictly more
    let mut pool_no_fee = pool_with_full_range_liquidity(0, liquidity);
    let (b0, b1) = pool_no_fee.swap(true, i(1_000_000), limit, 0).unwrap();
    assert_eq!(b0, i(1_000_000));
    assert!(a1.abs_u256() < b1.abs_u256());
}

/// Crossing an initialized tick applies its net liquidity with the sign of
/// the traversal direction.
#[test]
fn swap_crosses_an_initialized_tick() {
    let liquidity: u128 = 1_000_000_000_000;
    let mut pool = pool_with_full_range_liquidity(500, liquidity);
    // a tighter band that is crossed on the way down
    let max_liq = max_liquidity_per_tick(60);
    pool.tick_table
        .update(-60, 0, 700_000_000_000, Fee::zero(), 0, 0, 0, false, max_liq)
        .unwrap();
    pool.liquidity = liquidity + 700_000_000_000;
    let limit = get_sqrt_ratio_at_tick(-3000).unwrap();
    // a large exact-input swap pushes the price through tick -60
    let (a0, _a1) = pool.swap(true, i(40_000_000_000), limit, 0).unwrap();
    assert!(!a0.is_negative());
    assert!(pool.tick < -60);
    // the band's liquidity left the range when its lower tick was crossed
    assert_eq!(pool.liquidity, liquidity);
}
