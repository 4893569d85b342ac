//! Tests of the wide-integer layer and the full-precision and
//! square-root-price arithmetic.

use unisim::error::Error;
use unisim::fixed_point;
use unisim::full_math::{div_rem_u256, mulDivRoundingUp, muldiv, mulmod, unsafeDivRoundingUp};
use unisim::i256::I256;
use unisim::sqrt_price_math::{
    get_amount0_delta, get_amount0_delta_helper, get_amount1_delta, get_amount1_delta_helper,
    get_next_sqrt_price_from_amount0_rounding_up, get_next_sqrt_price_from_amount1_rounding_down,
    get_next_sqrt_price_from_input, get_next_sqrt_price_from_output,
};
use unisim::u160::U160;
use unisim::u256::U256;
use unisim::u512::{div_rem_wide, full_mul, U512};

fn u(x: u128) -> U256 {
    U256::from_u128(x)
}

fn p(x: u128) -> U160 {
    U160::from_u128(x)
}

const Q96: u128 = 79228162514264337593543950336;

#[test]
fn I256_it_works() {
    let zero = I256::zero();
    assert!(zero.is_zero());
    assert!(!zero.is_negative());
    let five = I256::try_from_u256(&u(5)).unwrap();
    let minus_five = I256::neg_from_u256(&u(5)).unwrap();
    assert!(minus_five.is_negative());
    assert!(minus_five < zero);
    assert!(zero < five);
    assert!(minus_five < five);
    assert_eq!(minus_five.wrapping_neg(), five);
    assert_eq!(five.abs_u256(), u(5));
    assert_eq!(minus_five.abs_u256(), u(5));
    assert_eq!(five.try_to_u256().unwrap(), u(5));
    assert_eq!(minus_five.try_to_u256().unwrap_err(), Error::Overflow);
    // the top bit is the sign discriminator
    let top = U256 { w0: 0, w1: 0, w2: 0, w3: 0x8000_0000_0000_0000 };
    assert_eq!(I256::try_from_u256(&top).unwrap_err(), Error::Overflow);
    assert!(I256::max_value() > five);
}

#[test]
fn U160_it_works() {
    assert!(U160::zero().is_zero());
    assert!(!p(1).is_zero());
    assert!(p(1) < p(2));
    assert!(p(Q96) > p(Q96 - 1));
    assert_eq!(p(7).to_u256(), u(7));
    assert_eq!(U160::try_from_u256(&u(7)).unwrap(), p(7));
    // 2^160 does not fit
    let too_big = U256 { w0: 0, w1: 0, w2: 0x1_0000_0000, w3: 0 };
    assert_eq!(U160::try_from_u256(&too_big).unwrap_err(), Error::Overflow);
    assert_eq!(U160::max_value().to_u256().checked_add(&u(1)).unwrap(), too_big);
}

#[test]
fn fixed_point_it_works() {
    assert_eq!(fixed_point::q96(), u(Q96));
    let q128 = fixed_point::q128();
    assert_eq!(q128, U256 { w0: 0, w1: 0, w2: 1, w3: 0 });
    assert_eq!(fixed_point::FP96_RESOLUTION, 96);
}

#[test]
fn u256_arithmetic() {
    let a = u(u128::MAX);
    let (s, carry) = a.overflowing_add(&a);
    assert!(!carry);
    assert_eq!(s, U256 { w0: 0xffff_ffff_ffff_fffe, w1: 0xffff_ffff_ffff_ffff, w2: 1, w3: 0 });
    let max = U256::max_value();
    let (w, carry2) = max.overflowing_add(&u(1));
    assert!(carry2);
    assert!(w.is_zero());
    assert_eq!(max.checked_add(&u(1)), None);
    assert_eq!(u(5).checked_sub(&u(7)), None);
    assert_eq!(u(7).checked_sub(&u(5)).unwrap(), u(2));
    // wrapping subtraction telescopes
    assert_eq!(u(3).wrapping_sub(&u(5)), max.checked_sub(&u(1)).unwrap());
    assert_eq!(u(1).shl96(), u(Q96));
    let (q, rem) = u(1).shl96().shr32();
    assert!(!rem);
    assert_eq!(q, u(1 << 64));
}

#[test]
fn full_mul_and_div_are_exact() {
    let a = u(u128::MAX);
    let b = u(u128::MAX);
    let prod = full_mul(&a, &b);
    // (2^128-1)^2 = 2^256 - 2^129 + 1 still fits; the square of the full
    // 256-bit maximum does not
    assert!(prod.fits_u256());
    let max = U256::max_value();
    assert!(!full_mul(&max, &max).fits_u256());
    let (q, r) = div_rem_wide(&prod, &b);
    assert!(q.fits_u256());
    assert_eq!(q.to_u256(), a);
    assert!(r.is_zero());
    let n = U512::from_u256(&u(1000));
    let (q2, r2) = div_rem_wide(&n, &u(7));
    assert_eq!(q2.to_u256(), u(142));
    assert_eq!(r2, u(6));
}

#[test]
fn muldiv_matches_reference_values() {
    // floor(37 * 41 / 5) = 303, remainder 2
    assert_eq!(muldiv(&u(37), &u(41), &u(5)).unwrap(), u(303));
    assert_eq!(mulmod(&u(37), &u(41), &u(5)).unwrap(), u(2));
    assert_eq!(mulDivRoundingUp(&u(37), &u(41), &u(5)).unwrap(), u(304));
    // full-precision intermediate: (2^128-1)^2 / (2^128-1) = 2^128-1
    let m = u(u128::MAX);
    assert_eq!(muldiv(&m, &m, &m).unwrap(), m);
}

/// For all a, b, d with d > 0 the rounded-up quotient exceeds the floor by
/// one exactly when the product has a remainder; checked here on values.
#[test]
fn rounding_up_difference_is_the_remainder_indicator() {
    let cases: Vec<(u128, u128, u128)> =
        vec![(37, 41, 5), (10, 10, 4), (0, 9, 3), (u128::MAX, 3, 7), (6, 8, 12)];
    for (a, b, d) in cases {
        let fl = muldiv(&u(a), &u(b), &u(d)).unwrap();
        let up = mulDivRoundingUp(&u(a), &u(b), &u(d)).unwrap();
        let md = mulmod(&u(a), &u(b), &u(d)).unwrap();
        let diff = up.checked_sub(&fl).unwrap();
        if md.is_zero() {
            assert!(diff.is_zero());
        } else {
            assert_eq!(diff, u(1));
        }
    }
}

/// a*b == muldiv(a,b,d)*d + mulmod(a,b,d), checked through the wide product.
#[test]
fn muldiv_mulmod_roundtrip() {
    let a = u(123456789012345678901234567890);
    let b = u(987654321098765432109876543210);
    let d = u(1000000007);
    let fl = muldiv(&a, &b, &d).unwrap();
    let md = mulmod(&a, &b, &d).unwrap();
    let back = full_mul(&fl, &d);
    let (sum, carry) = back.to_u256().overflowing_add(&md);
    assert!(back.fits_u256());
    assert!(!carry);
    assert_eq!(sum, full_mul(&a, &b).to_u256());
}

#[test]
fn division_errors() {
    assert_eq!(muldiv(&u(1), &u(1), &U256::zero()).unwrap_err(), Error::DivisionByZero);
    assert_eq!(mulmod(&u(1), &u(1), &U256::zero()).unwrap_err(), Error::DivisionByZero);
    assert_eq!(
        unsafeDivRoundingUp(&u(1), &U256::zero()).unwrap_err(),
        Error::DivisionByZero
    );
    // quotient does not fit in 256 bits
    let m = U256::max_value();
    assert_eq!(muldiv(&m, &m, &u(1)).unwrap_err(), Error::Overflow);
    // ceil(7/2) = 4
    assert_eq!(unsafeDivRoundingUp(&u(7), &u(2)).unwrap(), u(4));
    let (q, r) = div_rem_u256(&u(7), &u(2));
    assert_eq!(q, u(3));
    assert_eq!(r, u(1));
}

#[test]
fn sqrt_price_math_it_works() {
    // moving up by token1, then asking for the delta back, is consistent
    let price = p(Q96);
    let next =
        get_next_sqrt_price_from_amount1_rounding_down(price, 1_000_000_000_000, u(1000), true)
            .unwrap();
    assert!(next > price);
    let d1 = get_amount1_delta_helper(price, next, 1_000_000_000_000, true).unwrap();
    assert_eq!(d1, u(1000));
}

/// Zero-amount identity: the price is returned unchanged for either
/// direction.
#[test]
fn next_price_from_zero_amount0_is_identity() {
    let price = p(123456789 * Q96 / 1000);
    for add in [true, false] {
        let r =
            get_next_sqrt_price_from_amount0_rounding_up(price, 42, U256::zero(), add).unwrap();
        assert_eq!(r, price);
    }
}

/// The token0 delta between equal prices is zero whichever way it rounds.
#[test]
fn amount0_delta_equal_prices_is_zero() {
    let price = p(3 * Q96);
    for round_up in [true, false] {
        let r = get_amount0_delta_helper(price, price, 77, round_up).unwrap();
        assert!(r.is_zero());
    }
    // a zero price is a domain error instead
    assert_eq!(
        get_amount0_delta_helper(U160::zero(), U160::zero(), 77, true).unwrap_err(),
        Error::PriceZero
    );
}

/// Monotonicity: a larger token1 amount never lowers the resulting price
/// when adding, never raises it when removing, and removal fails rather than
/// wrapping once the quotient reaches the price.
#[test]
fn next_price_from_amount1_is_monotonic() {
    let price = p(Q96);
    let l: u128 = 1_000_000;
    let mut last = price;
    for amt in [0u128, 1, 10, 1000, 100000] {
        let r = get_next_sqrt_price_from_amount1_rounding_down(price, l, u(amt), true).unwrap();
        assert!(r >= last);
        assert!(r >= price);
        last = r;
    }
    let down_small =
        get_next_sqrt_price_from_amount1_rounding_down(price, l, u(10), false).unwrap();
    let down_large =
        get_next_sqrt_price_from_amount1_rounding_down(price, l, u(1000), false).unwrap();
    assert!(down_large <= down_small);
    assert!(down_small <= price);
    // removing far more than the range holds fails loudly
    let r = get_next_sqrt_price_from_amount1_rounding_down(price, 1, u(u128::MAX), false);
    assert_eq!(r.unwrap_err(), Error::Overflow);
}

#[test]
fn next_price_from_input_and_output_check_domain() {
    assert_eq!(
        get_next_sqrt_price_from_input(U160::zero(), 1, u(1), true).unwrap_err(),
        Error::PriceZero
    );
    assert_eq!(
        get_next_sqrt_price_from_input(p(Q96), 0, u(1), true).unwrap_err(),
        Error::LiquidityZero
    );
    assert_eq!(
        get_next_sqrt_price_from_output(U160::zero(), 1, u(1), false).unwrap_err(),
        Error::PriceZero
    );
    assert_eq!(
        get_next_sqrt_price_from_output(p(Q96), 0, u(1), false).unwrap_err(),
        Error::LiquidityZero
    );
    // token0 in lowers the price; token1 in raises it
    let lower = get_next_sqrt_price_from_input(p(Q96), 1_000_000_000, u(1000), true).unwrap();
    assert!(lower < p(Q96));
    let higher = get_next_sqrt_price_from_input(p(Q96), 1_000_000_000, u(1000), false).unwrap();
    assert!(higher > p(Q96));
}

/// The signed wrappers negate the round-down amount for removed liquidity
/// and keep the round-up amount for added liquidity.
#[test]
fn signed_deltas_round_against_the_position() {
    let a = p(Q96);
    let b = p(Q96 + Q96 / 100);
    let added0 = get_amount0_delta(a, b, 1_000_000_000).unwrap();
    let removed0 = get_amount0_delta(a, b, -1_000_000_000).unwrap();
    assert!(!added0.is_negative());
    assert!(removed0.is_negative());
    // |removed| <= added: closing a position never over-returns
    assert!(removed0.abs_u256() <= added0.abs_u256());
    let added1 = get_amount1_delta(a, b, 1_000_000_000).unwrap();
    let removed1 = get_amount1_delta(a, b, -1_000_000_000).unwrap();
    assert!(!added1.is_negative());
    assert!(removed1.is_negative());
    assert!(removed1.abs_u256() <= added1.abs_u256());
}

/// Idempotence: the pure quote functions return identical results on
/// identical inputs.
#[test]
fn quotes_are_idempotent() {
    let price = p(Q96 * 2);
    let l: u128 = 55_555_555;
    let r1 = get_next_sqrt_price_from_input(price, l, u(777), true).unwrap();
    let r2 = get_next_sqrt_price_from_input(price, l, u(777), true).unwrap();
    assert_eq!(r1, r2);
    let o1 = get_next_sqrt_price_from_output(price, l, u(777), false).unwrap();
    let o2 = get_next_sqrt_price_from_output(price, l, u(777), false).unwrap();
    assert_eq!(o1, o2);
    let a = get_amount0_delta(price, p(Q96), 123456).unwrap();
    let b = get_amount0_delta(price, p(Q96), 123456).unwrap();
    assert_eq!(a, b);
    let c = get_amount1_delta(price, p(Q96), 123456).unwrap();
    let d = get_amount1_delta(price, p(Q96), 123456).unwrap();
    assert_eq!(c, d);
}
