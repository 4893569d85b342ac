//! Single-limb arithmetic: the 64-bit digit operations that the wide integer
//! types are built from, each exact over the mathematical integers.

use vstd::arithmetic::div_mod::lemma_fundamental_div_mod;
use vstd::arithmetic::power2::{lemma2_to64, lemma_pow2_adds, pow2};
use vstd::prelude::*;

verus! {

/// 2^32.
pub open spec fn p32() -> nat {
    0x1_0000_0000nat
}

/// 2^64, the radix of one limb.
pub open spec fn p64() -> nat {
    0x1_0000_0000_0000_0000nat
}

/// 2^96, the square-root-price fixed-point scale.
pub open spec fn p96() -> nat {
    0x1_0000_0000_0000_0000_0000_0000nat
}

/// 2^128, the fee-growth fixed-point scale.
pub open spec fn p128() -> nat {
    0x1_0000_0000_0000_0000_0000_0000_0000_0000nat
}

/// 2^160, one above the largest 160-bit value.
pub open spec fn p160() -> nat {
    0x1_0000_0000_0000_0000_0000_0000_0000_0000_0000_0000nat
}

/// 2^192.
pub open spec fn p192() -> nat {
    0x1_0000_0000_0000_0000_0000_0000_0000_0000_0000_0000_0000_0000nat
}

/// 2^224.
pub open spec fn p224() -> nat {
    0x1_0000_0000_0000_0000_0000_0000_0000_0000_0000_0000_0000_0000_0000_0000nat
}

/// 2^256, one above the largest 256-bit value.
pub open spec fn p256() -> nat {
    0x1_0000_0000_0000_0000_0000_0000_0000_0000_0000_0000_0000_0000_0000_0000_0000_0000nat
}

/// 2^320.
pub open spec fn p320() -> nat {
    0x1_0000_0000_0000_0000_0000_0000_0000_0000_0000_0000_0000_0000_0000_0000_0000_0000_0000_0000_0000_0000nat
}

/// 2^384.
pub open spec fn p384() -> nat {
    0x1_0000_0000_0000_0000_0000_0000_0000_0000_0000_0000_0000_0000_0000_0000_0000_0000_0000_0000_0000_0000_0000_0000_0000_0000nat
}

/// 2^448.
pub open spec fn p448() -> nat {
    0x1_0000_0000_0000_0000_0000_0000_0000_0000_0000_0000_0000_0000_0000_0000_0000_0000_0000_0000_0000_0000_0000_0000_0000_0000_0000_0000_0000_0000nat
}

/// 2^512, one above the largest double-width value.
pub open spec fn p512() -> nat {
    0x1_0000_0000_0000_0000_0000_0000_0000_0000_0000_0000_0000_0000_0000_0000_0000_0000_0000_0000_0000_0000_0000_0000_0000_0000_0000_0000_0000_0000_0000_0000_0000_0000nat
}

/// The powers of two named above, expressed through `pow2`.
pub proof fn lemma_pow2_vals()
    ensures
        pow2(32) == p32(),
        pow2(64) == p64(),
        pow2(96) == p96(),
        pow2(128) == p128(),
        pow2(160) == p160(),
        pow2(192) == p192(),
        pow2(224) == p224(),
        pow2(256) == p256(),
        pow2(320) == p320(),
        pow2(384) == p384(),
        pow2(448) == p448(),
        pow2(512) == p512(),
{
    lemma2_to64();
    lemma_pow2_adds(64, 32);
    lemma_pow2_adds(64, 64);
    lemma_pow2_adds(128, 32);
    lemma_pow2_adds(128, 64);
    lemma_pow2_adds(192, 32);
    lemma_pow2_adds(192, 64);
    lemma_pow2_adds(256, 64);
    lemma_pow2_adds(256, 128);
    lemma_pow2_adds(256, 192);
    lemma_pow2_adds(256, 256);
    assert(p64() * p32() == p96());
    assert(p64() * p64() == p128());
    assert(p128() * p32() == p160());
    assert(p128() * p64() == p192());
    assert(p192() * p32() == p224());
    assert(p192() * p64() == p256());
    assert(p256() * p64() == p320()) by (nonlinear_arith);
    assert(p256() * p128() == p384()) by (nonlinear_arith);
    assert(p256() * p192() == p448()) by (nonlinear_arith);
    assert(p256() * p256() == p512()) by (nonlinear_arith);
}

/// Splits a limb into its low and high 32-bit halves.
pub fn split32(x: u64) -> (r: (u64, u64))
    ensures
        (r.0 as nat) + (r.1 as nat) * p32() == x,
        r.0 < p32(),
        r.1 < p32(),
{
    let lo: u64 = x % 0x1_0000_0000;
    let hi: u64 = x / 0x1_0000_0000;
    proof {
        lemma_fundamental_div_mod(x as int, 0x1_0000_0000);
    }
    (lo, hi)
}

/// Adds two limbs and a carry; returns the low limb and the carry out.
pub fn add_limb(x: u64, y: u64, c: u64) -> (r: (u64, u64))
    requires
        c <= 1,
    ensures
        (r.0 as nat) + (r.1 as nat) * p64() == x + y + c,
        r.1 <= 1,
{
    let t: u128 = x as u128 + y as u128 + c as u128;
    let lo: u64 = (t % 0x1_0000_0000_0000_0000u128) as u64;
    let hi: u64 = (t / 0x1_0000_0000_0000_0000u128) as u64;
    proof {
        lemma_fundamental_div_mod(t as int, 0x1_0000_0000_0000_0000);
    }
    (lo, hi)
}

/// Subtracts a limb and a borrow from a limb; returns the low limb and the
/// borrow out.
pub fn sub_limb(x: u64, y: u64, b: u64) -> (r: (u64, u64))
    requires
        b <= 1,
    ensures
        r.0 == x - y - b + (r.1 as int) * p64(),
        r.1 <= 1,
{
    let yb: u128 = y as u128 + b as u128;
    if (x as u128) >= yb {
        (((x as u128) - yb) as u64, 0u64)
    } else {
        (((x as u128) + 0x1_0000_0000_0000_0000u128 - yb) as u64, 1u64)
    }
}

/// Multiplies two limbs and adds an accumulator limb and a carry limb; the
/// result spans exactly two limbs (the extreme case
/// (2^64-1)^2 + 2*(2^64-1) = 2^128 - 1 still fits).
pub fn mac_limb(a: u64, b: u64, acc: u64, c: u64) -> (r: (u64, u64))
    ensures
        (r.0 as nat) + (r.1 as nat) * p64() == a * b + acc + c,
{
    proof {
        assert((a as int) * (b as int) <= 0xffff_ffff_ffff_ffff * 0xffff_ffff_ffff_ffff)
            by (nonlinear_arith)
            requires
                a <= 0xffff_ffff_ffff_ffff,
                b <= 0xffff_ffff_ffff_ffff,
        ;
    }
    let p: u128 = (a as u128) * (b as u128);
    let t: u128 = p + acc as u128 + c as u128;
    let lo: u64 = (t % 0x1_0000_0000_0000_0000u128) as u64;
    let hi: u64 = (t / 0x1_0000_0000_0000_0000u128) as u64;
    proof {
        lemma_fundamental_div_mod(t as int, 0x1_0000_0000_0000_0000);
    }
    (lo, hi)
}

} // verus!
