//! 512-bit intermediates: the double-width products and dividends of
//! full-precision multiply-divide.

use crate::limbs::{
    add_limb, lemma_pow2_vals, mac_limb, p128, p192, p256, p320, p384, p448, p512, p64,
};
use crate::u256::U256;
use vstd::arithmetic::div_mod::{
    lemma_fundamental_div_mod_converse, lemma_fundamental_div_mod,
};
use vstd::arithmetic::power2::{lemma_pow2_adds, lemma_pow2_pos, pow2};
use vstd::prelude::*;

verus! {

/// A 512-bit unsigned integer, eight 64-bit limbs, least significant first.
#[derive(Clone, Copy, Debug, PartialEq, Eq, Structural)]
pub struct U512 {
    pub w0: u64,
    pub w1: u64,
    pub w2: u64,
    pub w3: u64,
    pub w4: u64,
    pub w5: u64,
    pub w6: u64,
    pub w7: u64,
}

impl View for U512 {
    type V = nat;

    open spec fn view(&self) -> nat {
        (self.w0 as nat) + (self.w1 as nat) * p64() + (self.w2 as nat) * p128() + (
        self.w3 as nat) * p192() + (self.w4 as nat) * p256() + (self.w5 as nat) * p320() + (
        self.w6 as nat) * p384() + (self.w7 as nat) * p448()
    }
}

impl U512 {
    /// The zero value.
    pub fn zero() -> (r: U512)
        ensures
            r@ == 0,
    {
        U512 { w0: 0, w1: 0, w2: 0, w3: 0, w4: 0, w5: 0, w6: 0, w7: 0 }
    }

    /// Widens a 256-bit value.
    pub fn from_u256(a: &U256) -> (r: U512)
        ensures
            r@ == a@,
    {
        U512 { w0: a.w0, w1: a.w1, w2: a.w2, w3: a.w3, w4: 0, w5: 0, w6: 0, w7: 0 }
    }

    /// Whether the value fits in 256 bits.
    pub fn fits_u256(&self) -> (r: bool)
        ensures
            r <==> self@ < p256(),
    {
        self.w4 == 0 && self.w5 == 0 && self.w6 == 0 && self.w7 == 0
    }

    /// The low 256 bits, exact when the value fits.
    pub fn to_u256(&self) -> (r: U256)
        requires
            self@ < p256(),
        ensures
            r@ == self@,
    {
        U256 { w0: self.w0, w1: self.w1, w2: self.w2, w3: self.w3 }
    }

    /// Sum with carry out: `r.0@ + r.1 * 2^512 == self@ + other@`.
    pub fn overflowing_add(&self, other: &U512) -> (r: (U512, bool))
        ensures
            r.0@ + (if r.1 {
                p512()
            } else {
                0nat
            }) == self@ + other@,
    {
        let (s0, c0) = add_limb(self.w0, other.w0, 0);
        let (s1, c1) = add_limb(self.w1, other.w1, c0);
        let (s2, c2) = add_limb(self.w2, other.w2, c1);
        let (s3, c3) = add_limb(self.w3, other.w3, c2);
        let (s4, c4) = add_limb(self.w4, other.w4, c3);
        let (s5, c5) = add_limb(self.w5, other.w5, c4);
        let (s6, c6) = add_limb(self.w6, other.w6, c5);
        let (s7, c7) = add_limb(self.w7, other.w7, c6);
        (U512 { w0: s0, w1: s1, w2: s2, w3: s3, w4: s4, w5: s5, w6: s6, w7: s7 }, c7 == 1)
    }
}

/// Distributes a 256-bit value over one 64-bit multiplier, limb by limb.
proof fn lemma_scale_limbs(a: U256, b: u64)
    ensures
        a@ * b == (a.w0 as nat) * b + ((a.w1 as nat) * b) * p64() + ((a.w2 as nat) * b) * p128()
            + ((a.w3 as nat) * b) * p192(),
{
    assert(((a.w0 as nat) + (a.w1 as nat) * p64() + (a.w2 as nat) * p128() + (a.w3 as nat)
        * p192()) * b == (a.w0 as nat) * b + ((a.w1 as nat) * b) * p64() + ((a.w2 as nat) * b)
        * p128() + ((a.w3 as nat) * b) * p192()) by (nonlinear_arith);
}

/// Distributes a multiplicand over the four limbs of a 256-bit multiplier.
proof fn lemma_scale_u256(x: nat, b: U256)
    ensures
        x * b@ == x * b.w0 + (x * b.w1) * p64() + (x * b.w2) * p128() + (x * b.w3) * p192(),
{
    assert(x * ((b.w0 as nat) + (b.w1 as nat) * p64() + (b.w2 as nat) * p128() + (b.w3 as nat)
        * p192()) == x * b.w0 + (x * b.w1) * p64() + (x * b.w2) * p128() + (x * b.w3) * p192())
        by (nonlinear_arith);
}

/// One row of the schoolbook product: adds `a * bj` onto four result limbs,
/// returning the four updated limbs and the carry limb.
fn mul_add_row(a: &U256, bj: u64, r0: u64, r1: u64, r2: u64, r3: u64) -> (out: (
    u64,
    u64,
    u64,
    u64,
    u64,
))
    ensures
        (out.0 as nat) + (out.1 as nat) * p64() + (out.2 as nat) * p128() + (out.3 as nat)
            * p192() + (out.4 as nat) * p256() == a@ * bj + r0 + (r1 as nat) * p64() + (
        r2 as nat) * p128() + (r3 as nat) * p192(),
{
    let (o0, c0) = mac_limb(a.w0, bj, r0, 0);
    let (o1, c1) = mac_limb(a.w1, bj, r1, c0);
    let (o2, c2) = mac_limb(a.w2, bj, r2, c1);
    let (o3, c3) = mac_limb(a.w3, bj, r3, c2);
    proof {
        lemma_scale_limbs(*a, bj);
    }
    (o0, o1, o2, o3, c3)
}

/// The full 512-bit product of two 256-bit values.
pub fn full_mul(a: &U256, b: &U256) -> (r: U512)
    ensures
        r@ == a@ * b@,
{
    let (p0, p1, p2, p3, p4) = mul_add_row(a, b.w0, 0, 0, 0, 0);
    let (q1, q2, q3, q4, q5) = mul_add_row(a, b.w1, p1, p2, p3, p4);
    let (s2, s3, s4, s5, s6) = mul_add_row(a, b.w2, q2, q3, q4, q5);
    let (t3, t4, t5, t6, t7) = mul_add_row(a, b.w3, s3, s4, s5, s6);
    let r = U512 { w0: p0, w1: q1, w2: s2, w3: t3, w4: t4, w5: t5, w6: t6, w7: t7 };
    proof {
        lemma_scale_u256(a@, *b);
        lemma_pow2_vals();
        assert(r@ == a@ * b.w0 + (a@ * b.w1) * p64() + (a@ * b.w2) * p128() + (a@ * b.w3)
            * p192());
    }
    r
}

/// Long division of a 512-bit dividend by a 256-bit divisor, one bit per
/// step: quotient and remainder, both exact.
#[verifier::rlimit(100)]
pub fn div_rem_wide(n: &U512, d: &U256) -> (r: (U512, U256))
    requires
        d@ > 0,
    ensures
        r.0@ == n@ / d@,
        r.1@ == n@ % d@,
{
    let mut q = U512::zero();
    let mut rem = U256::zero();
    let mut cur: U512 = *n;
    let one = U256::from_u64(1);
    let ghost mut prefix: nat = 0;
    let ghost mut k: nat = n@;
    let mut i: u32 = 0;
    proof {
        vstd::arithmetic::power2::lemma2_to64();
        assert(cur@ == k * pow2(0)) by (nonlinear_arith)
            requires
                pow2(0) == 1,
                cur@ == k,
        ;
    }
    while i < 512
        invariant
            d@ > 0,
            one@ == 1,
            i <= 512,
            cur@ == k * pow2(i as nat),
            n@ == prefix * pow2((512 - i) as nat) + k,
            prefix == q@ * d@ + rem@,
            rem@ < d@,
            q@ < pow2(i as nat),
        decreases 512 - i,
    {
        proof {
            lemma_pow2_vals();
            vstd::arithmetic::power2::lemma2_to64();
            lemma_pow2_adds((511 - i) as nat, 1);
            lemma_pow2_adds((511 - i) as nat, (i + 1) as nat);
            lemma_pow2_adds(i as nat, 1);
            lemma_pow2_pos(i as nat);
            lemma_pow2_pos((511 - i) as nat);
            if i < 511 {
                vstd::arithmetic::power2::lemma_pow2_strictly_increases(i as nat, 511);
            }
            lemma_pow2_adds(511, 1);
        }
        let ghost q_old: nat = q@;
        let ghost rem_old: nat = rem@;
        // shift the dividend left by one; the top bit falls out
        let (cur2, top) = cur.overflowing_add(&cur);
        let ghost t: nat = if top {
            1nat
        } else {
            0nat
        };
        // rem3 plus any carried 257th bit is the doubled remainder plus the
        // incoming bit
        let (rem2, c1) = rem.overflowing_add(&rem);
        let (rem3, c2) = if top {
            rem2.overflowing_add(&one)
        } else {
            (rem2, false)
        };
        let ghost rtrue: nat = 2 * rem_old + t;
        proof {
            assert(rtrue < 2 * d@);
            assert(rem3@ + (if c1 {
                p256()
            } else {
                0nat
            }) + (if c2 {
                p256()
            } else {
                0nat
            }) == rtrue);
            assert(!(c1 && c2));
        }
        // double the quotient, then add the new bit if one is owed
        let (q2, qo) = q.overflowing_add(&q);
        proof {
            assert(2 * q@ < pow2(512));
            assert(!qo);
        }
        let subtract = c1 || c2 || rem3 >= *d;
        if subtract {
            let (rsub, _borrow) = rem3.overflowing_sub(d);
            let (q3, qo2) = q2.overflowing_add(
                &U512 { w0: 1, w1: 0, w2: 0, w3: 0, w4: 0, w5: 0, w6: 0, w7: 0 },
            );
            proof {
                assert(rtrue >= d@);
                assert(rsub@ == rtrue - d@);
                assert(!qo2);
                assert(q3@ == 2 * q_old + 1);
            }
            q = q3;
            rem = rsub;
        } else {
            q = q2;
            rem = rem3;
        }
        proof {
            // the dividend keeps the not-yet-consumed value, still divisible
            let kk: nat = (k - t * pow2((511 - i) as nat)) as nat;
            assert(cur2@ + t * p512() == 2 * (k * pow2(i as nat)));
            assert(pow2(512) == (2 * pow2((511 - i) as nat)) * pow2(i as nat))
                by (nonlinear_arith)
                requires
                    pow2(512) == pow2((511 - i) as nat) * pow2((i + 1) as nat),
                    pow2((i + 1) as nat) == pow2(i as nat) * pow2(1),
                    pow2(1) == 2,
            ;
            if top {
                assert(2 * (k * pow2(i as nat)) >= pow2(512));
                assert(k >= pow2((511 - i) as nat)) by (nonlinear_arith)
                    requires
                        2 * (k * pow2(i as nat)) >= (2 * pow2((511 - i) as nat)) * pow2(
                            i as nat,
                        ),
                        pow2(i as nat) > 0,
                ;
            }
            assert(k >= t * pow2((511 - i) as nat));
            assert(cur2@ == kk * pow2((i + 1) as nat)) by (nonlinear_arith)
                requires
                    cur2@ + t * pow2(512) == 2 * (k * pow2(i as nat)),
                    kk == k - t * pow2((511 - i) as nat),
                    k >= t * pow2((511 - i) as nat),
                    pow2(512) == (2 * pow2((511 - i) as nat)) * pow2(i as nat),
                    pow2((i + 1) as nat) == pow2(i as nat) * pow2(1),
                    pow2(1) == 2,
            ;
            // the processed prefix gains the bit that fell out
            let pp: nat = 2 * prefix + t;
            assert(n@ == pp * pow2((511 - i) as nat) + kk) by (nonlinear_arith)
                requires
                    n@ == prefix * pow2((512 - i) as nat) + k,
                    pp == 2 * prefix + t,
                    kk == k - t * pow2((511 - i) as nat),
                    k >= t * pow2((511 - i) as nat),
                    pow2((512 - i) as nat) == pow2((511 - i) as nat) * pow2(1),
                    pow2(1) == 2,
            ;
            // the prefix's euclidean decomposition follows the chosen branch
            if subtract {
                assert(pp == (2 * q_old + 1) * d@ + (rtrue - d@)) by (nonlinear_arith)
                    requires
                        pp == 2 * prefix + t,
                        prefix == q_old * d@ + rem_old,
                        rtrue == 2 * rem_old + t,
                ;
            } else {
                assert(pp == (2 * q_old) * d@ + rtrue) by (nonlinear_arith)
                    requires
                        pp == 2 * prefix + t,
                        prefix == q_old * d@ + rem_old,
                        rtrue == 2 * rem_old + t,
                ;
            }
            assert(pp == q@ * d@ + rem@);
            // the new bit keeps the quotient below the next power of two
            assert(q@ < pow2((i + 1) as nat));
            prefix = pp;
            k = kk;
        }
        cur = cur2;
        i = i + 1;
    }
    proof {
        lemma_pow2_vals();
        vstd::arithmetic::power2::lemma2_to64();
        if k > 0 {
            assert(k * pow2(512) >= pow2(512)) by (nonlinear_arith)
                requires
                    k >= 1,
                    pow2(512) > 0,
            ;
        }
        assert(k == 0);
        assert(n@ == prefix * pow2(0) + k);
        assert(n@ == prefix) by (nonlinear_arith)
            requires
                n@ == prefix * pow2(0) + k,
                pow2(0) == 1,
                k == 0,
        ;
        lemma_fundamental_div_mod_converse(n@ as int, d@ as int, q@ as int, rem@ as int);
    }
    (q, rem)
}

} // verus!
