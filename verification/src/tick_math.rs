//! Conversion between tick indexes and sqrt prices.
//!
//! `get_sqrt_ratio_at_tick` evaluates sqrt(1.0001^tick) in Q96 fixed point by
//! the canonical chain of per-bit Q128 multipliers; that chain of constants is
//! the defining computation, and the spec mirrors it exactly over the
//! mathematical integers. `get_tick_at_sqrt_ratio` inverts it by bisection,
//! maintaining the bracketing invariant at run time, so its result is correct
//! with no monotonicity assumption.

use crate::error::Error;
use crate::full_math::div_rem_u256;
use crate::limbs::{p128, p160, p256, p32, p384, p64};
use crate::tick::{MAX_TICK, MIN_TICK};
use crate::u160::U160;
use crate::u256::U256;
use crate::u512::full_mul;
use vstd::arithmetic::div_mod::{
    lemma_div_is_ordered, lemma_div_multiples_vanish, lemma_fundamental_div_mod_converse,
};
use vstd::arithmetic::mul::lemma_mul_inequality;
use vstd::prelude::*;

verus! {

/// One chain step: multiply by a Q128 multiplier and shift down 128 bits.
#[verifier::opaque]
pub open spec fn mul_shift_spec(r: nat, c: nat) -> nat {
    (r * c) / p128()
}

/// Step 0 of the ratio chain: the starting Q128 value.
#[verifier::opaque]
pub open spec fn chain0(abs_tick: u32) -> nat {
    if abs_tick & 0x1 != 0 {
        0xfffcb933bd6fad37aa2d162d1a594001nat
    } else {
        0x100000000000000000000000000000000nat
    }
}

/// Step 1 of the ratio chain.
#[verifier::opaque]
pub open spec fn chain1(abs_tick: u32) -> nat {
    if abs_tick & 0x2 != 0 {
        mul_shift_spec(chain0(abs_tick), 0xfff97272373d413259a46990580e213anat)
    } else {
        chain0(abs_tick)
    }
}

/// Step 2 of the ratio chain.
#[verifier::opaque]
pub open spec fn chain2(abs_tick: u32) -> nat {
    if abs_tick & 0x4 != 0 {
        mul_shift_spec(chain1(abs_tick), 0xfff2e50f5f656932ef12357cf3c7fdccnat)
    } else {
        chain1(abs_tick)
    }
}

/// Step 3 of the ratio chain.
#[verifier::opaque]
pub open spec fn chain3(abs_tick: u32) -> nat {
    if abs_tick & 0x8 != 0 {
        mul_shift_spec(chain2(abs_tick), 0xffe5caca7e10e4e61c3624eaa0941cd0nat)
    } else {
        chain2(abs_tick)
    }
}

/// Step 4 of the ratio chain.
#[verifier::opaque]
pub open spec fn chain4(abs_tick: u32) -> nat {
    if abs_tick & 0x10 != 0 {
        mul_shift_spec(chain3(abs_tick), 0xffcb9843d60f6159c9db58835c926644nat)
    } else {
        chain3(abs_tick)
    }
}

/// Step 5 of the ratio chain.
#[verifier::opaque]
pub open spec fn chain5(abs_tick: u32) -> nat {
    if abs_tick & 0x20 != 0 {
        mul_shift_spec(chain4(abs_tick), 0xff973b41fa98c081472e6896dfb254c0nat)
    } else {
        chain4(abs_tick)
    }
}

/// Step 6 of the ratio chain.
#[verifier::opaque]
pub open spec fn chain6(abs_tick: u32) -> nat {
    if abs_tick & 0x40 != 0 {
        mul_shift_spec(chain5(abs_tick), 0xff2ea16466c96a3843ec78b326b52861nat)
    } else {
        chain5(abs_tick)
    }
}

/// Step 7 of the ratio chain.
#[verifier::opaque]
pub open spec fn chain7(abs_tick: u32) -> nat {
    if abs_tick & 0x80 != 0 {
        mul_shift_spec(chain6(abs_tick), 0xfe5dee046a99a2a811c461f1969c3053nat)
    } else {
        chain6(abs_tick)
    }
}

/// Step 8 of the ratio chain.
#[verifier::opaque]
pub open spec fn chain8(abs_tick: u32) -> nat {
    if abs_tick & 0x100 != 0 {
        mul_shift_spec(chain7(abs_tick), 0xfcbe86c7900a88aedcffc83b479aa3a4nat)
    } else {
        chain7(abs_tick)
    }
}

/// Step 9 of the ratio chain.
#[verifier::opaque]
pub open spec fn chain9(abs_tick: u32) -> nat {
    if abs_tick & 0x200 != 0 {
        mul_shift_spec(chain8(abs_tick), 0xf987a7253ac413176f2b074cf7815e54nat)
    } else {
        chain8(abs_tick)
    }
}

/// Step 10 of the ratio chain.
#[verifier::opaque]
pub open spec fn chain10(abs_tick: u32) -> nat {
    if abs_tick & 0x400 != 0 {
        mul_shift_spec(chain9(abs_tick), 0xf3392b0822b70005940c7a398e4b70f3nat)
    } else {
        chain9(abs_tick)
    }
}

/// Step 11 of the ratio chain.
#[verifier::opaque]
pub open spec fn chain11(abs_tick: u32) -> nat {
    if abs_tick & 0x800 != 0 {
        mul_shift_spec(chain10(abs_tick), 0xe7159475a2c29b7443b29c7fa6e889d9nat)
    } else {
        chain10(abs_tick)
    }
}

/// Step 12 of the ratio chain.
#[verifier::opaque]
pub open spec fn chain12(abs_tick: u32) -> nat {
    if abs_tick & 0x1000 != 0 {
        mul_shift_spec(chain11(abs_tick), 0xd097f3bdfd2022b8845ad8f792aa5825nat)
    } else {
        chain11(abs_tick)
    }
}

/// Step 13 of the ratio chain.
#[verifier::opaque]
pub open spec fn chain13(abs_tick: u32) -> nat {
    if abs_tick & 0x2000 != 0 {
        mul_shift_spec(chain12(abs_tick), 0xa9f746462d870fdf8a65dc1f90e061e5nat)
    } else {
        chain12(abs_tick)
    }
}

/// Step 14 of the ratio chain.
#[verifier::opaque]
pub open spec fn chain14(abs_tick: u32) -> nat {
    if abs_tick & 0x4000 != 0 {
        mul_shift_spec(chain13(abs_tick), 0x70d869a156d2a1b890bb3df62baf32f7nat)
    } else {
        chain13(abs_tick)
    }
}

/// Step 15 of the ratio chain.
#[verifier::opaque]
pub open spec fn chain15(abs_tick: u32) -> nat {
    if abs_tick & 0x8000 != 0 {
        mul_shift_spec(chain14(abs_tick), 0x31be135f97d08fd981231505542fcfa6nat)
    } else {
        chain14(abs_tick)
    }
}

/// Step 16 of the ratio chain.
#[verifier::opaque]
pub open spec fn chain16(abs_tick: u32) -> nat {
    if abs_tick & 0x10000 != 0 {
        mul_shift_spec(chain15(abs_tick), 0x9aa508b5b7a84e1c677de54f3e99bc9nat)
    } else {
        chain15(abs_tick)
    }
}

/// Step 17 of the ratio chain.
#[verifier::opaque]
pub open spec fn chain17(abs_tick: u32) -> nat {
    if abs_tick & 0x20000 != 0 {
        mul_shift_spec(chain16(abs_tick), 0x5d6af8dedb81196699c329225ee604nat)
    } else {
        chain16(abs_tick)
    }
}

/// Step 18 of the ratio chain.
#[verifier::opaque]
pub open spec fn chain18(abs_tick: u32) -> nat {
    if abs_tick & 0x40000 != 0 {
        mul_shift_spec(chain17(abs_tick), 0x2216e584f5fa1ea926041bedfe98nat)
    } else {
        chain17(abs_tick)
    }
}

/// Step 19 of the ratio chain.
#[verifier::opaque]
pub open spec fn chain19(abs_tick: u32) -> nat {
    if abs_tick & 0x80000 != 0 {
        mul_shift_spec(chain18(abs_tick), 0x48a170391f7dc42444e8fa2nat)
    } else {
        chain18(abs_tick)
    }
}

/// The Q128 ratio chain: one multiplier per set bit of the tick magnitude.
/// Kept opaque so that callers reason about it only through the functions
/// that compute it.
#[verifier::opaque]
pub open spec fn ratio_chain(abs_tick: u32) -> nat {
    chain19(abs_tick)
}

/// The sqrt price at a tick: the ratio chain, inverted for positive ticks,
/// brought from Q128 to Q96 rounding up; out-of-range ticks and results are
/// rejected.
pub open spec fn sqrt_ratio_opt(tick: int) -> Result<nat, Error> {
    if tick < MIN_TICK || tick > MAX_TICK {
        Err(Error::TickOutOfRange)
    } else {
        let abs: u32 = (if tick < 0 {
            -tick
        } else {
            tick
        }) as u32;
        let chain = ratio_chain(abs);
        if tick > 0 && chain == 0 {
            Err(Error::DivisionByZero)
        } else {
            let ratio: nat = if tick > 0 {
                (((p256() - 1) as nat) / chain)
            } else {
                chain
            };
            let v = ratio / p32() + if ratio % p32() == 0 {
                0nat
            } else {
                1nat
            };
            if v < p160() {
                Ok(v)
            } else {
                Err(Error::Overflow)
            }
        }
    }
}

/// One chain step on 256-bit values: exact, and never larger than the input
/// for a multiplier of at most one in Q128.
fn mul_shift(r: &U256, c: u128) -> (o: U256)
    requires
        r@ <= p128(),
    ensures
        o@ == mul_shift_spec(r@, c as nat),
        o@ <= r@,
{
    let c256 = U256::from_u128(c);
    let p = full_mul(r, &c256);
    proof {
        reveal(mul_shift_spec);
        assert(r@ * c <= p128() * (p128() - 1)) by (nonlinear_arith)
            requires
                r@ <= p128(),
                c < p128(),
        ;
        assert(p@ < p384());
        assert(p.w6 == 0 && p.w7 == 0);
    }
    let o = U256 { w0: p.w2, w1: p.w3, w2: p.w4, w3: p.w5 };
    proof {
        assert(p@ == o@ * p128() + (p.w0 + p.w1 * p64())) by (nonlinear_arith)
            requires
                p@ == p.w0 + p.w1 * p64() + p.w2 * p128() + p.w3 * (p64() * p128()) + p.w4 * (
                p128() * p128()) + p.w5 * (p64() * p128() * p128()),
                o@ == p.w2 + p.w3 * p64() + p.w4 * p128() + p.w5 * (p64() * p128()),
        ;
        lemma_fundamental_div_mod_converse(
            p@ as int,
            p128() as int,
            o@ as int,
            (p.w0 + p.w1 * p64()) as int,
        );
        lemma_mul_inequality(c as int, p128() as int, r@ as int);
        assert(c * r@ == r@ * c) by (nonlinear_arith);
        assert(p128() * r@ == r@ * p128()) by (nonlinear_arith);
        lemma_div_is_ordered((r@ * c) as int, (r@ * p128()) as int, p128() as int);
        lemma_div_multiples_vanish(r@ as int, p128() as int);
    }
    o
}

/// chain0 is the branch that the first bit selects.
proof fn lemma_chain0(abs_tick: u32, cur: nat)
    requires
        cur == if abs_tick & 0x1 != 0 {
            0xfffcb933bd6fad37aa2d162d1a594001nat
        } else {
            0x100000000000000000000000000000000nat
        },
    ensures
        cur == chain0(abs_tick),
{
    reveal(chain0);
}

/// chain1 is one conditional step past chain0.
proof fn lemma_chain1(abs_tick: u32, prev: nat, cur: nat)
    requires
        prev == chain0(abs_tick),
        cur == if abs_tick & 0x2 != 0 {
            mul_shift_spec(prev, 0xfff97272373d413259a46990580e213anat)
        } else {
            prev
        },
    ensures
        cur == chain1(abs_tick),
{
    reveal(chain1);
}

/// chain2 is one conditional step past chain1.
proof fn lemma_chain2(abs_tick: u32, prev: nat, cur: nat)
    requires
        prev == chain1(abs_tick),
        cur == if abs_tick & 0x4 != 0 {
            mul_shift_spec(prev, 0xfff2e50f5f656932ef12357cf3c7fdccnat)
        } else {
            prev
        },
    ensures
        cur == chain2(abs_tick),
{
    reveal(chain2);
}

/// chain3 is one conditional step past chain2.
proof fn lemma_chain3(abs_tick: u32, prev: nat, cur: nat)
    requires
        prev == chain2(abs_tick),
        cur == if abs_tick & 0x8 != 0 {
            mul_shift_spec(prev, 0xffe5caca7e10e4e61c3624eaa0941cd0nat)
        } else {
            prev
        },
    ensures
        cur == chain3(abs_tick),
{
    reveal(chain3);
}

/// chain4 is one conditional step past chain3.
proof fn lemma_chain4(abs_tick: u32, prev: nat, cur: nat)
    requires
        prev == chain3(abs_tick),
        cur == if abs_tick & 0x10 != 0 {
            mul_shift_spec(prev, 0xffcb9843d60f6159c9db58835c926644nat)
        } else {
            prev
        },
    ensures
        cur == chain4(abs_tick),
{
    reveal(chain4);
}

/// chain5 is one conditional step past chain4.
proof fn lemma_chain5(abs_tick: u32, prev: nat, cur: nat)
    requires
        prev == chain4(abs_tick),
        cur == if abs_tick & 0x20 != 0 {
            mul_shift_spec(prev, 0xff973b41fa98c081472e6896dfb254c0nat)
        } else {
            prev
        },
    ensures
        cur == chain5(abs_tick),
{
    reveal(chain5);
}

/// chain6 is one conditional step past chain5.
proof fn lemma_chain6(abs_tick: u32, prev: nat, cur: nat)
    requires
        prev == chain5(abs_tick),
        cur == if abs_tick & 0x40 != 0 {
            mul_shift_spec(prev, 0xff2ea16466c96a3843ec78b326b52861nat)
        } else {
            prev
        },
    ensures
        cur == chain6(abs_tick),
{
    reveal(chain6);
}

/// chain7 is one conditional step past chain6.
proof fn lemma_chain7(abs_tick: u32, prev: nat, cur: nat)
    requires
        prev == chain6(abs_tick),
        cur == if abs_tick & 0x80 != 0 {
            mul_shift_spec(prev, 0xfe5dee046a99a2a811c461f1969c3053nat)
        } else {
            prev
        },
    ensures
        cur == chain7(abs_tick),
{
    reveal(chain7);
}

/// chain8 is one conditional step past chain7.
proof fn lemma_chain8(abs_tick: u32, prev: nat, cur: nat)
    requires
        prev == chain7(abs_tick),
        cur == if abs_tick & 0x100 != 0 {
            mul_shift_spec(prev, 0xfcbe86c7900a88aedcffc83b479aa3a4nat)
        } else {
            prev
        },
    ensures
        cur == chain8(abs_tick),
{
    reveal(chain8);
}

/// chain9 is one conditional step past chain8.
proof fn lemma_chain9(abs_tick: u32, prev: nat, cur: nat)
    requires
        prev == chain8(abs_tick),
        cur == if abs_tick & 0x200 != 0 {
            mul_shift_spec(prev, 0xf987a7253ac413176f2b074cf7815e54nat)
        } else {
            prev
        },
    ensures
        cur == chain9(abs_tick),
{
    reveal(chain9);
}

/// chain10 is one conditional step past chain9.
proof fn lemma_chain10(abs_tick: u32, prev: nat, cur: nat)
    requires
        prev == chain9(abs_tick),
        cur == if abs_tick & 0x400 != 0 {
            mul_shift_spec(prev, 0xf3392b0822b70005940c7a398e4b70f3nat)
        } else {
            prev
        },
    ensures
        cur == chain10(abs_tick),
{
    reveal(chain10);
}

/// chain11 is one conditional step past chain10.
proof fn lemma_chain11(abs_tick: u32, prev: nat, cur: nat)
    requires
        prev == chain10(abs_tick),
        cur == if abs_tick & 0x800 != 0 {
            mul_shift_spec(prev, 0xe7159475a2c29b7443b29c7fa6e889d9nat)
        } else {
            prev
        },
    ensures
        cur == chain11(abs_tick),
{
    reveal(chain11);
}

/// chain12 is one conditional step past chain11.
proof fn lemma_chain12(abs_tick: u32, prev: nat, cur: nat)
    requires
        prev == chain11(abs_tick),
        cur == if abs_tick & 0x1000 != 0 {
            mul_shift_spec(prev, 0xd097f3bdfd2022b8845ad8f792aa5825nat)
        } else {
            prev
        },
    ensures
        cur == chain12(abs_tick),
{
    reveal(chain12);
}

/// chain13 is one conditional step past chain12.
proof fn lemma_chain13(abs_tick: u32, prev: nat, cur: nat)
    requires
        prev == chain12(abs_tick),
        cur == if abs_tick & 0x2000 != 0 {
            mul_shift_spec(prev, 0xa9f746462d870fdf8a65dc1f90e061e5nat)
        } else {
            prev
        },
    ensures
        cur == chain13(abs_tick),
{
    reveal(chain13);
}

/// chain14 is one conditional step past chain13.
proof fn lemma_chain14(abs_tick: u32, prev: nat, cur: nat)
    requires
        prev == chain13(abs_tick),
        cur == if abs_tick & 0x4000 != 0 {
            mul_shift_spec(prev, 0x70d869a156d2a1b890bb3df62baf32f7nat)
        } else {
            prev
        },
    ensures
        cur == chain14(abs_tick),
{
    reveal(chain14);
}

/// chain15 is one conditional step past chain14.
proof fn lemma_chain15(abs_tick: u32, prev: nat, cur: nat)
    requires
        prev == chain14(abs_tick),
        cur == if abs_tick & 0x8000 != 0 {
            mul_shift_spec(prev, 0x31be135f97d08fd981231505542fcfa6nat)
        } else {
            prev
        },
    ensures
        cur == chain15(abs_tick),
{
    reveal(chain15);
}

/// chain16 is one conditional step past chain15.
proof fn lemma_chain16(abs_tick: u32, prev: nat, cur: nat)
    requires
        prev == chain15(abs_tick),
        cur == if abs_tick & 0x10000 != 0 {
            mul_shift_spec(prev, 0x9aa508b5b7a84e1c677de54f3e99bc9nat)
        } else {
            prev
        },
    ensures
        cur == chain16(abs_tick),
{
    reveal(chain16);
}

/// chain17 is one conditional step past chain16.
proof fn lemma_chain17(abs_tick: u32, prev: nat, cur: nat)
    requires
        prev == chain16(abs_tick),
        cur == if abs_tick & 0x20000 != 0 {
            mul_shift_spec(prev, 0x5d6af8dedb81196699c329225ee604nat)
        } else {
            prev
        },
    ensures
        cur == chain17(abs_tick),
{
    reveal(chain17);
}

/// chain18 is one conditional step past chain17.
proof fn lemma_chain18(abs_tick: u32, prev: nat, cur: nat)
    requires
        prev == chain17(abs_tick),
        cur == if abs_tick & 0x40000 != 0 {
            mul_shift_spec(prev, 0x2216e584f5fa1ea926041bedfe98nat)
        } else {
            prev
        },
    ensures
        cur == chain18(abs_tick),
{
    reveal(chain18);
}

/// chain19 is one conditional step past chain18.
proof fn lemma_chain19(abs_tick: u32, prev: nat, cur: nat)
    requires
        prev == chain18(abs_tick),
        cur == if abs_tick & 0x80000 != 0 {
            mul_shift_spec(prev, 0x48a170391f7dc42444e8fa2nat)
        } else {
            prev
        },
    ensures
        cur == chain19(abs_tick),
{
    reveal(chain19);
}

/// The full chain is its last step.
proof fn lemma_ratio_chain(abs_tick: u32, cur: nat)
    requires
        cur == chain19(abs_tick),
    ensures
        cur == ratio_chain(abs_tick),
{
    reveal(ratio_chain);
}

/// Evaluates the ratio chain on 256-bit values; the running ratio never
/// exceeds the Q128 one, since every multiplier is below it.
#[verifier::rlimit(100)]
fn ratio_for(abs_tick: u32) -> (r: U256)
    ensures
        r@ == ratio_chain(abs_tick),
        r@ <= p128(),
{
    let mut ratio: U256 = if abs_tick & 0x1 != 0 {
        U256::from_u128(0xfffcb933bd6fad37aa2d162d1a594001u128)
    } else {
        U256 { w0: 0, w1: 0, w2: 1, w3: 0 }
    };
    proof {
        lemma_chain0(abs_tick, ratio@);
    }
    let ghost prev1: nat = ratio@;
    if abs_tick & 0x2 != 0 {
        ratio = mul_shift(&ratio, 0xfff97272373d413259a46990580e213au128);
    }
    proof {
        lemma_chain1(abs_tick, prev1, ratio@);
    }
    let ghost prev2: nat = ratio@;
    if abs_tick & 0x4 != 0 {
        ratio = mul_shift(&ratio, 0xfff2e50f5f656932ef12357cf3c7fdccu128);
    }
    proof {
        lemma_chain2(abs_tick, prev2, ratio@);
    }
    let ghost prev3: nat = ratio@;
    if abs_tick & 0x8 != 0 {
        ratio = mul_shift(&ratio, 0xffe5caca7e10e4e61c3624eaa0941cd0u128);
    }
    proof {
        lemma_chain3(abs_tick, prev3, ratio@);
    }
    let ghost prev4: nat = ratio@;
    if abs_tick & 0x10 != 0 {
        ratio = mul_shift(&ratio, 0xffcb9843d60f6159c9db58835c926644u128);
    }
    proof {
        lemma_chain4(abs_tick, prev4, ratio@);
    }
    let ghost prev5: nat = ratio@;
    if abs_tick & 0x20 != 0 {
        ratio = mul_shift(&ratio, 0xff973b41fa98c081472e6896dfb254c0u128);
    }
    proof {
        lemma_chain5(abs_tick, prev5, ratio@);
    }
    let ghost prev6: nat = ratio@;
    if abs_tick & 0x40 != 0 {
        ratio = mul_shift(&ratio, 0xff2ea16466c96a3843ec78b326b52861u128);
    }
    proof {
        lemma_chain6(abs_tick, prev6, ratio@);
    }
    let ghost prev7: nat = ratio@;
    if abs_tick & 0x80 != 0 {
        ratio = mul_shift(&ratio, 0xfe5dee046a99a2a811c461f1969c3053u128);
    }
    proof {
        lemma_chain7(abs_tick, prev7, ratio@);
    }
    let ghost prev8: nat = ratio@;
    if abs_tick & 0x100 != 0 {
        ratio = mul_shift(&ratio, 0xfcbe86c7900a88aedcffc83b479aa3a4u128);
    }
    proof {
        lemma_chain8(abs_tick, prev8, ratio@);
    }
    let ghost prev9: nat = ratio@;
    if abs_tick & 0x200 != 0 {
        ratio = mul_shift(&ratio, 0xf987a7253ac413176f2b074cf7815e54u128);
    }
    proof {
        lemma_chain9(abs_tick, prev9, ratio@);
    }
    let ghost prev10: nat = ratio@;
    if abs_tick & 0x400 != 0 {
        ratio = mul_shift(&ratio, 0xf3392b0822b70005940c7a398e4b70f3u128);
    }
    proof {
        lemma_chain10(abs_tick, prev10, ratio@);
    }
    let ghost prev11: nat = ratio@;
    if abs_tick & 0x800 != 0 {
        ratio = mul_shift(&ratio, 0xe7159475a2c29b7443b29c7fa6e889d9u128);
    }
    proof {
        lemma_chain11(abs_tick, prev11, ratio@);
    }
    let ghost prev12: nat = ratio@;
    if abs_tick & 0x1000 != 0 {
        ratio = mul_shift(&ratio, 0xd097f3bdfd2022b8845ad8f792aa5825u128);
    }
    proof {
        lemma_chain12(abs_tick, prev12, ratio@);
    }
    let ghost prev13: nat = ratio@;
    if abs_tick & 0x2000 != 0 {
        ratio = mul_shift(&ratio, 0xa9f746462d870fdf8a65dc1f90e061e5u128);
    }
    proof {
        lemma_chain13(abs_tick, prev13, ratio@);
    }
    let ghost prev14: nat = ratio@;
    if abs_tick & 0x4000 != 0 {
        ratio = mul_shift(&ratio, 0x70d869a156d2a1b890bb3df62baf32f7u128);
    }
    proof {
        lemma_chain14(abs_tick, prev14, ratio@);
    }
    let ghost prev15: nat = ratio@;
    if abs_tick & 0x8000 != 0 {
        ratio = mul_shift(&ratio, 0x31be135f97d08fd981231505542fcfa6u128);
    }
    proof {
        lemma_chain15(abs_tick, prev15, ratio@);
    }
    let ghost prev16: nat = ratio@;
    if abs_tick & 0x10000 != 0 {
        ratio = mul_shift(&ratio, 0x9aa508b5b7a84e1c677de54f3e99bc9u128);
    }
    proof {
        lemma_chain16(abs_tick, prev16, ratio@);
    }
    let ghost prev17: nat = ratio@;
    if abs_tick & 0x20000 != 0 {
        ratio = mul_shift(&ratio, 0x5d6af8dedb81196699c329225ee604u128);
    }
    proof {
        lemma_chain17(abs_tick, prev17, ratio@);
    }
    let ghost prev18: nat = ratio@;
    if abs_tick & 0x40000 != 0 {
        ratio = mul_shift(&ratio, 0x2216e584f5fa1ea926041bedfe98u128);
    }
    proof {
        lemma_chain18(abs_tick, prev18, ratio@);
    }
    let ghost prev19: nat = ratio@;
    if abs_tick & 0x80000 != 0 {
        ratio = mul_shift(&ratio, 0x48a170391f7dc42444e8fa2u128);
    }
    proof {
        lemma_chain19(abs_tick, prev19, ratio@);
    }
    proof {
        lemma_ratio_chain(abs_tick, ratio@);
    }
    ratio
}

/// The sqrt price at a tick, in Q96 fixed point.
#[verifier::rlimit(100)]
pub fn get_sqrt_ratio_at_tick(tick: i32) -> (r: Result<U160, Error>)
    ensures
        ({
            let s = sqrt_ratio_opt(tick as int);
            match r {
                Ok(v) => s == Ok::<nat, Error>(v@),
                Err(e) => s == Err::<nat, Error>(e),
            }
        }),
{
    if tick < MIN_TICK || tick > MAX_TICK {
        return Err(Error::TickOutOfRange);
    }
    let abs: u32 = if tick < 0 {
        (-tick) as u32
    } else {
        tick as u32
    };
    let mut ratio: U256 = ratio_for(abs);
    if tick > 0 {
        if ratio.is_zero() {
            return Err(Error::DivisionByZero);
        }
        let (q, _rem) = div_rem_u256(&U256::max_value(), &ratio);
        ratio = q;
    }
    // from Q128 down to Q96, rounding up
    let (shifted, inexact) = ratio.shr32();
    let rounded = if inexact {
        proof {
            lemma_div_is_ordered(ratio@ as int, (p256() - 1) as int, p32() as int);
        }
        let (s, _o) = shifted.overflowing_add(&U256::from_u64(1));
        s
    } else {
        shifted
    };
    U160::try_from_u256(&rounded)
}

/// Whether the ratio chain is defined at every valid tick: no inversion hits
/// a zero chain and no rounded result leaves 160 bits.
pub open spec fn all_ratios_ok() -> bool {
    forall|t: int|
        MIN_TICK <= t <= MAX_TICK ==> (#[trigger] sqrt_ratio_opt(t)) matches Ok(_)
}

/// The largest tick whose sqrt price does not exceed the given one, found by
/// bisection: the bracketing property of the result is checked on the way,
/// so it holds of the returned tick unconditionally. Where every valid tick
/// has a price and the given price lies between the boundary prices, success
/// is owed.
pub fn get_tick_at_sqrt_ratio(sqrt_px96: U160) -> (r: Result<i32, Error>)
    ensures
        r matches Ok(t) ==> MIN_TICK <= t < MAX_TICK && (sqrt_ratio_opt(t as int) matches Ok(v)
            && v <= sqrt_px96@) && (sqrt_ratio_opt(t + 1) matches Ok(w) && sqrt_px96@ < w),
        r matches Err(e) ==> (e == Error::TickOutOfRange && ((sqrt_ratio_opt(
            MIN_TICK as int,
        ) matches Ok(v) && sqrt_px96@ < v) || (sqrt_ratio_opt(MAX_TICK as int) matches Ok(w)
            && w <= sqrt_px96@))) || (exists|t: int|
            MIN_TICK <= t <= MAX_TICK && sqrt_ratio_opt(t) == Err::<nat, Error>(e)),
        (all_ratios_ok() && (sqrt_ratio_opt(MIN_TICK as int) matches Ok(lo) && lo
            <= sqrt_px96@) && (sqrt_ratio_opt(MAX_TICK as int) matches Ok(hi) && sqrt_px96@
            < hi)) ==> r matches Ok(_),
        r matches Err(e) ==> e == Error::TickOutOfRange || e == Error::DivisionByZero || e
            == Error::Overflow,
{
    let minr = match get_sqrt_ratio_at_tick(MIN_TICK) {
        Ok(v) => v,
        Err(e) => {
            proof {
                assert(sqrt_ratio_opt(MIN_TICK as int) == Err::<nat, Error>(e));
            }
            return Err(e);
        },
    };
    if sqrt_px96 < minr {
        return Err(Error::TickOutOfRange);
    }
    let maxr = match get_sqrt_ratio_at_tick(MAX_TICK) {
        Ok(v) => v,
        Err(e) => {
            proof {
                assert(sqrt_ratio_opt(MAX_TICK as int) == Err::<nat, Error>(e));
            }
            return Err(e);
        },
    };
    if !(sqrt_px96 < maxr) {
        return Err(Error::TickOutOfRange);
    }
    let mut lo: i32 = MIN_TICK;
    let mut hi: i32 = MAX_TICK;
    while lo + 1 < hi
        invariant
            MIN_TICK <= lo < hi <= MAX_TICK,
            ({
                let s = sqrt_ratio_opt(lo as int);
                s matches Ok(v) && v <= sqrt_px96@
            }),
            ({
                let s = sqrt_ratio_opt(hi as int);
                s matches Ok(w) && sqrt_px96@ < w
            }),
        decreases hi - lo,
    {
        let mid: i32 = lo + (((hi - lo) as u32) / 2) as i32;
        let midr = match get_sqrt_ratio_at_tick(mid) {
            Ok(v) => v,
            Err(e) => {
                proof {
                    assert(sqrt_ratio_opt(mid as int) == Err::<nat, Error>(e));
                }
                return Err(e);
            },
        };
        if sqrt_px96 < midr {
            hi = mid;
        } else {
            lo = mid;
        }
    }
    Ok(lo)
}

} // verus!
