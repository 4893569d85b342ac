//! Fixed-point scale constants: sqrt prices carry an implicit denominator of
//! Q96 = 2^96 and fee-growth accumulators one of Q128 = 2^128.

use crate::limbs::{p128, p96};
use crate::u256::U256;
use vstd::prelude::*;

verus! {

/// The number of fractional bits of a sqrt price.
pub const FP96_RESOLUTION: u8 = 96;

/// Q96 = 2^96 as a 256-bit value.
pub fn q96() -> (r: U256)
    ensures
        r@ == p96(),
{
    U256 { w0: 0, w1: 0x1_0000_0000, w2: 0, w3: 0 }
}

/// Q128 = 2^128 as a 256-bit value.
pub fn q128() -> (r: U256)
    ensures
        r@ == p128(),
{
    U256 { w0: 0, w1: 0, w2: 1, w3: 0 }
}

} // verus!
