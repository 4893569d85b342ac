//! Applying a signed liquidity delta to an unsigned liquidity amount, failing
//! loudly on underflow or overflow.

use crate::error::Error;
use vstd::prelude::*;

verus! {

/// Adds a signed delta to a liquidity amount; fails if the sum leaves the
/// unsigned 128-bit range.
pub fn addDelta(x: u128, y: i128) -> (r: Result<u128, Error>)
    ensures
        match r {
            Ok(z) => z == x + y && 0 <= x + y <= u128::MAX,
            Err(e) => (y < 0 && x + y < 0 && e == Error::LiquiditySubUnderflow) || (y >= 0 && x
                + y > u128::MAX && e == Error::LiquidityAddOverflow),
        },
{
    if y < 0 {
        let m: u128 = ((-1 - y) as u128) + 1;
        if x >= m {
            Ok(x - m)
        } else {
            Err(Error::LiquiditySubUnderflow)
        }
    } else {
        let yy = y as u128;
        if x <= u128::MAX - yy {
            Ok(x + yy)
        } else {
            Err(Error::LiquidityAddOverflow)
        }
    }
}

} // verus!
