use vstd::prelude::*;

verus! {

/// Typed failure of an engine operation.
///
/// Three families: range/overflow errors (a value does not fit the target
/// width), domain errors (a zero price, liquidity or divisor where a positive
/// one is needed), and invariant violations (per-tick liquidity above the
/// configured maximum, a price limit outside the admissible interval).
/// Every arithmetic path that can lose information reports one of these
/// instead of silently wrapping.
#[derive(Clone, Copy, Debug, PartialEq, Eq, Structural)]
pub enum Error {
    /// A result or conversion does not fit the target width.
    Overflow,
    /// Division or modulus by zero.
    DivisionByZero,
    /// A sqrt price is zero where a positive one is required.
    PriceZero,
    /// A liquidity amount is zero where a positive one is required.
    LiquidityZero,
    /// Adding a positive liquidity delta overflowed the 128-bit width.
    LiquidityAddOverflow,
    /// Subtracting a liquidity delta went below zero.
    LiquiditySubUnderflow,
    /// A tick's gross liquidity would exceed the per-tick maximum.
    LiquidityGrossOverflow,
    /// The tick is not present in the tick table.
    TickNotFound,
    /// A tick index lies outside the valid tick range.
    TickOutOfRange,
    /// The price limit does not lie strictly between the current price and
    /// the domain bound for the requested direction.
    InvalidPriceLimit,
    /// The requested swap amount is zero.
    AmountZero,
    /// The swap exchanged nothing: no usable liquidity in range.
    NoLiquidity,
    /// A swap step computed a price outside the interval between the current
    /// price and the step's target price.
    PriceOvershoot,
}

} // verus!
