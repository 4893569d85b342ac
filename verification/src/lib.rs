//! Off-chain engine for a concentrated-liquidity automated market maker.
//!
//! The crate reproduces the fixed-point arithmetic and state transitions of
//! the on-chain pool bit for bit: wide unsigned and signed integers, exact
//! multiply-then-divide over double-width intermediates, square-root-price
//! algebra, the per-tick liquidity ledger, the single-step swap computation,
//! and the tick-crossing swap loop.

#![allow(non_snake_case)]

pub mod error;
pub mod limbs;
pub mod u256;
pub mod u512;
pub mod u160;
pub mod i256;
pub mod full_math;
pub mod fixed_point;
pub mod sqrt_price_math;
pub mod fee;
pub mod liq_math;
pub mod tick;
pub mod tick_math;
pub mod swap_math;
pub mod pool;
