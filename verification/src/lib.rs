//! A verified backtest engine for weight-driven trading strategies.
//!
//! Given per-symbol, per-bar target position weights and prices, the engine
//! reconstructs the implied trading activity, prices it with proportional
//! transaction costs, and produces per-symbol daily performance records,
//! round-trip trade pairs, a portfolio-level daily return series, and
//! summary statistics.
//!
//! All quantities are fixed-point decimals scaled by `SCALE` (10^9), so the
//! whole computation is exact integer arithmetic with documented truncation.

pub mod aggregate;
pub mod backtest;
pub mod fixed;
pub mod laws;
pub mod pairs;
pub mod stats;
pub mod symbol;
pub mod types;

use vstd::prelude::*;

verus! {

} // verus!
