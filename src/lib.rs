//! Monte Carlo model of a liquidation auction under six disclosure regimes,
//! with every quantity held in fixed point (millionths, see `UNIT`).
pub mod strategy;
pub mod model;
pub mod scoring;
pub mod generate;
pub mod auction;
pub mod metrics;
pub mod run;
pub mod poa;
pub mod random;

use vstd::prelude::*;

verus! {

/// Fixed-point scale: a real value `x` is stored as `x * UNIT`.
pub const UNIT: u64 = 1_000_000;

} // verus!
