//! Pricing engine of a two-asset StableSwap pool: the invariant and balance
//! solvers, the amplification ramp, precision normalisation, swap and
//! liquidity arithmetic, and time-weighted price accumulation.

pub mod asset;
pub mod decimal;
pub mod error;
pub mod factory;
pub mod liquidity;
pub mod math;
pub mod pairinfo;
pub mod ramp;
pub mod state;
pub mod text;
pub mod twap;
pub mod utils;
pub mod wide;
