//! Verified core of a Monte Carlo engine for retirement plans: month
//! arithmetic, block-bootstrap sampling of historical returns, the monthly
//! survival table and lifespan draw, glide-path lookup, and the bookkeeping
//! that turns finished runs into a success ratio.
pub mod period;
pub mod rng;
pub mod sampler;
pub mod schedule;
pub mod income;
pub mod mortality;
pub mod ratio;
pub mod run;
pub mod withdrawal;
