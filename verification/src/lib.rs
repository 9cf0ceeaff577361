//! Analysis of an hourly power time series.
//!
//! Two numeric engines over one series of integer-scaled power values: a
//! multi-horizon sliding-window tracker for moving-average statistics, and a
//! bounded energy-reservoir simulator driven by a bisection root-finder that
//! searches for the least feasible overbuild factor or storage capacity.
use vstd::prelude::*;

pub mod analysis;
pub mod bisect;
pub mod reservoir;
pub mod ring;
pub mod sums;
pub mod window;

verus! {

/// A configuration error: inputs that the engines reject at construction
/// or at entry instead of computing a meaningless result.
#[derive(Clone, Copy, Debug, PartialEq, Eq, Structural)]
pub enum ConfigError {
    /// A sliding window must retain at least one sample.
    ZeroWindowLength,
    /// A reservoir cannot be built with a negative capacity.
    NegativeCapacity,
    /// A series with no samples has no average to analyze.
    EmptySeries,
    /// A bisection bracket must satisfy `low < high`.
    InvalidBracket,
    /// A computed value left the supported fixed-point range.
    ValueOutOfRange,
}

} // verus!
