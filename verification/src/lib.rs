//! Sliding-window hardware telemetry: fixed-capacity per-metric sample
//! buffers, a store that advances them in lockstep, and a chart-bounds
//! calculator with sentinel filtering and clamping.
//!
//! Readings are fixed-point values in hundredths of a unit, so `4000`
//! stands for a reading of 40.00.

pub mod bounds;
pub mod series;
pub mod snapshot;
pub mod store;

use vstd::prelude::*;

verus! {

/// Error raised for an invalid startup configuration; fatal before the
/// poll loop begins.
#[derive(Clone, Copy, Debug, PartialEq, Eq, Structural)]
pub enum ConfigError {
    /// A series was requested with fewer than one sample of capacity.
    InvalidCapacity,
    /// The poll interval was zero, so no window capacity can be derived.
    ZeroInterval,
}

/// The smaller of two fixed-point values.
pub open spec fn min_i64(a: i64, b: i64) -> i64 {
    if a <= b {
        a
    } else {
        b
    }
}

/// The larger of two fixed-point values.
pub open spec fn max_i64(a: i64, b: i64) -> i64 {
    if a >= b {
        a
    } else {
        b
    }
}

} // verus!
