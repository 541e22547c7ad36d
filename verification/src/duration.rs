//! The duration type used throughout the prober.
//!
//! Round-trip times are kept as whole microseconds, which is the granularity
//! the presentation layer works in; all statistics over them are exact
//! integer arithmetic.
use vstd::prelude::*;

verus! {

/// A round-trip duration, in whole microseconds.
#[derive(Clone, Copy, Debug, PartialEq, Eq, Structural)]
pub struct PingDuration {
    pub micros: u64,
}

impl PingDuration {
    /// Builds a duration from a count of milliseconds.
    pub fn from_millis(ms: u64) -> (d: PingDuration)
        requires
            ms * 1000 <= u64::MAX,
        ensures
            d.micros == ms * 1000,
    {
        PingDuration { micros: ms * 1000 }
    }
}

} // verus!
