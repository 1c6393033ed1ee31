//! The clock that WebAssembly operators go by.

use vstd::prelude::*;

verus! {

/// A global monotonic clock, so that all operators go by the same time, also
/// after they have been asleep.
#[derive(Clone, Copy, Debug, PartialEq, Eq, Structural)]
pub struct GlobalMonotonicClock;

impl GlobalMonotonicClock {
    /// Returns the resolution of the clock, in nanoseconds.
    pub fn resolution(&self) -> (nanos: u64)
        ensures
            nanos == 1_000_000,
    {
        1_000_000
    }

    /// Returns the time of the clock, so many nanoseconds after it was started.
    pub fn now(&self, elapsed_nanos: u128) -> (nanos: u64)
        ensures
            nanos == elapsed_nanos % 0x1_0000_0000_0000_0000,
            elapsed_nanos <= u64::MAX ==> nanos == elapsed_nanos,
    {
        (elapsed_nanos % 0x1_0000_0000_0000_0000) as u64
    }
}

} // verus!
