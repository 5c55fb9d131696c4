//! Time as the library sees it.
//!
//! A moment is a reading of a monotonic clock, in nanoseconds since an origin
//! that the caller fixes once. A span is a number of nanoseconds between two
//! moments. Wall-clock times are milliseconds since the Unix epoch.

use vstd::prelude::*;

verus! {

pub const MILLISECOND: u64 = 1_000_000;

pub const SECOND: u64 = 1_000_000_000;

/// The last moment that a clock reports, some 570 years after its origin.
pub const CLOCK_END: u64 = 18_000_000_000_000_000_000;

/// The moment for a number of nanoseconds since the origin.
pub fn moment(nanos: u128) -> (r: u64)
    ensures
        r <= CLOCK_END,
        r == if nanos <= CLOCK_END {
            nanos as int
        } else {
            CLOCK_END as int
        },
{
    if nanos <= CLOCK_END as u128 {
        nanos as u64
    } else {
        CLOCK_END
    }
}

/// The time from `earlier` to `later`, nothing if they stand the other way
/// round.
pub open spec fn elapsed(earlier: u64, later: u64) -> int {
    if later >= earlier {
        later - earlier
    } else {
        0
    }
}

} // verus!
