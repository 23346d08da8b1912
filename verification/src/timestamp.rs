//! A point in time together with the offset from UTC it was written with.

use vstd::prelude::*;

verus! {

/// A point in time and the offset of the clock that showed it.
#[derive(Clone, Copy, Debug, PartialEq, Eq)]
pub struct Timestamp {
    /// Seconds since 1970-01-01 00:00:00 UTC, leap seconds not counted.
    pub seconds: i64,
    /// Nanoseconds past `seconds`; one thousand million or more inside a
    /// leap second.
    pub nanoseconds: u32,
    /// Seconds by which the local clock is ahead of UTC.
    pub offset: i32,
}

} // verus!
