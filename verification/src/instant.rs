//! Absolute points in time and the arithmetic on them.

use vstd::prelude::*;

verus! {

/// Seconds in a minute.
pub const MINUTE_SECONDS: i64 = 60;

/// Seconds in an hour.
pub const HOUR_SECONDS: i64 = 3_600;

/// Seconds in a day.
pub const DAY_SECONDS: i64 = 86_400;

/// Length of every candidate slot, in seconds (thirty minutes).
pub const SLOT_SECONDS: i64 = 1_800;

/// An absolute point in time: whole seconds since 1970-01-01T00:00:00 UTC.
///
/// No time zone is attached. Zones only matter when a slot is scored or shown.
#[derive(Clone, Copy, Debug, PartialEq, Eq, Structural)]
pub struct Instant {
    pub secs: i64,
}

impl View for Instant {
    type V = int;

    open spec fn view(&self) -> int {
        self.secs as int
    }
}

/// The midnight (UTC) that begins the day `t` falls on.
pub open spec fn day_start(t: int) -> int {
    t - t % (DAY_SECONDS as int)
}

/// Whether `t` can be held in an `Instant`.
pub open spec fn representable(t: int) -> bool {
    i64::MIN <= t <= i64::MAX
}

impl Instant {
    /// The instant `secs` seconds after the epoch.
    pub fn from_timestamp(secs: i64) -> (t: Instant)
        ensures
            t@ == secs,
    {
        Instant { secs }
    }

    /// Seconds since the epoch.
    pub fn timestamp(&self) -> (secs: i64)
        ensures
            secs == self@,
    {
        self.secs
    }
}

/// Midnight of the day that `t` falls on, for any `t` in the `i64` range.
pub(crate) fn day_start_of(t: i128) -> (d: i128)
    requires
        i64::MIN <= t <= i64::MAX,
    ensures
        d == day_start(t as int),
{
    let r: i128 = t % (DAY_SECONDS as i128);
    if r < 0 {
        t - (r + DAY_SECONDS as i128)
    } else {
        t - r
    }
}

} // verus!
