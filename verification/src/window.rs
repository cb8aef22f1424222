//! The search window: which span of time is scanned for free slots.

use vstd::prelude::*;
use crate::instant::{day_start, day_start_of, representable, Instant, DAY_SECONDS, HOUR_SECONDS, SLOT_SECONDS};

verus! {

/// Seconds from the start of an hour to its last second (59 minutes, 59 seconds).
pub const HOUR_TAIL_SECONDS: i64 = 3_599;

/// How many days beyond the skipped first day a search covers by default.
pub const DEFAULT_DAYS_AHEAD: i64 = 7;

/// Default hour at which the grid begins.
pub const DEFAULT_START_HOUR: u32 = 9;

/// Default hour whose last second closes the window.
pub const DEFAULT_END_HOUR: u32 = 18;

/// Default widening of busy intervals, in minutes.
pub const DEFAULT_BUFFER_MINUTES: i64 = 15;

/// Configuration of one run. Nothing in it changes once it is built.
#[derive(Clone, Copy, Debug, PartialEq, Eq, Structural)]
pub struct SearchWindow {
    /// Where the search begins: one full day after "now".
    pub window_start: Instant,
    /// The single cutoff: no slot starts after it.
    pub window_end: Instant,
    /// Hour of the day (UTC) at which the grid begins on the first search day.
    pub day_start_hour: u32,
    /// Hour of the day (UTC) whose last second closes the window on the last day.
    pub day_end_hour: u32,
    /// Minutes by which every busy interval is widened on both sides.
    pub buffer_minutes: i64,
}

/// Where the search begins for a run started at `now`: the current day is skipped.
pub open spec fn search_start(now: int) -> int {
    now + DAY_SECONDS
}

/// The instant `days_ahead` days after the search begins.
pub open spec fn scan_end(now: int, days_ahead: int) -> int {
    search_start(now) + days_ahead * DAY_SECONDS
}

/// The cutoff of the window: the last second of hour `end_hour` on the day of
/// `scan_end`. An hour that no day has (24 or more) makes the cutoff fall
/// back to `now`, which leaves the window empty.
pub open spec fn cutoff(now: int, days_ahead: int, end_hour: int) -> int {
    at_hour_or(scan_end(now, days_ahead), end_hour, HOUR_TAIL_SECONDS as int, now)
}

/// The instant `offset` seconds into hour `hour` of the day that `t` falls on,
/// or `fallback` where no day has such an hour.
pub open spec fn at_hour_or(t: int, hour: int, offset: int, fallback: int) -> int {
    if hour < 24 {
        day_start(t) + hour * HOUR_SECONDS + offset
    } else {
        fallback
    }
}

/// Where the grid begins: hour `start_hour` on the day the search starts. An
/// hour that no day has (24 or more) makes the grid begin one day before the
/// search start, that is at the "now" the window was built from.
pub open spec fn grid_start(window_start: int, start_hour: int) -> int {
    at_hour_or(window_start, start_hour, 0, window_start - DAY_SECONDS)
}

/// Whether every instant that a window built from these values speaks of can
/// be represented, the end of the last possible slot included.
pub open spec fn window_fits(now: int, days_ahead: int, start_hour: int, end_hour: int) -> bool {
    &&& representable(search_start(now))
    &&& representable(scan_end(now, days_ahead))
    &&& representable(grid_start(search_start(now), start_hour))
    &&& representable(cutoff(now, days_ahead, end_hour))
    &&& representable(cutoff(now, days_ahead, end_hour) + SLOT_SECONDS)
}

/// The window for a run started at `now`, where `window_fits` holds of it.
pub open spec fn planned_window(
    now: Instant,
    days_ahead: i64,
    start_hour: u32,
    end_hour: u32,
    buffer_minutes: i64,
) -> SearchWindow {
    SearchWindow {
        window_start: Instant { secs: search_start(now@) as i64 },
        window_end: Instant { secs: cutoff(now@, days_ahead as int, end_hour as int) as i64 },
        day_start_hour: start_hour,
        day_end_hour: end_hour,
        buffer_minutes,
    }
}

/// No slot is offered for the current day: with an hour that a day has, the
/// grid begins on the day after the one `now` falls on, and so after `now`.
pub proof fn lemma_current_day_skipped(now: int, start_hour: int)
    requires
        0 <= start_hour < 24,
    ensures
        day_start(search_start(now)) == day_start(now) + DAY_SECONDS,
        grid_start(search_start(now), start_hour) >= day_start(now) + DAY_SECONDS,
        grid_start(search_start(now), start_hour) > now,
{
    assert((now + 86_400) % 86_400 == now % 86_400) by (nonlinear_arith);
}

/// Computes `at_hour_or` for an instant in the `i64` range.
fn hour_of_day_or(t: i128, hour: u32, offset: i64, fallback: i128) -> (r: i128)
    requires
        representable(t as int),
    ensures
        r == at_hour_or(t as int, hour as int, offset as int, fallback as int),
{
    if hour < 24 {
        day_start_of(t) + hour as i128 * 3_600 + offset as i128
    } else {
        fallback
    }
}

impl SearchWindow {
    /// Where the grid of this window begins.
    pub open spec fn grid_origin(&self) -> int {
        grid_start(self.window_start@, self.day_start_hour as int)
    }

    /// The grid can be walked without leaving the representable range: its
    /// first slot exists, and a slot that starts at the cutoff still ends.
    pub open spec fn wf(&self) -> bool {
        &&& representable(self.grid_origin())
        &&& representable(self.window_end@ + SLOT_SECONDS)
    }

    /// Whether the window was built for a run started at `now`: the search
    /// begins a full day later, so no slot is offered earlier than that day.
    pub open spec fn skips_day_of(&self, now: Instant) -> bool {
        self.window_start@ == now@ + DAY_SECONDS
    }

    /// The window for a run started at `now` that looks `days_ahead` days
    /// beyond the skipped first day.
    ///
    /// Returns `None` exactly where some instant of that window cannot be
    /// represented.
    pub fn new(
        now: Instant,
        days_ahead: i64,
        start_hour: u32,
        end_hour: u32,
        buffer_minutes: i64,
    ) -> (r: Option<SearchWindow>)
        ensures
            window_fits(now@, days_ahead as int, start_hour as int, end_hour as int) ==> r == Some(
                planned_window(now, days_ahead, start_hour, end_hour, buffer_minutes),
            ),
            !window_fits(now@, days_ahead as int, start_hour as int, end_hour as int) ==> r is None,
            r matches Some(w) ==> w.wf() && w.skips_day_of(now),
    {
        let now_secs: i128 = now.secs as i128;
        let start: i128 = now_secs + DAY_SECONDS as i128;
        let last_day: i128 = start + days_ahead as i128 * 86_400;
        if start > i64::MAX as i128 || last_day > i64::MAX as i128 || last_day < i64::MIN as i128 {
            return None;
        }
        let first: i128 = hour_of_day_or(start, start_hour, 0, now_secs);
        let end: i128 = hour_of_day_or(last_day, end_hour, HOUR_TAIL_SECONDS, now_secs);
        if first < i64::MIN as i128 || first > i64::MAX as i128 || end < i64::MIN as i128 || end
            + SLOT_SECONDS as i128 > i64::MAX as i128 {
            return None;
        }
        Some(
            SearchWindow {
                window_start: Instant { secs: start as i64 },
                window_end: Instant { secs: end as i64 },
                day_start_hour: start_hour,
                day_end_hour: end_hour,
                buffer_minutes,
            },
        )
    }

    /// Decides `wf`.
    pub fn is_well_formed(&self) -> (b: bool)
        ensures
            b == self.wf(),
    {
        let start: i128 = self.window_start.secs as i128;
        let first: i128 = hour_of_day_or(
            start,
            self.day_start_hour,
            0,
            start - DAY_SECONDS as i128,
        );
        first >= i64::MIN as i128 && first <= i64::MAX as i128 && self.window_end.secs <= i64::MAX
            - SLOT_SECONDS
    }

    /// Computes the first slot of the grid.
    pub fn first_slot(&self) -> (first: Instant)
        requires
            self.wf(),
        ensures
            first@ == self.grid_origin(),
    {
        let start: i128 = self.window_start.secs as i128;
        let first: i128 = hour_of_day_or(
            start,
            self.day_start_hour,
            0,
            start - DAY_SECONDS as i128,
        );
        Instant { secs: first as i64 }
    }
}

} // verus!
