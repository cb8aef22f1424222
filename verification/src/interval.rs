//! Busy intervals and the overlap test against a candidate slot.

use vstd::prelude::*;
use crate::instant::{Instant, MINUTE_SECONDS, SLOT_SECONDS};

verus! {

/// A time range during which the calendar's owner is unavailable.
#[derive(Clone, Copy, Debug, PartialEq, Eq, Structural)]
pub struct BusyInterval {
    pub start: Instant,
    pub end: Instant,
}

/// The half-open overlap test between the slot that starts at `slot_start` and
/// the interval `[busy_start, busy_end)` widened by `buffer_minutes` on both sides.
pub open spec fn widened_overlap(
    slot_start: int,
    busy_start: int,
    busy_end: int,
    buffer_minutes: int,
) -> bool {
    &&& slot_start < busy_end + buffer_minutes * MINUTE_SECONDS
    &&& slot_start + SLOT_SECONDS > busy_start - buffer_minutes * MINUTE_SECONDS
}

impl BusyInterval {
    /// A busy interval is never empty: it starts strictly before it ends.
    pub open spec fn wf(&self) -> bool {
        self.start@ < self.end@
    }

    /// The interval from `start` to `end`, where that is a non-empty range.
    pub fn new(start: Instant, end: Instant) -> (r: Option<BusyInterval>)
        ensures
            start@ < end@ ==> r == Some(BusyInterval { start, end }),
            start@ >= end@ ==> r is None,
            r matches Some(b) ==> b.wf(),
    {
        if start.secs < end.secs {
            Some(BusyInterval { start, end })
        } else {
            None
        }
    }

    /// Whether the slot starting at `slot_start` collides with this interval
    /// once it is widened by `buffer_minutes`.
    pub open spec fn blocks(&self, slot_start: Instant, buffer_minutes: int) -> bool {
        widened_overlap(slot_start@, self.start@, self.end@, buffer_minutes)
    }

    /// Decides `blocks` for one slot.
    pub fn conflicts_with(&self, slot_start: Instant, buffer_minutes: i64) -> (b: bool)
        ensures
            b == self.blocks(slot_start, buffer_minutes as int),
    {
        let buffer: i128 = buffer_minutes as i128 * 60;
        let slot: i128 = slot_start.secs as i128;
        slot < self.end.secs as i128 + buffer && slot + SLOT_SECONDS as i128 > self.start.secs as i128
            - buffer
    }
}

/// Whether any interval of `busy` blocks the slot starting at `slot_start`.
pub open spec fn conflicted(slot_start: Instant, busy: Seq<BusyInterval>, buffer_minutes: int) -> bool {
    exists|i: int| 0 <= i < busy.len() && #[trigger] busy[i].blocks(slot_start, buffer_minutes)
}

/// With no busy interval at all, no slot is conflicted.
pub proof fn lemma_nothing_busy(slot_start: Instant, buffer_minutes: int)
    ensures
        !conflicted(slot_start, Seq::<BusyInterval>::empty(), buffer_minutes),
{
}

/// Busy intervals from several sources count together: a slot is conflicted
/// against two lists put one after the other exactly if it is conflicted
/// against one of them.
pub proof fn lemma_conflict_union(
    slot_start: Instant,
    first: Seq<BusyInterval>,
    second: Seq<BusyInterval>,
    buffer_minutes: int,
)
    ensures
        conflicted(slot_start, first + second, buffer_minutes) <==> (conflicted(
            slot_start,
            first,
            buffer_minutes,
        ) || conflicted(slot_start, second, buffer_minutes)),
{
    let both = first + second;
    if conflicted(slot_start, both, buffer_minutes) {
        let i = choose|i: int| 0 <= i < both.len() && #[trigger] both[i].blocks(slot_start, buffer_minutes);
        if i < first.len() {
            assert(first[i].blocks(slot_start, buffer_minutes));
        } else {
            assert(second[i - first.len()].blocks(slot_start, buffer_minutes));
        }
    }
    if conflicted(slot_start, first, buffer_minutes) {
        let i = choose|i: int| 0 <= i < first.len() && #[trigger] first[i].blocks(slot_start, buffer_minutes);
        assert(both[i].blocks(slot_start, buffer_minutes));
    }
    if conflicted(slot_start, second, buffer_minutes) {
        let i = choose|i: int|
            0 <= i < second.len() && #[trigger] second[i].blocks(slot_start, buffer_minutes);
        assert(both[first.len() + i].blocks(slot_start, buffer_minutes));
    }
}

/// Decides `conflicted`: checks the slot against every busy interval.
pub fn has_conflict(slot_start: Instant, busy: &Vec<BusyInterval>, buffer_minutes: i64) -> (b: bool)
    ensures
        b == conflicted(slot_start, busy@, buffer_minutes as int),
{
    let mut i: usize = 0;
    while i < busy.len()
        invariant
            i <= busy.len(),
            forall|k: int| 0 <= k < i ==> !(#[trigger] busy@[k].blocks(slot_start, buffer_minutes as int)),
        decreases busy.len() - i,
    {
        if busy[i].conflicts_with(slot_start, buffer_minutes) {
            return true;
        }
        i += 1;
    }
    false
}

} // verus!
