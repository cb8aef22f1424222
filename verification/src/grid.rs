//! The slot grid: candidate slot starts at a fixed step over the window.

use vstd::prelude::*;
use crate::instant::{representable, Instant, SLOT_SECONDS};
use crate::window::SearchWindow;

verus! {

/// How many slots start in `[first, cutoff]` when one starts every
/// `SLOT_SECONDS` from `first` on.
pub open spec fn grid_len(first: int, cutoff: int) -> nat {
    if first > cutoff {
        0
    } else {
        ((cutoff - first) / (SLOT_SECONDS as int) + 1) as nat
    }
}

/// The grid between `first` and `cutoff`: slot `k` starts `k` slot lengths
/// after `first`, and the last slot is the last one that starts no later than
/// `cutoff`.
pub open spec fn grid(first: int, cutoff: int) -> Seq<Instant> {
    Seq::new(grid_len(first, cutoff), |k: int| Instant { secs: (first + k * SLOT_SECONDS) as i64 })
}

/// Every slot of the grid starts within `[first, cutoff]`, and the one after
/// the last would start beyond `cutoff`.
pub proof fn lemma_grid_within(first: int, cutoff: int, k: int)
    requires
        0 <= k < grid_len(first, cutoff),
    ensures
        first <= first + k * SLOT_SECONDS <= cutoff,
        first + grid_len(first, cutoff) * SLOT_SECONDS > cutoff,
{
    let n = (cutoff - first) / 1800;
    assert(n * 1800 <= cutoff - first < n * 1800 + 1800) by (nonlinear_arith)
        requires
            n == (cutoff - first) / 1800,
            first <= cutoff,
    ;
    assert(k * 1800 <= n * 1800) by (nonlinear_arith)
        requires
            0 <= k <= n,
    ;
}

/// Slot starts are unique: between two representable bounds the grid is
/// strictly increasing, slot `k` lying `k` slot lengths after the first.
pub proof fn lemma_grid_increasing(first: int, cutoff: int, i: int, j: int)
    requires
        representable(first),
        representable(cutoff),
        0 <= i < j < grid_len(first, cutoff),
    ensures
        grid(first, cutoff)[i]@ == first + i * SLOT_SECONDS,
        grid(first, cutoff)[j]@ == first + j * SLOT_SECONDS,
        grid(first, cutoff)[i]@ < grid(first, cutoff)[j]@,
{
    lemma_grid_within(first, cutoff, i);
    lemma_grid_within(first, cutoff, j);
}

/// The grid is cut off by one instant only, not once per day: whatever lies a
/// whole number of slot lengths after `first` and no later than `cutoff` is
/// a slot of the grid.
pub proof fn lemma_grid_complete(first: int, cutoff: int, t: int)
    requires
        first <= t <= cutoff,
        (t - first) % (SLOT_SECONDS as int) == 0,
    ensures
        0 <= (t - first) / (SLOT_SECONDS as int) < grid_len(first, cutoff),
        t == first + ((t - first) / (SLOT_SECONDS as int)) * SLOT_SECONDS,
{
    let k = (t - first) / 1800;
    let n = (cutoff - first) / 1800;
    assert(t - first == k * 1800 && 0 <= k) by (nonlinear_arith)
        requires
            k == (t - first) / 1800,
            (t - first) % 1800 == 0,
            first <= t,
    ;
    assert(k <= n) by (nonlinear_arith)
        requires
            k * 1800 <= cutoff - first,
            n == (cutoff - first) / 1800,
    ;
}

/// The slot that follows the one starting at `current`, where it still
/// starts no later than `cutoff`. Stepping from the first slot with it walks
/// the grid one slot at a time.
pub fn next_slot(current: Instant, cutoff: Instant) -> (next: Option<Instant>)
    ensures
        current@ + SLOT_SECONDS <= cutoff@ ==> next == Some(
            Instant { secs: (current@ + SLOT_SECONDS) as i64 },
        ),
        current@ + SLOT_SECONDS > cutoff@ ==> next is None,
{
    if current.secs as i128 + SLOT_SECONDS as i128 <= cutoff.secs as i128 {
        Some(Instant { secs: current.secs + SLOT_SECONDS })
    } else {
        None
    }
}

/// Lays the grid between `first` and `cutoff`, earliest slot first.
pub fn slot_grid(first: Instant, cutoff: Instant) -> (slots: Vec<Instant>)
    ensures
        slots@ == grid(first@, cutoff@),
{
    let mut slots: Vec<Instant> = Vec::new();
    if first.secs > cutoff.secs {
        return slots;
    }
    let mut current: Instant = first;
    loop
        invariant_except_break
            first@ <= current@ <= cutoff@,
            current@ == first@ + slots.len() * SLOT_SECONDS,
            slots.len() < grid_len(first@, cutoff@),
            forall|k: int| 0 <= k < slots.len() ==> slots@[k]@ == first@ + k * SLOT_SECONDS,
        ensures
            slots.len() == grid_len(first@, cutoff@),
            forall|k: int| 0 <= k < slots.len() ==> slots@[k]@ == first@ + k * SLOT_SECONDS,
        decreases cutoff@ - current@,
    {
        slots.push(current);
        match next_slot(current, cutoff) {
            Some(next) => {
                assert(slots.len() < grid_len(first@, cutoff@)) by (nonlinear_arith)
                    requires
                        first@ <= current@ <= cutoff@,
                        current@ == first@ + (slots.len() - 1) * 1800,
                        cutoff@ - current@ >= 1800,
                        grid_len(first@, cutoff@) == (cutoff@ - first@) / 1800 + 1,
                ;
                current = next;
            },
            None => {
                assert(slots.len() == grid_len(first@, cutoff@)) by (nonlinear_arith)
                    requires
                        first@ <= current@ <= cutoff@,
                        current@ == first@ + (slots.len() - 1) * 1800,
                        cutoff@ - current@ < 1800,
                        grid_len(first@, cutoff@) == (cutoff@ - first@) / 1800 + 1,
                ;
                break ;
            },
        }
    }
    assert(slots@ =~= grid(first@, cutoff@));
    slots
}

impl SearchWindow {
    /// The candidate slot starts of this window, earliest first.
    pub open spec fn slots(&self) -> Seq<Instant> {
        grid(self.grid_origin(), self.window_end@)
    }

    /// Generates the candidate slot starts of this window.
    pub fn slot_starts(&self) -> (slots: Vec<Instant>)
        requires
            self.wf(),
        ensures
            slots@ == self.slots(),
    {
        slot_grid(self.first_slot(), self.window_end)
    }
}

} // verus!
