//! What can keep a run from producing a list.

use vstd::prelude::*;

verus! {

/// Why a run produced no list of slots.
#[derive(Clone, Copy, Debug, PartialEq, Eq, Structural)]
pub enum SuggestError {
    /// The zone database has no zone of the given name.
    InvalidTimezone,
    /// Some instant of the search window cannot be represented.
    WindowOutOfRange,
    /// The zone is known, but for some free slot the calendar gives no local
    /// time, so the slot cannot be scored.
    LocalTimeUnavailable,
}

} // verus!
