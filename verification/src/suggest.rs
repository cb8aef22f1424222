//! The whole run: from a window, a zone and the busy intervals to the ranked
//! free slots.

use vstd::prelude::*;
use crate::calendar::{busy_intervals, extend_busy, lemma_busy_intervals_concat, CalendarEvent};
use crate::error::SuggestError;
use crate::instant::Instant;
use crate::interval::{conflicted, has_conflict, BusyInterval};
use crate::grid::lemma_grid_within;
use crate::ranking::{
    is_ranking_of, lemma_ranking_is_ranking, lemma_ranking_unique, morning_score, morning_score_of,
    rank, ranking, top_of, top_slots, Candidate, TOP_COUNT,
};
use crate::window::{planned_window, window_fits, SearchWindow};
use crate::zone::{validate_timezone, wall_clock_hour, zone_hour, zone_known};

verus! {

/// The candidate for a free slot: the slot with the morning score of its
/// local hour in `zone`.
pub open spec fn candidate_at(zone: Seq<char>, slot: Instant) -> Candidate {
    Candidate {
        slot_start: slot,
        score: morning_score_of(zone_hour(zone, slot.secs).unwrap() as int) as i32,
    }
}

/// What becomes of one grid slot: nothing where a busy interval blocks it, its
/// candidate where it is free.
pub open spec fn free_pick(zone: Seq<char>, busy: Seq<BusyInterval>, buffer_minutes: int) -> spec_fn(
    Instant,
) -> Option<Candidate> {
    |slot: Instant|
        if conflicted(slot, busy, buffer_minutes) {
            None
        } else {
            Some(candidate_at(zone, slot))
        }
}

/// The candidates for the free slots among `slots`, in the order of `slots`.
pub open spec fn free_candidates(
    slots: Seq<Instant>,
    zone: Seq<char>,
    busy: Seq<BusyInterval>,
    buffer_minutes: int,
) -> Seq<Candidate> {
    slots.filter_map(free_pick(zone, busy, buffer_minutes))
}

/// Whether every free slot among `slots` has a local hour in `zone`.
pub open spec fn hours_known(
    slots: Seq<Instant>,
    zone: Seq<char>,
    busy: Seq<BusyInterval>,
    buffer_minutes: int,
) -> bool {
    forall|i: int|
        0 <= i < slots.len() && !conflicted(#[trigger] slots[i], busy, buffer_minutes) ==> zone_hour(
            zone,
            slots[i].secs,
        ) is Some
}

/// Whether `c` is a correctly scored free slot: no busy interval, widened by
/// the buffer, overlaps it, and its score is 1 exactly if its local hour in
/// `zone` is a morning hour, and 0 otherwise.
pub open spec fn is_scored_free_slot(
    c: Candidate,
    zone: Seq<char>,
    busy: Seq<BusyInterval>,
    buffer_minutes: int,
) -> bool {
    &&& !conflicted(c.slot_start, busy, buffer_minutes)
    &&& zone_hour(zone, c.slot_start.secs) is Some
    &&& c.score == 1 <==> 9 <= zone_hour(zone, c.slot_start.secs).unwrap() < 12
    &&& c.score == 0 <==> !(9 <= zone_hour(zone, c.slot_start.secs).unwrap() < 12)
}

/// The candidate for one free slot, given the local hour that the zone
/// database answered for it.
pub fn score_slot(slot: Instant, hour: Option<u32>) -> (r: Option<Candidate>)
    ensures
        hour is None ==> r is None,
        hour matches Some(h) ==> r == Some(
            Candidate { slot_start: slot, score: morning_score_of(h as int) as i32 },
        ),
{
    match hour {
        Some(h) => Some(Candidate { slot_start: slot, score: morning_score(h) }),
        None => None,
    }
}

/// Every entry of `free_candidates` is a correctly scored free slot that
/// comes from `slots`, provided the local hours are known.
pub proof fn lemma_free_candidates_sound(
    slots: Seq<Instant>,
    zone: Seq<char>,
    busy: Seq<BusyInterval>,
    buffer_minutes: int,
    c: Candidate,
)
    requires
        hours_known(slots, zone, busy, buffer_minutes),
        free_candidates(slots, zone, busy, buffer_minutes).contains(c),
    ensures
        slots.contains(c.slot_start),
        is_scored_free_slot(c, zone, busy, buffer_minutes),
{
    let f = free_pick(zone, busy, buffer_minutes);
    slots.lemma_filter_map_contains(f, c);
    let i = choose|i: int| 0 <= i < slots.len() && #[trigger] f(slots[i]) == Some(c);
    assert(f(slots[i]) == Some(c));
    assert(!conflicted(slots[i], busy, buffer_minutes));
    assert(c == candidate_at(zone, slots[i]));
}

/// With nothing that blocks, every slot is a candidate: where no slot of
/// `slots` is conflicted, `free_candidates` holds one candidate per slot, in
/// the order of the slots. A calendar without events is the plainest case.
pub proof fn lemma_all_free(
    slots: Seq<Instant>,
    zone: Seq<char>,
    busy: Seq<BusyInterval>,
    buffer_minutes: int,
)
    requires
        forall|i: int| 0 <= i < slots.len() ==> !conflicted(#[trigger] slots[i], busy, buffer_minutes),
    ensures
        free_candidates(slots, zone, busy, buffer_minutes).len() == slots.len(),
        forall|i: int|
            0 <= i < slots.len() ==> #[trigger] free_candidates(slots, zone, busy, buffer_minutes)[i]
                == candidate_at(zone, slots[i]),
    decreases slots.len(),
{
    if slots.len() > 0 {
        let rest = slots.drop_last();
        assert forall|i: int| 0 <= i < rest.len() implies !conflicted(
            #[trigger] rest[i],
            busy,
            buffer_minutes,
        ) by {
            assert(rest[i] == slots[i]);
        }
        lemma_all_free(rest, zone, busy, buffer_minutes);
        assert(!conflicted(slots[slots.len() - 1], busy, buffer_minutes));
        assert forall|i: int| 0 <= i < slots.len() implies #[trigger] free_candidates(
            slots,
            zone,
            busy,
            buffer_minutes,
        )[i] == candidate_at(zone, slots[i]) by {
            if i < rest.len() {
                assert(rest[i] == slots[i]);
                assert(free_candidates(rest, zone, busy, buffer_minutes)[i] == candidate_at(
                    zone,
                    rest[i],
                ));
            }
        }
    }
}

/// Where every slot is conflicted, no candidate is left: the list is empty,
/// which is an answer and no failure.
pub proof fn lemma_fully_booked(
    slots: Seq<Instant>,
    zone: Seq<char>,
    busy: Seq<BusyInterval>,
    buffer_minutes: int,
)
    requires
        forall|i: int| 0 <= i < slots.len() ==> conflicted(#[trigger] slots[i], busy, buffer_minutes),
    ensures
        free_candidates(slots, zone, busy, buffer_minutes).len() == 0,
        hours_known(slots, zone, busy, buffer_minutes),
        ranking(free_candidates(slots, zone, busy, buffer_minutes)).len() == 0,
    decreases slots.len(),
{
    if slots.len() > 0 {
        let rest = slots.drop_last();
        assert forall|i: int| 0 <= i < rest.len() implies conflicted(
            #[trigger] rest[i],
            busy,
            buffer_minutes,
        ) by {
            assert(rest[i] == slots[i]);
        }
        lemma_fully_booked(rest, zone, busy, buffer_minutes);
        assert(conflicted(slots[slots.len() - 1], busy, buffer_minutes));
    }
    lemma_ranking_is_ranking(free_candidates(slots, zone, busy, buffer_minutes));
}

/// Drops the conflicted slots and scores the free ones, keeping their
/// order. Gives `None` exactly where some free slot has no local hour.
pub fn score_free_slots(
    slots: &Vec<Instant>,
    zone: &str,
    busy: &Vec<BusyInterval>,
    buffer_minutes: i64,
) -> (r: Option<Vec<Candidate>>)
    ensures
        hours_known(slots@, zone@, busy@, buffer_minutes as int) ==> r is Some && r->0@
            == free_candidates(slots@, zone@, busy@, buffer_minutes as int),
        !hours_known(slots@, zone@, busy@, buffer_minutes as int) ==> r is None,
{
    let mut free: Vec<Candidate> = Vec::new();
    let mut i: usize = 0;
    assert(slots@.take(0) =~= Seq::<Instant>::empty());
    while i < slots.len()
        invariant
            i <= slots.len(),
            hours_known(slots@.take(i as int), zone@, busy@, buffer_minutes as int),
            free@ == free_candidates(slots@.take(i as int), zone@, busy@, buffer_minutes as int),
        decreases slots.len() - i,
    {
        let slot = slots[i];
        proof {
            slots@.lemma_filter_map_take_succ(
                free_pick(zone@, busy@, buffer_minutes as int),
                i as int,
            );
        }
        if !has_conflict(slot, busy, buffer_minutes) {
            match score_slot(slot, wall_clock_hour(zone, slot.secs)) {
                Some(c) => {
                    free.push(c);
                },
                None => {
                    return None;
                },
            }
        }
        assert forall|k: int|
            0 <= k < i + 1 && !conflicted(
                #[trigger] slots@.take(i + 1)[k],
                busy@,
                buffer_minutes as int,
            ) implies zone_hour(zone@, slots@.take(i + 1)[k].secs) is Some by {
            if k < i {
                assert(slots@.take(i as int)[k] == slots@.take(i + 1)[k]);
            }
        }
        i += 1;
    }
    assert(slots@.take(slots.len() as int) =~= slots@);
    Some(free)
}

/// The ranked list of free slots for this window, zone and set of busy
/// intervals: the grid of the window, without the conflicted slots, scored
/// and ranked.
pub open spec fn suggestion(window: SearchWindow, zone: Seq<char>, busy: Seq<BusyInterval>) -> Seq<
    Candidate,
> {
    ranking(free_candidates(window.slots(), zone, busy, window.buffer_minutes as int))
}

/// What is offered of a ranked list: its first `TOP_COUNT` entries.
pub open spec fn offered(ranked: Seq<Candidate>) -> Seq<Candidate> {
    top_of(ranked, TOP_COUNT as int)
}

/// Every entry of `list` is a slot of the window that no widened busy
/// interval overlaps, carries the score of its local hour, and ends exactly
/// one slot length after it starts, at an instant that can be represented.
pub open spec fn all_scored_free_slots(
    list: Seq<Candidate>,
    window: SearchWindow,
    zone: Seq<char>,
    busy: Seq<BusyInterval>,
) -> bool {
    forall|i: int|
        0 <= i < list.len() ==> {
            &&& (#[trigger] list[i]).wf()
            &&& window.slots().contains(list[i].slot_start)
            &&& is_scored_free_slot(list[i], zone, busy, window.buffer_minutes as int)
        }
}

/// The same window, zone and busy intervals always give the same ranked
/// list, entry for entry: whatever ranks the free candidates of a run
/// arrives at `suggestion`.
pub proof fn lemma_suggestion_determined(
    a: Seq<Candidate>,
    b: Seq<Candidate>,
    window: SearchWindow,
    zone: Seq<char>,
    busy: Seq<BusyInterval>,
)
    requires
        is_ranking_of(a, free_candidates(window.slots(), zone, busy, window.buffer_minutes as int)),
        is_ranking_of(b, free_candidates(window.slots(), zone, busy, window.buffer_minutes as int)),
    ensures
        a == b,
        a == suggestion(window, zone, busy),
{
    let free = free_candidates(window.slots(), zone, busy, window.buffer_minutes as int);
    lemma_ranking_unique(a, b, free);
    lemma_ranking_is_ranking(free);
    lemma_ranking_unique(a, ranking(free), free);
}

/// Every entry of the ranked list is a correctly scored free slot of the
/// window, provided the local hours are known.
pub proof fn lemma_suggestion_sound(window: SearchWindow, zone: Seq<char>, busy: Seq<BusyInterval>)
    requires
        window.wf(),
        hours_known(window.slots(), zone, busy, window.buffer_minutes as int),
    ensures
        all_scored_free_slots(suggestion(window, zone, busy), window, zone, busy),
        all_scored_free_slots(offered(suggestion(window, zone, busy)), window, zone, busy),
{
    let buffer = window.buffer_minutes as int;
    let free = free_candidates(window.slots(), zone, busy, buffer);
    let ranked = suggestion(window, zone, busy);
    lemma_ranking_is_ranking(free);
    assert forall|i: int| 0 <= i < ranked.len() implies {
        &&& (#[trigger] ranked[i]).wf()
        &&& window.slots().contains(ranked[i].slot_start)
        &&& is_scored_free_slot(ranked[i], zone, busy, buffer)
    } by {
        let c = ranked[i];
        ranked.to_multiset_ensures();
        free.to_multiset_ensures();
        assert(ranked.to_multiset().count(c) > 0);
        assert(free.to_multiset().count(c) > 0);
        lemma_free_candidates_sound(window.slots(), zone, busy, buffer, c);
        let k = choose|k: int| 0 <= k < window.slots().len() && window.slots()[k] == c.slot_start;
        lemma_grid_within(window.grid_origin(), window.window_end@, k);
    }
    let top = offered(ranked);
    assert forall|i: int| 0 <= i < top.len() implies {
        &&& (#[trigger] top[i]).wf()
        &&& window.slots().contains(top[i].slot_start)
        &&& is_scored_free_slot(top[i], zone, busy, buffer)
    } by {
        assert(top[i] == ranked[i]);
    }
}

/// All free slots of the window, ranked: morning slots first, and within
/// equal scores the earliest first.
///
/// An empty list is a valid answer: it says that every slot of the window is
/// taken, or that the window holds no slot.
pub fn ranked_free_slots(window: &SearchWindow, zone: &str, busy: &Vec<BusyInterval>) -> (r: Result<
    Vec<Candidate>,
    SuggestError,
>)
    requires
        window.wf(),
    ensures
        !zone_known(zone@) ==> r == Err::<Vec<Candidate>, SuggestError>(SuggestError::InvalidTimezone),
        zone_known(zone@) && !hours_known(
            window.slots(),
            zone@,
            busy@,
            window.buffer_minutes as int,
        ) ==> r == Err::<Vec<Candidate>, SuggestError>(SuggestError::LocalTimeUnavailable),
        zone_known(zone@) && hours_known(window.slots(), zone@, busy@, window.buffer_minutes as int)
            ==> r is Ok,
        r matches Ok(ranked) ==> ranked@ == suggestion(*window, zone@, busy@) && all_scored_free_slots(
            ranked@,
            *window,
            zone@,
            busy@,
        ),
{
    match validate_timezone(zone) {
        Ok(_) => {},
        Err(e) => {
            return Err(e);
        },
    }
    let slots = window.slot_starts();
    match score_free_slots(&slots, zone, busy, window.buffer_minutes) {
        None => Err(SuggestError::LocalTimeUnavailable),
        Some(free) => {
            let ranked = rank(free);
            proof {
                lemma_suggestion_sound(*window, zone@, busy@);
            }
            Ok(ranked)
        },
    }
}

/// The slots to offer: the first `TOP_COUNT` entries of the ranked list of
/// free slots, or all of them where there are fewer.
pub fn suggest_slots(window: &SearchWindow, zone: &str, busy: &Vec<BusyInterval>) -> (r: Result<
    Vec<Candidate>,
    SuggestError,
>)
    requires
        window.wf(),
    ensures
        !zone_known(zone@) ==> r == Err::<Vec<Candidate>, SuggestError>(SuggestError::InvalidTimezone),
        zone_known(zone@) && !hours_known(
            window.slots(),
            zone@,
            busy@,
            window.buffer_minutes as int,
        ) ==> r == Err::<Vec<Candidate>, SuggestError>(SuggestError::LocalTimeUnavailable),
        zone_known(zone@) && hours_known(window.slots(), zone@, busy@, window.buffer_minutes as int)
            ==> r is Ok,
        r matches Ok(top) ==> top@ == offered(suggestion(*window, zone@, busy@))
            && all_scored_free_slots(top@, *window, zone@, busy@),
{
    match ranked_free_slots(window, zone, busy) {
        Ok(ranked) => {
            proof {
                lemma_suggestion_sound(*window, zone@, busy@);
            }
            Ok(top_slots(&ranked, TOP_COUNT))
        },
        Err(e) => Err(e),
    }
}

/// The busy intervals of several calendars for a search beginning at
/// `search_start`: those of the first calendar, then those of the second, and
/// so on.
pub open spec fn busy_of_calendars(calendars: Seq<Vec<CalendarEvent>>, search_start: Instant) -> Seq<
    BusyInterval,
>
    decreases calendars.len(),
{
    if calendars.len() == 0 {
        Seq::empty()
    } else {
        busy_of_calendars(calendars.drop_last(), search_start) + busy_intervals(
            calendars.last()@,
            search_start,
        )
    }
}

/// Two calendars block what one calendar with the events of both would
/// block: their busy intervals are the same list.
pub proof fn lemma_two_calendars(
    first: Vec<CalendarEvent>,
    second: Vec<CalendarEvent>,
    search_start: Instant,
)
    ensures
        busy_of_calendars(seq![first, second], search_start) == busy_intervals(
            first@ + second@,
            search_start,
        ),
{
    let both = seq![first, second];
    let none = Seq::<Vec<CalendarEvent>>::empty();
    assert(both.drop_last() =~= seq![first]);
    assert(seq![first].drop_last() =~= none);
    assert(busy_of_calendars(none, search_start) =~= Seq::<BusyInterval>::empty());
    assert(busy_of_calendars(seq![first], search_start) =~= busy_intervals(first@, search_start));
    lemma_busy_intervals_concat(first@, second@, search_start);
}

/// Gathers the busy intervals of all `calendars`.
pub fn gather_busy(calendars: &Vec<Vec<CalendarEvent>>, search_start: Instant) -> (busy: Vec<
    BusyInterval,
>)
    ensures
        busy@ == busy_of_calendars(calendars@, search_start),
{
    let mut busy: Vec<BusyInterval> = Vec::new();
    let mut i: usize = 0;
    assert(calendars@.take(0) =~= Seq::<Vec<CalendarEvent>>::empty());
    while i < calendars.len()
        invariant
            i <= calendars.len(),
            busy@ == busy_of_calendars(calendars@.take(i as int), search_start),
        decreases calendars.len() - i,
    {
        assert(calendars@.take(i + 1).drop_last() =~= calendars@.take(i as int));
        extend_busy(&mut busy, &calendars[i], search_start);
        i += 1;
    }
    assert(calendars@.take(calendars.len() as int) =~= calendars@);
    busy
}

/// What a whole run answers, given that the zone is known and the window
/// fits: the offer made from the planned window and the busy intervals of all
/// calendars, or `LocalTimeUnavailable`.
pub open spec fn is_run_answer(
    r: Result<Vec<Candidate>, SuggestError>,
    window: SearchWindow,
    zone: Seq<char>,
    busy: Seq<BusyInterval>,
) -> bool {
    if hours_known(window.slots(), zone, busy, window.buffer_minutes as int) {
        &&& r matches Ok(top)
        &&& top@ == offered(suggestion(window, zone, busy))
        &&& all_scored_free_slots(top@, window, zone, busy)
    } else {
        r == Err::<Vec<Candidate>, SuggestError>(SuggestError::LocalTimeUnavailable)
    }
}

/// One whole run, from plain values: builds the window for a run started at
/// `now`, gathers the busy intervals of all `calendars`, and offers the best
/// free slots.
///
/// The zone is examined first, then the window. `now` is an argument like
/// any other, so a run can be repeated with the same answer.
pub fn suggest_from_calendars(
    now: Instant,
    days_ahead: i64,
    start_hour: u32,
    end_hour: u32,
    buffer_minutes: i64,
    zone: &str,
    calendars: &Vec<Vec<CalendarEvent>>,
) -> (r: Result<Vec<Candidate>, SuggestError>)
    ensures
        !zone_known(zone@) ==> r == Err::<Vec<Candidate>, SuggestError>(SuggestError::InvalidTimezone),
        zone_known(zone@) && !window_fits(
            now@,
            days_ahead as int,
            start_hour as int,
            end_hour as int,
        ) ==> r == Err::<Vec<Candidate>, SuggestError>(SuggestError::WindowOutOfRange),
        zone_known(zone@) && window_fits(now@, days_ahead as int, start_hour as int, end_hour as int)
            ==> is_run_answer(
            r,
            planned_window(now, days_ahead, start_hour, end_hour, buffer_minutes),
            zone@,
            busy_of_calendars(
                calendars@,
                planned_window(now, days_ahead, start_hour, end_hour, buffer_minutes).window_start,
            ),
        ),
{
    match validate_timezone(zone) {
        Ok(_) => {},
        Err(e) => {
            return Err(e);
        },
    }
    match SearchWindow::new(now, days_ahead, start_hour, end_hour, buffer_minutes) {
        None => Err(SuggestError::WindowOutOfRange),
        Some(window) => {
            let busy = gather_busy(calendars, window.window_start);
            suggest_slots(&window, zone, &busy)
        },
    }
}

} // verus!
