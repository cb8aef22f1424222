use slot_suggester::error::SuggestError;
use slot_suggester::instant::Instant;
use slot_suggester::interval::BusyInterval;
use slot_suggester::ranking::Candidate;
use slot_suggester::suggest::{ranked_free_slots, score_free_slots, score_slot, suggest_slots};
use slot_suggester::window::SearchWindow;
use slot_suggester::zone::validate_timezone;

// 2024-03-10T15:20:00Z
const NOW: i64 = 1710084000;

// 2024-03-11T09:00:00Z, the first slot of the default window
const FIRST: i64 = 1710147600;

const HALF_HOUR: i64 = 1800;

const DAY: i64 = 86400;

fn at(secs: i64) -> Instant {
    Instant::from_timestamp(secs)
}

fn cand(secs: i64, score: i32) -> Candidate {
    Candidate { slot_start: at(secs), score }
}

fn busy(start: i64, end: i64) -> BusyInterval {
    BusyInterval { start: at(start), end: at(end) }
}

fn default_window() -> SearchWindow {
    SearchWindow::new(at(NOW), 7, 9, 18, 15).unwrap()
}

#[test]
fn known_zones_are_accepted() {
    assert_eq!(validate_timezone("UTC"), Ok(()));
    assert_eq!(validate_timezone("Europe/London"), Ok(()));
    assert_eq!(validate_timezone("America/New_York"), Ok(()));
    assert_eq!(validate_timezone("Asia/Tokyo"), Ok(()));
}

#[test]
fn unknown_zones_are_refused() {
    assert_eq!(validate_timezone("Mars/Olympus_Mons"), Err(SuggestError::InvalidTimezone));
    assert_eq!(validate_timezone(""), Err(SuggestError::InvalidTimezone));
    assert_eq!(validate_timezone("+01:00"), Err(SuggestError::InvalidTimezone));
    assert_eq!(validate_timezone("Europe/"), Err(SuggestError::InvalidTimezone));
}

#[test]
fn slot_with_a_morning_hour_scores_one() {
    assert_eq!(score_slot(at(5), Some(9)), Some(cand(5, 1)));
    assert_eq!(score_slot(at(5), Some(11)), Some(cand(5, 1)));
}

#[test]
fn slot_with_another_hour_scores_zero() {
    assert_eq!(score_slot(at(5), Some(8)), Some(cand(5, 0)));
    assert_eq!(score_slot(at(5), Some(12)), Some(cand(5, 0)));
}

#[test]
fn slot_without_a_local_hour_has_no_score() {
    assert_eq!(score_slot(at(5), None), None);
}

#[test]
fn free_slots_are_scored_by_the_hour_in_utc() {
    let slots: Vec<Instant> = vec![at(FIRST - HALF_HOUR), at(FIRST), at(FIRST + 5 * HALF_HOUR), at(FIRST + 6 * HALF_HOUR)];
    let none: Vec<BusyInterval> = Vec::new();
    assert_eq!(
        score_free_slots(&slots, "UTC", &none, 15),
        Some(vec![
            cand(FIRST - HALF_HOUR, 0),
            cand(FIRST, 1),
            cand(FIRST + 5 * HALF_HOUR, 1),
            cand(FIRST + 6 * HALF_HOUR, 0),
        ])
    );
}

#[test]
fn free_slots_are_scored_by_the_local_hour() {
    // 00:00 UTC is 09:00 in Tokyo, 03:00 UTC is noon
    let midnight: i64 = FIRST - 9 * 3600;
    let slots: Vec<Instant> = vec![
        at(midnight - HALF_HOUR),
        at(midnight),
        at(midnight + 5 * HALF_HOUR),
        at(midnight + 6 * HALF_HOUR),
        at(FIRST),
    ];
    let none: Vec<BusyInterval> = Vec::new();
    assert_eq!(
        score_free_slots(&slots, "Asia/Tokyo", &none, 15),
        Some(vec![
            cand(midnight - HALF_HOUR, 0),
            cand(midnight, 1),
            cand(midnight + 5 * HALF_HOUR, 1),
            cand(midnight + 6 * HALF_HOUR, 0),
            cand(FIRST, 0),
        ])
    );
}

#[test]
fn local_hour_follows_daylight_saving_time() {
    // New York is four hours behind UTC on 2024-03-11 and five on 2024-01-15
    let summer: Vec<Instant> = vec![at(FIRST + 3 * 3600), at(FIRST + 4 * 3600), at(FIRST + 7 * 3600)];
    let winter_nine: i64 = 1705309200;
    let winter: Vec<Instant> = vec![at(winter_nine + 4 * 3600), at(winter_nine + 5 * 3600), at(winter_nine + 8 * 3600)];
    let none: Vec<BusyInterval> = Vec::new();
    assert_eq!(
        score_free_slots(&summer, "America/New_York", &none, 0),
        Some(vec![cand(FIRST + 3 * 3600, 0), cand(FIRST + 4 * 3600, 1), cand(FIRST + 7 * 3600, 0)])
    );
    assert_eq!(
        score_free_slots(&winter, "America/New_York", &none, 0),
        Some(vec![
            cand(winter_nine + 4 * 3600, 0),
            cand(winter_nine + 5 * 3600, 1),
            cand(winter_nine + 8 * 3600, 0),
        ])
    );
}

#[test]
fn conflicted_slots_are_dropped_before_scoring() {
    // busy 09:00-10:00, widened to 08:45-10:15; the slot 08:45-09:15 is excluded
    let slots: Vec<Instant> = vec![at(FIRST - 3 * HALF_HOUR), at(FIRST - 900), at(FIRST + 3 * HALF_HOUR)];
    let list: Vec<BusyInterval> = vec![busy(FIRST, FIRST + 3600)];
    assert_eq!(
        score_free_slots(&slots, "UTC", &list, 15),
        Some(vec![cand(FIRST - 3 * HALF_HOUR, 0), cand(FIRST + 3 * HALF_HOUR, 1)])
    );
}

#[test]
fn slot_touching_an_unbuffered_interval_is_included() {
    // busy 09:00-09:30, no buffer; the slot 09:30-10:00 stays
    let slots: Vec<Instant> = vec![at(FIRST), at(FIRST + HALF_HOUR)];
    let list: Vec<BusyInterval> = vec![busy(FIRST, FIRST + HALF_HOUR)];
    assert_eq!(score_free_slots(&slots, "UTC", &list, 0), Some(vec![cand(FIRST + HALF_HOUR, 1)]));
}

#[test]
fn scoring_in_an_unknown_zone_gives_nothing() {
    let slots: Vec<Instant> = vec![at(FIRST)];
    let none: Vec<BusyInterval> = Vec::new();
    assert_eq!(score_free_slots(&slots, "Nowhere/Land", &none, 0), None);
}

#[test]
fn scoring_asks_for_no_hour_of_a_conflicted_slot() {
    let slots: Vec<Instant> = vec![at(FIRST)];
    let list: Vec<BusyInterval> = vec![busy(FIRST, FIRST + HALF_HOUR)];
    assert_eq!(score_free_slots(&slots, "Nowhere/Land", &list, 0), Some(Vec::new()));
}

#[test]
fn empty_calendar_offers_the_five_earliest_morning_slots() {
    let none: Vec<BusyInterval> = Vec::new();
    let top: Vec<Candidate> = suggest_slots(&default_window(), "UTC", &none).unwrap();
    assert_eq!(
        top,
        vec![
            cand(FIRST, 1),
            cand(FIRST + HALF_HOUR, 1),
            cand(FIRST + 2 * HALF_HOUR, 1),
            cand(FIRST + 3 * HALF_HOUR, 1),
            cand(FIRST + 4 * HALF_HOUR, 1),
        ]
    );
}

#[test]
fn empty_calendar_leaves_every_grid_slot_free() {
    let none: Vec<BusyInterval> = Vec::new();
    let window: SearchWindow = default_window();
    let ranked: Vec<Candidate> = ranked_free_slots(&window, "UTC", &none).unwrap();
    let grid: Vec<Instant> = window.slot_starts();
    assert_eq!(ranked.len(), grid.len());
    assert_eq!(ranked.len(), 356);
    for slot in grid {
        assert!(ranked.iter().any(|c| c.slot_start == slot));
    }
    // six morning slots on each of the eight days from 2024-03-11 to 2024-03-18
    let mornings: usize = ranked.iter().filter(|c| c.score == 1).count();
    assert_eq!(mornings, 48);
    for k in 0..48usize {
        assert_eq!(ranked[k].score, 1);
    }
    assert_eq!(ranked[5], cand(FIRST + 5 * HALF_HOUR, 1));
    assert_eq!(ranked[6], cand(FIRST + DAY, 1));
    assert_eq!(ranked[47], cand(FIRST + 7 * DAY + 5 * HALF_HOUR, 1));
    assert_eq!(ranked[48], cand(FIRST + 6 * HALF_HOUR, 0));
}

#[test]
fn without_a_morning_slot_the_five_earliest_are_offered() {
    // a window of one afternoon: 2024-03-11 from 13:00 to 15:59:59
    let window: SearchWindow = SearchWindow::new(at(NOW), 0, 13, 15, 15).unwrap();
    let none: Vec<BusyInterval> = Vec::new();
    let first: i64 = FIRST + 4 * 3600;
    assert_eq!(
        suggest_slots(&window, "UTC", &none),
        Ok(vec![
            cand(first, 0),
            cand(first + HALF_HOUR, 0),
            cand(first + 2 * HALF_HOUR, 0),
            cand(first + 3 * HALF_HOUR, 0),
            cand(first + 4 * HALF_HOUR, 0),
        ])
    );
}

#[test]
fn fewer_than_five_free_slots_are_all_offered() {
    // 2024-03-11 from 10:00 to 11:59:59, with 10:00-11:00 taken
    let window: SearchWindow = SearchWindow::new(at(NOW), 0, 10, 11, 0).unwrap();
    let list: Vec<BusyInterval> = vec![busy(FIRST + 3600, FIRST + 2 * 3600)];
    assert_eq!(
        suggest_slots(&window, "UTC", &list),
        Ok(vec![cand(FIRST + 4 * HALF_HOUR, 1), cand(FIRST + 5 * HALF_HOUR, 1)])
    );
}

#[test]
fn busy_morning_moves_the_offer_to_the_free_morning_slots() {
    // 09:00-10:00 on the first day is taken; with the buffer, 10:30 is the
    // first free morning slot
    let list: Vec<BusyInterval> = vec![busy(FIRST, FIRST + 3600)];
    let top: Vec<Candidate> = suggest_slots(&default_window(), "UTC", &list).unwrap();
    assert_eq!(
        top,
        vec![
            cand(FIRST + 3 * HALF_HOUR, 1),
            cand(FIRST + 4 * HALF_HOUR, 1),
            cand(FIRST + 5 * HALF_HOUR, 1),
            cand(FIRST + DAY, 1),
            cand(FIRST + DAY + HALF_HOUR, 1),
        ]
    );
}

#[test]
fn fully_booked_window_gives_an_empty_list_and_no_error() {
    let window: SearchWindow = default_window();
    let list: Vec<BusyInterval> = vec![busy(window.window_start.timestamp() - 2 * DAY, window.window_end.timestamp() + DAY)];
    assert_eq!(suggest_slots(&window, "UTC", &list), Ok(Vec::new()));
    assert_eq!(ranked_free_slots(&window, "UTC", &list), Ok(Vec::new()));
}

#[test]
fn window_without_slots_gives_an_empty_list() {
    let window: SearchWindow = SearchWindow::new(at(NOW), -1, 9, 18, 15).unwrap();
    let none: Vec<BusyInterval> = Vec::new();
    assert_eq!(suggest_slots(&window, "UTC", &none), Ok(Vec::new()));
}

#[test]
fn intervals_from_two_calendars_block_together() {
    let first: Vec<BusyInterval> = vec![busy(FIRST, FIRST + 3 * 3600)];
    let second: Vec<BusyInterval> = vec![busy(FIRST + DAY, FIRST + DAY + 3 * 3600)];
    let mut both: Vec<BusyInterval> = first.clone();
    both.extend(second.clone());
    let window: SearchWindow = SearchWindow::new(at(NOW), 1, 9, 11, 0).unwrap();
    // alone, each calendar leaves the mornings of the other day free
    assert_eq!(suggest_slots(&window, "UTC", &first).unwrap()[0], cand(FIRST + DAY, 1));
    assert_eq!(suggest_slots(&window, "UTC", &second).unwrap()[0], cand(FIRST, 1));
    // together they leave no morning slot at all
    let ranked: Vec<Candidate> = ranked_free_slots(&window, "UTC", &both).unwrap();
    assert!(ranked.iter().all(|c| c.score == 0));
    assert!(!ranked.iter().any(|c| c.slot_start == at(FIRST)));
    assert!(!ranked.iter().any(|c| c.slot_start == at(FIRST + DAY)));
    assert_eq!(ranked[0], cand(FIRST + 6 * HALF_HOUR, 0));
}

#[test]
fn unknown_zone_is_an_error() {
    let none: Vec<BusyInterval> = Vec::new();
    assert_eq!(
        suggest_slots(&default_window(), "Mars/Olympus_Mons", &none),
        Err(SuggestError::InvalidTimezone)
    );
    assert_eq!(
        ranked_free_slots(&default_window(), "utc?", &none),
        Err(SuggestError::InvalidTimezone)
    );
}

#[test]
fn slot_beyond_the_calendar_is_an_error() {
    let window: SearchWindow = SearchWindow::new(at(10_000_000_000_000), 0, 0, 0, 0).unwrap();
    let none: Vec<BusyInterval> = Vec::new();
    assert_eq!(
        ranked_free_slots(&window, "UTC", &none),
        Err(SuggestError::LocalTimeUnavailable)
    );
    assert_eq!(suggest_slots(&window, "UTC", &none), Err(SuggestError::LocalTimeUnavailable));
}

#[test]
fn same_inputs_give_the_same_list() {
    let list: Vec<BusyInterval> = vec![busy(FIRST, FIRST + 3600), busy(FIRST + DAY, FIRST + DAY + 1800)];
    let window: SearchWindow = default_window();
    let once = suggest_slots(&window, "Europe/Berlin", &list);
    let again = suggest_slots(&window, "Europe/Berlin", &list);
    assert_eq!(once, again);
    assert_eq!(
        ranked_free_slots(&window, "Europe/Berlin", &list),
        ranked_free_slots(&window, "Europe/Berlin", &list)
    );
}

#[test]
fn order_of_the_busy_intervals_does_not_matter() {
    let a: Vec<BusyInterval> = vec![busy(FIRST, FIRST + 3600), busy(FIRST + DAY, FIRST + DAY + 1800)];
    let b: Vec<BusyInterval> = vec![busy(FIRST + DAY, FIRST + DAY + 1800), busy(FIRST, FIRST + 3600)];
    let window: SearchWindow = default_window();
    assert_eq!(ranked_free_slots(&window, "UTC", &a), ranked_free_slots(&window, "UTC", &b));
}

#[test]
fn every_offered_slot_is_free_and_scored_by_its_hour() {
    let list: Vec<BusyInterval> = vec![
        busy(FIRST, FIRST + 3600),
        busy(FIRST + 2 * 3600, FIRST + 5 * 3600),
        busy(FIRST + DAY - 1800, FIRST + DAY + 2 * 3600),
    ];
    let window: SearchWindow = default_window();
    let ranked: Vec<Candidate> = ranked_free_slots(&window, "UTC", &list).unwrap();
    assert!(!ranked.is_empty());
    for c in ranked.iter() {
        let start: i64 = c.slot_start.timestamp();
        let end: i64 = c.slot_end().timestamp();
        assert_eq!(end - start, 1800);
        for b in list.iter() {
            let widened_start: i64 = b.start.timestamp() - 15 * 60;
            let widened_end: i64 = b.end.timestamp() + 15 * 60;
            assert!(!(start < widened_end && end > widened_start));
        }
        let hour: i64 = start.rem_euclid(86400) / 3600;
        let expected: i32 = if hour >= 9 && hour < 12 { 1 } else { 0 };
        assert_eq!(c.score, expected);
    }
    for k in 1..ranked.len() {
        let before: Candidate = ranked[k - 1];
        let after: Candidate = ranked[k];
        assert!(
            before.score > after.score
                || (before.score == after.score && before.slot_start.timestamp() < after.slot_start.timestamp())
        );
    }
}
