use slot_suggester::grid::slot_grid;
use slot_suggester::instant::{Instant, DAY_SECONDS, HOUR_SECONDS, MINUTE_SECONDS, SLOT_SECONDS};
use slot_suggester::window::{
    SearchWindow, DEFAULT_BUFFER_MINUTES, DEFAULT_DAYS_AHEAD, DEFAULT_END_HOUR, DEFAULT_START_HOUR,
};

// 2024-03-10T15:20:00Z
const NOW: i64 = 1710084000;

fn at(secs: i64) -> Instant {
    Instant::from_timestamp(secs)
}

fn window(days_ahead: i64, start_hour: u32, end_hour: u32) -> SearchWindow {
    SearchWindow::new(at(NOW), days_ahead, start_hour, end_hour, 15).unwrap()
}

#[test]
fn instant_keeps_its_timestamp() {
    assert_eq!(at(NOW).timestamp(), NOW);
    assert_eq!(at(-5).timestamp(), -5);
    assert_eq!(at(NOW), Instant { secs: NOW });
}

#[test]
fn unit_lengths() {
    assert_eq!(MINUTE_SECONDS, 60);
    assert_eq!(HOUR_SECONDS, 3600);
    assert_eq!(DAY_SECONDS, 86400);
}

#[test]
fn defaults() {
    assert_eq!(DEFAULT_DAYS_AHEAD, 7);
    assert_eq!(DEFAULT_START_HOUR, 9);
    assert_eq!(DEFAULT_END_HOUR, 18);
    assert_eq!(DEFAULT_BUFFER_MINUTES, 15);
}

#[test]
fn window_starts_one_day_after_now() {
    let w: SearchWindow = window(7, 9, 18);
    // 2024-03-11T15:20:00Z
    assert_eq!(w.window_start, at(1710170400));
    assert_eq!(w.window_start.timestamp() - NOW, DAY_SECONDS);
}

#[test]
fn window_ends_with_the_end_hour_of_the_last_day() {
    let w: SearchWindow = window(7, 9, 18);
    // 2024-03-18T18:59:59Z
    assert_eq!(w.window_end, at(1710788399));
}

#[test]
fn window_keeps_its_configuration() {
    let w: SearchWindow = SearchWindow::new(at(NOW), 3, 8, 17, 20).unwrap();
    assert_eq!(w.day_start_hour, 8);
    assert_eq!(w.day_end_hour, 17);
    assert_eq!(w.buffer_minutes, 20);
}

#[test]
fn grid_begins_at_the_start_hour_of_the_first_search_day() {
    let w: SearchWindow = window(7, 9, 18);
    // 2024-03-11T09:00:00Z
    assert_eq!(w.first_slot(), at(1710147600));
}

#[test]
fn grid_begins_at_midnight_for_hour_zero() {
    let w: SearchWindow = window(7, 0, 18);
    assert_eq!(w.first_slot(), at(1710115200));
}

#[test]
fn window_before_the_epoch_rounds_down_to_midnight() {
    // now is 1969-12-30T22:00:00Z; the search starts on 1969-12-31
    let w: SearchWindow = SearchWindow::new(at(-93600), 0, 9, 18, 0).unwrap();
    assert_eq!(w.window_start, at(-7200));
    assert_eq!(w.first_slot(), at(-86400 + 9 * 3600));
    assert_eq!(w.window_end, at(-86400 + 18 * 3600 + 3599));
}

#[test]
fn start_hour_that_no_day_has_falls_back_to_now() {
    let w: SearchWindow = window(7, 24, 18);
    assert_eq!(w.first_slot(), at(NOW));
    let v: SearchWindow = window(7, 99, 18);
    assert_eq!(v.first_slot(), at(NOW));
}

#[test]
fn end_hour_that_no_day_has_falls_back_to_now_and_empties_the_window() {
    let w: SearchWindow = window(7, 9, 24);
    assert_eq!(w.window_end, at(NOW));
    assert!(w.slot_starts().is_empty());
}

#[test]
fn window_that_cannot_be_represented_is_refused() {
    assert_eq!(SearchWindow::new(at(i64::MAX), 7, 9, 18, 15), None);
    assert_eq!(SearchWindow::new(at(i64::MAX - 86400), 0, 9, 18, 15), None);
    assert_eq!(SearchWindow::new(at(NOW), i64::MAX, 9, 18, 15), None);
    assert_eq!(SearchWindow::new(at(NOW), i64::MIN, 9, 18, 15), None);
    assert_eq!(SearchWindow::new(at(i64::MIN), -2, 9, 18, 15), None);
}

#[test]
fn window_at_the_edges_of_the_range() {
    let low: SearchWindow = SearchWindow::new(at(i64::MIN), 0, 9, 18, 15).unwrap();
    assert_eq!(low.window_start, at(-9223372036854689408));
    assert_eq!(low.first_slot(), at(-9223372036854687600));
    assert_eq!(low.window_end, at(-9223372036854651601));
    let high: SearchWindow = SearchWindow::new(at(i64::MAX - 86400), 0, 0, 0, 15).unwrap();
    assert_eq!(high.window_start, at(i64::MAX));
    assert_eq!(high.first_slot(), at(9223372036854720000));
    assert_eq!(high.window_end, at(9223372036854723599));
    assert_eq!(high.slot_starts(), vec![at(9223372036854720000), at(9223372036854721800)]);
}

#[test]
fn grid_covers_the_window_in_half_hour_steps() {
    let slots: Vec<Instant> = window(7, 9, 18).slot_starts();
    assert_eq!(slots.len(), 356);
    assert_eq!(slots[0], at(1710147600));
    assert_eq!(slots[1], at(1710149400));
    // 2024-03-18T18:30:00Z
    assert_eq!(slots[355], at(1710786600));
    for k in 1..slots.len() {
        assert_eq!(slots[k].timestamp() - slots[k - 1].timestamp(), SLOT_SECONDS);
    }
}

#[test]
fn grid_is_cut_off_once_and_not_every_day() {
    let slots: Vec<Instant> = window(7, 9, 18).slot_starts();
    // 2024-03-11T19:00:00Z, 2024-03-12T03:00:00Z and 2024-03-12T08:30:00Z lie
    // outside the daily hours and are slots all the same
    assert!(slots.contains(&at(1710183600)));
    assert!(slots.contains(&at(1710212400)));
    assert!(slots.contains(&at(1710232200)));
    // nothing starts after the cutoff
    assert!(!slots.contains(&at(1710788400)));
}

#[test]
fn grid_with_start_hour_after_end_hour_still_reaches_later_days() {
    let slots: Vec<Instant> = window(1, 20, 8).slot_starts();
    // from 2024-03-11T20:00:00Z to 2024-03-12T08:30:00Z
    assert_eq!(slots.len(), 26);
    assert_eq!(slots[0], at(1710187200));
    assert_eq!(slots[25], at(1710232200));
}

#[test]
fn grid_is_empty_where_the_first_slot_lies_after_the_cutoff() {
    assert!(window(-1, 9, 18).slot_starts().is_empty());
    assert!(window(0, 19, 18).slot_starts().is_empty());
    assert!(slot_grid(at(10), at(9)).is_empty());
}

#[test]
fn grid_of_one_day() {
    let slots: Vec<Instant> = window(0, 9, 18).slot_starts();
    // 09:00 to 18:30
    assert_eq!(slots.len(), 20);
    assert_eq!(slots[19], at(1710147600 + 19 * 1800));
}

#[test]
fn grid_includes_a_slot_that_starts_at_the_cutoff() {
    assert_eq!(slot_grid(at(0), at(3600)), vec![at(0), at(1800), at(3600)]);
    assert_eq!(slot_grid(at(0), at(3599)), vec![at(0), at(1800)]);
    assert_eq!(slot_grid(at(7), at(7)), vec![at(7)]);
}

#[test]
fn grid_at_the_edges_of_the_range() {
    assert_eq!(
        slot_grid(at(i64::MAX - 1800), at(i64::MAX)),
        vec![at(i64::MAX - 1800), at(i64::MAX)]
    );
    assert_eq!(slot_grid(at(i64::MIN), at(i64::MIN + 1799)), vec![at(i64::MIN)]);
}

#[test]
fn built_window_is_well_formed() {
    assert!(window(7, 9, 18).is_well_formed());
    assert!(window(7, 24, 24).is_well_formed());
    assert!(SearchWindow::new(at(i64::MIN), 0, 9, 18, 15).unwrap().is_well_formed());
}

#[test]
fn window_whose_grid_leaves_the_range_is_not_well_formed() {
    let late: SearchWindow = SearchWindow {
        window_start: at(0),
        window_end: at(i64::MAX - 1799),
        day_start_hour: 9,
        day_end_hour: 18,
        buffer_minutes: 15,
    };
    assert!(!late.is_well_formed());
    let just: SearchWindow = SearchWindow { window_end: at(i64::MAX - 1800), ..late };
    assert!(just.is_well_formed());
    let early: SearchWindow = SearchWindow { window_start: at(i64::MIN), day_start_hour: 24, ..just };
    assert!(!early.is_well_formed());
}
