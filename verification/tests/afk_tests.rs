use ems_telemetry::afk::{
    get_idle_time, input_observed, is_wall_clock_ok, AfkEvent, AfkState, IDLE_THRESHOLD_MS,
    WALL_CLOCK_LIMIT_MS,
};

#[test]
fn new_state_is_active_with_nothing_pending() {
    let s = AfkState::new(500);
    assert_eq!(s.last_activity, 500);
    assert_eq!(s.afk_start, None);
    assert_eq!(s.afk_end, None);
    assert!(!s.is_afk);
    assert!(s.is_wf());
}

#[test]
fn goes_away_exactly_once_when_idle_reaches_threshold() {
    let mut s = AfkState::new(0);
    let idles = [7_000u64, 8_000, 9_000, 10_000, 11_000, 12_000];
    let mut entered = Vec::new();
    for (i, idle) in idles.iter().enumerate() {
        let wall = 1_700_000_000_000 + 1000 * i as i64;
        let event = s.tick(false, *idle, wall, 1000 * i as u64);
        if let AfkEvent::Entered { at } = event {
            entered.push((i, at));
        } else {
            assert_eq!(event, AfkEvent::Steady);
        }
        assert_eq!(s.is_afk, i >= 3);
    }
    assert_eq!(entered, vec![(3, 1_700_000_003_000)]);
    assert_eq!(s.afk_start, Some(1_700_000_003_000));
    assert_eq!(s.afk_end, None);
}

#[test]
fn threshold_is_inclusive() {
    let mut s = AfkState::new(0);
    assert_eq!(s.tick(false, IDLE_THRESHOLD_MS - 1, 10, 1), AfkEvent::Steady);
    assert!(!s.is_afk);
    assert_eq!(s.tick(false, IDLE_THRESHOLD_MS, 20, 2), AfkEvent::Entered { at: 20 });
    assert!(s.is_afk);
}

#[test]
fn already_idle_at_launch_enters_on_first_tick() {
    let mut s = AfkState::new(0);
    assert_eq!(s.tick(false, 3_600_000, 42_000, 1), AfkEvent::Entered { at: 42_000 });
    assert_eq!(s.afk_start, Some(42_000));
}

#[test]
fn input_ends_the_interval_and_the_next_query_reports_it_once() {
    let mut s = AfkState::new(0);
    s.tick(false, 10_000, 100_000, 10_000);
    let event = s.tick(true, 0, 160_500, 70_500);
    assert_eq!(event, AfkEvent::Returned { at: 160_500, duration_ms: 60_500 });
    assert!(!s.is_afk);
    assert_eq!(s.afk_start, Some(100_000));
    assert_eq!(s.afk_end, Some(160_500));
    assert_eq!(s.last_activity, 70_500);

    let shown = s.report(72_600);
    assert_eq!(shown.last_active_seconds, 2);
    assert_eq!(shown.afk_start, Some(100_000));
    assert_eq!(shown.afk_end, Some(160_500));
    assert_eq!(shown.afk_duration_ms, Some(60_500));
    assert!(!shown.is_afk);

    let later = s.report(73_000);
    assert_eq!(later.afk_start, None);
    assert_eq!(later.afk_end, None);
    assert_eq!(later.afk_duration_ms, None);
    assert!(!later.is_afk);
}

#[test]
fn idle_drop_without_input_reports_no_interval() {
    let mut s = AfkState::new(0);
    s.tick(false, 15_000, 1_000, 1);
    assert_eq!(s.tick(false, 200, 2_000, 2), AfkEvent::Resumed);
    assert!(!s.is_afk);
    assert_eq!(s.afk_start, None);
    assert_eq!(s.afk_end, None);
    assert_eq!(s.last_activity, 0);
    let shown = s.report(3);
    assert_eq!(shown.afk_duration_ms, None);
}

#[test]
fn input_while_active_only_stamps_activity() {
    let mut s = AfkState::new(5);
    assert_eq!(s.tick(true, 20_000, 9, 1234), AfkEvent::Steady);
    assert_eq!(s, AfkState { last_activity: 1234, afk_start: None, afk_end: None, is_afk: false });
}

#[test]
fn staying_away_changes_nothing() {
    let mut s = AfkState::new(0);
    s.tick(false, 10_000, 50, 1);
    let before = s;
    assert_eq!(s.tick(false, 11_000, 60, 2), AfkEvent::Steady);
    assert_eq!(s, before);
}

#[test]
fn query_while_away_shows_start_and_keeps_it() {
    let mut s = AfkState::new(1_000);
    s.tick(false, 10_000, 777, 2_000);
    let shown = s.report(4_999);
    assert!(shown.is_afk);
    assert_eq!(shown.afk_start, Some(777));
    assert_eq!(shown.afk_end, None);
    assert_eq!(shown.afk_duration_ms, None);
    assert_eq!(shown.last_active_seconds, 3);
    assert_eq!(s.afk_start, Some(777));
    assert!(s.is_afk);
}

#[test]
fn going_away_again_drops_an_unreported_interval() {
    let mut s = AfkState::new(0);
    s.tick(false, 10_000, 100, 1);
    s.tick(true, 0, 200, 2);
    assert_eq!(s.tick(false, 10_000, 300, 3), AfkEvent::Entered { at: 300 });
    assert_eq!(s.afk_start, Some(300));
    assert_eq!(s.afk_end, None);
    assert!(s.is_wf());
}

#[test]
fn a_wall_clock_that_ran_backwards_gives_a_negative_duration() {
    let mut s = AfkState::new(0);
    s.tick(false, 10_000, 5_000, 1);
    assert_eq!(s.tick(true, 0, 4_000, 2), AfkEvent::Returned { at: 4_000, duration_ms: -1_000 });
}

#[test]
fn report_with_an_earlier_monotonic_reading_shows_zero() {
    let mut s = AfkState::new(10_000);
    assert_eq!(s.report(9_000).last_active_seconds, 0);
}

#[test]
fn idle_time_from_probe() {
    assert_eq!(get_idle_time(true, 100_000, 40_000), 60_000);
    assert_eq!(get_idle_time(false, 100_000, 40_000), 0);
    assert_eq!(get_idle_time(true, 10, 40), 0);
    assert_eq!(get_idle_time(true, u64::MAX, u32::MAX), u64::MAX - u32::MAX as u64);
}

#[test]
fn input_is_any_key_or_any_button() {
    assert!(!input_observed(0, &vec![]));
    assert!(!input_observed(0, &vec![false, false, false]));
    assert!(input_observed(1, &vec![false]));
    assert!(input_observed(0, &vec![false, false, true]));
    assert!(input_observed(2, &vec![true]));
}

#[test]
fn wall_clock_range() {
    assert!(is_wall_clock_ok(0));
    assert!(is_wall_clock_ok(WALL_CLOCK_LIMIT_MS));
    assert!(is_wall_clock_ok(-WALL_CLOCK_LIMIT_MS));
    assert!(!is_wall_clock_ok(WALL_CLOCK_LIMIT_MS + 1));
    assert!(!is_wall_clock_ok(i64::MIN));
}

#[test]
fn well_formedness_is_checked_at_run_time() {
    let bad = AfkState { last_activity: 0, afk_start: None, afk_end: None, is_afk: true };
    assert!(!bad.is_wf());
    let worse = AfkState { last_activity: 0, afk_start: Some(1), afk_end: Some(2), is_afk: true };
    assert!(!worse.is_wf());
    let stale = AfkState { last_activity: 0, afk_start: Some(1), afk_end: None, is_afk: false };
    assert!(!stale.is_wf());
    let far = AfkState { last_activity: 0, afk_start: Some(i64::MAX), afk_end: None, is_afk: true };
    assert!(!far.is_wf());
    let good = AfkState { last_activity: 0, afk_start: Some(1), afk_end: Some(2), is_afk: false };
    assert!(good.is_wf());
}
