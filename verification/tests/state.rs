use window_monitor::state::{Frequency, MonitorState, SwitchEvent, WindowStats};
use window_monitor::time::Timestamp;

fn at(secs: i64) -> Timestamp {
    Timestamp { secs, nanos: 0 }
}

fn at_ms(ms: i64) -> Timestamp {
    Timestamp { secs: ms / 1000, nanos: (ms % 1000) as u32 * 1_000_000 }
}

fn recorded(events: &[(isize, i64)]) -> MonitorState {
    let mut state = MonitorState::new();
    for &(hwnd, secs) in events {
        state.add_event_at(hwnd, at(secs));
    }
    state
}

#[test]
fn new_state_is_empty() {
    let state = MonitorState::new();
    assert_eq!(state.history.len(), 0);
    assert_eq!(state.daily_stats.len(), 0);
    assert_eq!(state.last_switch_time, None);
    assert_eq!(state.last_active_hwnd, None);
    assert_eq!(state.get_total_duration(1), 0);
    assert!(state.can_add_event());
}

#[test]
fn first_switch_credits_nobody() {
    let state = recorded(&[(7, 1000)]);
    assert_eq!(state.history.len(), 1);
    assert_eq!(state.history[0], SwitchEvent { hwnd: 7, timestamp: at(1000) });
    assert_eq!(
        state.daily_stats.get(&7),
        Some(&WindowStats { first_seen: at(1000), total_duration_ms: 0 })
    );
    assert_eq!(state.last_switch_time, Some(at(1000)));
    assert_eq!(state.last_active_hwnd, Some(7));
}

#[test]
fn totals_are_times_in_front() {
    let mut state = MonitorState::new();
    state.add_event_at(1, at_ms(10_000));
    state.add_event_at(2, at_ms(12_500));
    state.add_event_at(1, at_ms(13_000));
    state.add_event_at(3, at_ms(20_001));
    assert_eq!(state.get_total_duration(1), 2_500 + 7_001);
    assert_eq!(state.get_total_duration(2), 500);
    assert_eq!(state.get_total_duration(3), 0);
    assert_eq!(state.get_total_duration(4), 0);
    let sum: i64 = [1, 2, 3].iter().map(|w| state.get_total_duration(*w)).sum();
    assert_eq!(sum, 10_001);
}

#[test]
fn milliseconds_are_truncated_towards_zero() {
    let mut state = MonitorState::new();
    state.add_event_at(1, Timestamp { secs: 10, nanos: 0 });
    state.add_event_at(2, Timestamp { secs: 10, nanos: 1_999_999 });
    assert_eq!(state.get_total_duration(1), 1);
    state.add_event_at(3, Timestamp { secs: 10, nanos: 0 });
    assert_eq!(state.get_total_duration(2), -1);
}

#[test]
fn a_clock_that_goes_back_subtracts() {
    let state = recorded(&[(1, 100), (2, 40)]);
    assert_eq!(state.get_total_duration(1), -60_000);
    assert!(state.can_add_event());
}

#[test]
fn first_seen_is_the_first_switch() {
    let state = recorded(&[(1, 100), (2, 110), (1, 120), (2, 130)]);
    assert_eq!(state.daily_stats[&1].first_seen, at(100));
    assert_eq!(state.daily_stats[&2].first_seen, at(110));
}

#[test]
fn unknown_window_in_front_is_first_seen_at_the_last_switch() {
    let mut state = MonitorState::new();
    state.last_switch_time = Some(at(50));
    state.last_active_hwnd = Some(9);
    state.add_event_at(1, at(53));
    assert_eq!(
        state.daily_stats.get(&9),
        Some(&WindowStats { first_seen: at(50), total_duration_ms: 3_000 })
    );
}

#[test]
fn switches_a_day_old_leave_the_history() {
    let day = 24 * 60 * 60;
    let mut state = recorded(&[(1, 0), (2, 60), (3, 120)]);
    // 23 hours and 59 minutes and 59 seconds after the first switch.
    state.add_event_at(4, at(day - 1));
    assert_eq!(state.history.len(), 4);
    // Exactly one day after the first one.
    state.add_event_at(5, at(day));
    assert_eq!(state.history.len(), 4);
    assert_eq!(state.history[0].hwnd, 2);
    state.add_event_at(6, at(day + 121));
    let left: Vec<isize> = state.history.iter().map(|e| e.hwnd).collect();
    assert_eq!(left, vec![4, 5, 6]);
    // What is known of a window is not forgotten.
    assert_eq!(state.daily_stats[&1].first_seen, at(0));
}

#[test]
fn a_fresh_front_keeps_what_is_behind_it() {
    let day = 24 * 60 * 60;
    let mut state = MonitorState::new();
    state.history.push_back(SwitchEvent { hwnd: 1, timestamp: at(2 * day) });
    state.history.push_back(SwitchEvent { hwnd: 2, timestamp: at(0) });
    state.add_event_at(3, at(2 * day + 1));
    assert_eq!(state.history.len(), 3);
}

#[test]
fn room_is_measured_on_the_window_in_front() {
    let mut state = recorded(&[(1, 100)]);
    state
        .daily_stats
        .insert(1, WindowStats { first_seen: at(100), total_duration_ms: i64::MAX });
    assert!(!state.can_add_event());
    state
        .daily_stats
        .insert(1, WindowStats { first_seen: at(100), total_duration_ms: i64::MIN });
    assert!(!state.can_add_event());
    state
        .daily_stats
        .insert(1, WindowStats { first_seen: at(100), total_duration_ms: i64::MAX / 2 });
    assert!(state.can_add_event());
}

#[test]
fn five_alternating_switches_are_an_oscillation() {
    let state = recorded(&[(1, 100), (2, 110), (1, 120), (2, 130), (1, 140)]);
    assert_eq!(state.check_oscillation_at(1, at(150)), Some((1, 2)));
    assert_eq!(state.check_oscillation_at(2, at(150)), None);
    assert_eq!(state.identify_pattern_at(1, at(150)), "Oscillation (A-B-A-B)");
}

#[test]
fn four_switches_are_no_oscillation() {
    let state = recorded(&[(1, 100), (2, 110), (1, 120), (2, 130)]);
    assert_eq!(state.check_oscillation_at(2, at(130)), None);
}

#[test]
fn oscillation_lasts_at_most_sixty_seconds() {
    let state = recorded(&[(1, 100), (2, 110), (1, 120), (2, 130), (1, 140)]);
    assert_eq!(state.check_oscillation_at(1, at(160)), Some((1, 2)));
    assert_eq!(state.check_oscillation_at(1, Timestamp { secs: 160, nanos: 1 }), None);
    assert_eq!(
        state.check_oscillation_at(1, Timestamp { secs: 160, nanos: 500_000_000 }),
        None
    );
    assert_eq!(state.check_oscillation_at(1, at(161)), None);

    let mut state = MonitorState::new();
    for (hwnd, ms) in [(1, 700), (2, 10_000), (1, 20_000), (2, 30_000), (1, 40_000)] {
        state.add_event_at(hwnd, at_ms(ms));
    }
    assert_eq!(state.check_oscillation_at(1, at_ms(60_699)), Some((1, 2)));
    assert_eq!(state.check_oscillation_at(1, at_ms(60_700)), Some((1, 2)));
    assert_eq!(state.check_oscillation_at(1, at_ms(60_701)), None);
    // A clock that went back makes no switch too old.
    assert_eq!(state.check_oscillation_at(1, at_ms(0)), Some((1, 2)));
}

#[test]
fn a_third_window_breaks_an_oscillation() {
    let state = recorded(&[(1, 100), (2, 110), (3, 120), (2, 130), (1, 140)]);
    assert_eq!(state.check_oscillation_at(1, at(140)), None);
    let state = recorded(&[(1, 100), (2, 110), (1, 120), (3, 130), (1, 140)]);
    assert_eq!(state.check_oscillation_at(1, at(140)), None);
    let state = recorded(&[(3, 100), (2, 110), (1, 120), (2, 130), (1, 140)]);
    assert_eq!(state.check_oscillation_at(1, at(140)), None);
    let state = recorded(&[(1, 100), (1, 110), (1, 120), (1, 130), (1, 140)]);
    assert_eq!(state.check_oscillation_at(1, at(140)), None);
}

#[test]
fn only_the_latest_switches_make_an_oscillation() {
    let state = recorded(&[(8, 10), (9, 20), (1, 100), (2, 110), (1, 120), (2, 130), (1, 140)]);
    assert_eq!(state.check_oscillation_at(1, at(140)), Some((1, 2)));
}

#[test]
fn pattern_needs_three_switches() {
    assert_eq!(MonitorState::new().identify_pattern_at(1, at(0)), "Gathering Data...");
    let state = recorded(&[(1, 100), (2, 110)]);
    assert_eq!(state.identify_pattern_at(2, at(110)), "Gathering Data...");
}

#[test]
fn three_windows_are_random() {
    let state = recorded(&[(1, 100), (2, 110), (3, 120)]);
    assert_eq!(state.identify_pattern_at(3, at(120)), "Random (Multitasking)");
}

#[test]
fn two_windows_oscillate_even_slowly() {
    let state = recorded(&[(1, 100), (2, 1000), (1, 2000)]);
    assert_eq!(state.identify_pattern_at(1, at(2000)), "Oscillation (A-B-A-B)");
}

#[test]
fn one_window_is_focused() {
    let state = recorded(&[(1, 100), (1, 110), (1, 120)]);
    assert_eq!(state.identify_pattern_at(1, at(120)), "Focused (Single Window)");
}

#[test]
fn pattern_is_told_from_ten_switches() {
    let mut events = vec![(7, 0), (8, 1)];
    for i in 0..10 {
        events.push((1, 1000 + i * 100));
    }
    let state = recorded(&events);
    assert_eq!(state.identify_pattern_at(1, at(5000)), "Focused (Single Window)");
    events.pop();
    let state = recorded(&events);
    assert_eq!(state.identify_pattern_at(1, at(5000)), "Oscillation (A-B-A-B)");
}

#[test]
fn a_window_known_too_briefly_has_no_frequency() {
    let state = recorded(&[(1, 100), (2, 101), (1, 102)]);
    let none = Frequency { switches: 0, seconds: 60 };
    assert_eq!(state.calculate_frequency_at(1, 5, at(105)), none);
    assert_eq!(
        state.calculate_frequency_at(1, 5, at(106)),
        Frequency { switches: 2, seconds: 6 }
    );
    assert_eq!(state.calculate_frequency_at(3, 5, at(106)), none);
    assert_eq!(state.calculate_frequency_at(1, 0, at(106)), none);
    assert_eq!(state.calculate_frequency_at(1, -5, at(106)), none);
}

#[test]
fn frequency_is_taken_over_the_time_a_window_is_known() {
    // First seen one minute ago: the daily average is over one minute.
    let state = recorded(&[(1, 1000), (2, 1010), (1, 1020)]);
    assert_eq!(
        state.calculate_frequency_at(1, 1440, at(1060)),
        Frequency { switches: 2, seconds: 60 }
    );
}

#[test]
fn frequency_counts_only_the_minutes_asked_for() {
    let state = recorded(&[(1, 0), (2, 10), (1, 600), (2, 610), (1, 899), (2, 900)]);
    // At 1199 the switch at 899 is five whole minutes old.
    assert_eq!(
        state.calculate_frequency_at(1, 5, at(1198)),
        Frequency { switches: 1, seconds: 300 }
    );
    assert_eq!(
        state.calculate_frequency_at(1, 5, at(1199)),
        Frequency { switches: 0, seconds: 300 }
    );
    assert_eq!(
        state.calculate_frequency_at(1, 1440, at(1199)),
        Frequency { switches: 3, seconds: 1199 }
    );
}

#[test]
fn exceeding_is_strict() {
    assert!(!Frequency { switches: 2, seconds: 6 }.exceeds(20));
    assert!(Frequency { switches: 3, seconds: 6 }.exceeds(20));
    assert!(!Frequency { switches: 75, seconds: 300 }.exceeds(15));
    assert!(Frequency { switches: 76, seconds: 300 }.exceeds(15));
    assert!(!Frequency { switches: 11, seconds: 44 }.exceeds(15));
    assert!(!Frequency { switches: 0, seconds: 60 }.exceeds(0));
    assert!(Frequency { switches: usize::MAX, seconds: u64::MAX }.exceeds(59));
    assert!(!Frequency { switches: usize::MAX, seconds: u64::MAX }.exceeds(60));
}

#[test]
fn the_clock_is_read() {
    let mut state = MonitorState::new();
    state.add_event(1);
    let first = state.last_switch_time.unwrap();
    // The clock is past the year 2020 and before the year 3000.
    assert!(first.secs > 1_577_836_800 && first.secs < 32_503_680_000);
    assert!(first.nanos < 1_000_000_000);
    for hwnd in [2, 1, 2, 1] {
        state.add_event(hwnd);
    }
    assert_eq!(state.history.len(), 5);
    assert_eq!(state.check_oscillation(1), Some((1, 2)));
    assert_eq!(state.identify_pattern(1), "Oscillation (A-B-A-B)");
    assert_eq!(state.get_short_term_average(1), Frequency { switches: 0, seconds: 60 });
    assert_eq!(state.get_daily_average(1), Frequency { switches: 0, seconds: 60 });
    assert!(state.get_total_duration(1).abs() < 60_000);
}

#[test]
fn averages_read_the_clock() {
    let mut state = MonitorState::new();
    state.add_event(1);
    let now = state.last_switch_time.unwrap();
    let an_hour_ago = Timestamp { secs: now.secs - 3600, nanos: now.nanos };
    state
        .daily_stats
        .insert(1, WindowStats { first_seen: an_hour_ago, total_duration_ms: 0 });
    let short_term = state.get_short_term_average(1);
    assert_eq!(short_term, Frequency { switches: 1, seconds: 300 });
    let daily = state.get_daily_average(1);
    assert_eq!(daily.switches, 1);
    assert!(daily.seconds >= 3600 && daily.seconds < 3700);
}

#[test]
fn the_whole_calendar_can_be_used() {
    let first = Timestamp { secs: -8_334_601_228_800, nanos: 0 };
    let last = Timestamp { secs: 8_210_266_876_799, nanos: 999_999_999 };
    let mut state = MonitorState::new();
    state.add_event_at(1, first);
    state.add_event_at(2, last);
    assert_eq!(state.get_total_duration(1), 16_544_868_105_599_999);
    state.add_event_at(1, first);
    assert_eq!(state.get_total_duration(2), -16_544_868_105_599_999);
}

#[test]
fn forgetting_changes_no_average_and_hides_no_oscillation() {
    let day = 24 * 60 * 60;
    let old = [(1, 0), (2, 5), (3, 10)];
    let new = [(1, day + 100), (2, day + 110), (1, day + 120), (2, day + 130), (1, day + 140)];
    let mut state = recorded(&old);
    for (hwnd, secs) in new {
        state.add_event_at(hwnd, at(secs));
    }
    assert_eq!(state.history.len(), 5);
    let mut whole = recorded(&old);
    for (hwnd, secs) in new {
        whole.history.push_back(SwitchEvent { hwnd, timestamp: at(secs) });
    }
    assert_eq!(whole.history.len(), 8);
    let now = at(day + 150);
    for minutes in [1, 5, 1440] {
        assert_eq!(
            state.calculate_frequency_at(1, minutes, now),
            whole.calculate_frequency_at(1, minutes, now)
        );
    }
    assert_eq!(
        state.calculate_frequency_at(1, 1440, now),
        Frequency { switches: 3, seconds: 86_400 }
    );
    assert_eq!(state.check_oscillation_at(1, now), Some((1, 2)));
    assert_eq!(whole.check_oscillation_at(1, now), Some((1, 2)));
}

#[test]
fn there_is_room_while_the_clock_advances() {
    let mut state = MonitorState::new();
    for i in 0..2_000 {
        state.add_event_at(i as isize % 3, at(i * 4_000_000_000));
        assert!(state.can_add_event());
    }
    for event in &state.history {
        assert!(state.daily_stats.contains_key(&event.hwnd));
    }
}

#[test]
fn a_huge_window_is_cut_to_the_time_known() {
    let state = recorded(&[(1, 100), (2, 101)]);
    assert_eq!(
        state.calculate_frequency_at(1, i64::MAX, at(110)),
        Frequency { switches: 1, seconds: 10 }
    );
    assert_eq!(
        state.calculate_frequency_at(1, i64::MIN, at(110)),
        Frequency { switches: 0, seconds: 60 }
    );
}
