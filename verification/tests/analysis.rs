use window_monitor::analysis::{
    analyze_behavior, analyze_behavior_at, choose_alert, report_lines, Alert, AverageText, Readings,
};
use window_monitor::state::{Frequency, MonitorState};
use window_monitor::time::Timestamp;

fn at(secs: i64) -> Timestamp {
    Timestamp { secs, nanos: 0 }
}

fn all_at(secs: i64) -> Readings {
    Readings {
        added: at(secs),
        oscillation: at(secs),
        short_term: at(secs),
        daily: at(secs),
        pattern: at(secs),
    }
}

fn average(one: &str, two: &str) -> AverageText {
    AverageText { one_decimal: one.to_string(), two_decimals: two.to_string() }
}

#[test]
fn daily_limit_comes_first() {
    let high = Frequency { switches: 100, seconds: 60 };
    let low = Frequency { switches: 1, seconds: 60 };
    assert_eq!(choose_alert(high, high), Some(Alert::DailyLimitExceeded));
    assert_eq!(choose_alert(high, low), Some(Alert::DailyLimitExceeded));
    assert_eq!(choose_alert(low, high), Some(Alert::ShortTermBurst));
    assert_eq!(choose_alert(low, low), None);
}

#[test]
fn thresholds_are_exceeded_strictly() {
    let at_20 = Frequency { switches: 20, seconds: 60 };
    let at_21 = Frequency { switches: 21, seconds: 60 };
    let at_15 = Frequency { switches: 15, seconds: 60 };
    let at_16 = Frequency { switches: 16, seconds: 60 };
    assert_eq!(choose_alert(at_20, at_15), None);
    assert_eq!(choose_alert(at_21, at_15), Some(Alert::DailyLimitExceeded));
    assert_eq!(choose_alert(at_20, at_16), Some(Alert::ShortTermBurst));
}

#[test]
fn a_new_window_raises_no_alert() {
    let mut state = MonitorState::new();
    for secs in 0..6 {
        let report = analyze_behavior_at(&mut state, 1, all_at(1000 + secs));
        assert_eq!(report.alert, None);
        assert_eq!(report.daily_average, Frequency { switches: 0, seconds: 60 });
    }
    // Six seconds after it was first seen: seven switches.
    let report = analyze_behavior_at(&mut state, 1, all_at(1006));
    assert_eq!(report.daily_average, Frequency { switches: 7, seconds: 6 });
    assert_eq!(report.alert, Some(Alert::DailyLimitExceeded));
}

#[test]
fn each_step_has_its_own_reading() {
    let mut state = MonitorState::new();
    state.add_event_at(1, at(100));
    state.add_event_at(2, at(101));
    state.add_event_at(1, at(102));
    state.add_event_at(2, at(103));
    let readings = Readings {
        added: at(110),
        oscillation: at(160),
        short_term: at(111),
        daily: at(400),
        pattern: at(161),
    };
    let report = analyze_behavior_at(&mut state, 1, readings);
    assert_eq!(report.oscillation, Some((1, 2)));
    assert_eq!(report.pattern, "Oscillation (A-B-A-B)");
    assert_eq!(report.short_term_average, Frequency { switches: 3, seconds: 11 });
    assert_eq!(report.daily_average, Frequency { switches: 3, seconds: 300 });
    assert_eq!(report.alert, Some(Alert::ShortTermBurst));
    assert_eq!(report.total_duration_ms, 2_000);
    assert_eq!(state.get_total_duration(2), 1_000 + 7_000);
}

#[test]
fn analysis_reads_the_clock() {
    let mut state = MonitorState::new();
    let report = analyze_behavior(&mut state, 42);
    assert_eq!(state.last_active_hwnd, Some(42));
    assert_eq!(state.history.len(), 1);
    assert_eq!(report.oscillation, None);
    assert_eq!(report.alert, None);
    assert_eq!(report.pattern, "Gathering Data...");
    assert_eq!(report.total_duration_ms, 0);
}

#[test]
fn quiet_report_is_one_line() {
    let mut state = MonitorState::new();
    let report = analyze_behavior_at(&mut state, 1, all_at(100));
    let zero = average("0.0", "0.00");
    let lines = report_lines(&report, "", "", "a.exe", "Mouse Click", &zero, &zero);
    assert_eq!(
        lines,
        vec![
            "Process: a.exe, Source: [Mouse Click], Pattern: [Gathering Data...], \
             Daily Avg: 0.00, Short Avg: 0.00, Total Time: 0 ms"
        ]
    );
}

#[test]
fn alerts_are_reported_before_the_summary() {
    let mut state = MonitorState::new();
    for (hwnd, secs) in [(1, 100), (2, 101), (1, 102), (2, 103)] {
        state.add_event_at(hwnd, at(secs));
    }
    let mut report = analyze_behavior_at(&mut state, 1, all_at(110));
    assert_eq!(report.alert, Some(Alert::ShortTermBurst));
    report.alert = Some(Alert::DailyLimitExceeded);
    report.total_duration_ms = -1_234_567_890;
    let daily = average("30.0", "30.00");
    let short_term = average("16.4", "16.36");
    let lines = report_lines(&report, "A!", "B!", "a.exe", "Ready", &daily, &short_term);
    assert_eq!(
        lines,
        vec![
            ">>> [ALERT] Oscillation Detected! Rapid switching (A-B-A-B) in 60s.",
            "    Window A: A!",
            "    Window B: B!",
            ">>> [CRITICAL] Daily Limit Exceeded for [a.exe]: 30.0 avg/min (Threshold: 20.0, Window: 24h)",
            "Process: a.exe, Source: [Ready], Pattern: [Oscillation (A-B-A-B)], Daily Avg: 30.00, \
             Short Avg: 16.36, Total Time: -1234567890 ms",
        ]
    );
    report.alert = Some(Alert::ShortTermBurst);
    report.total_duration_ms = i64::MIN;
    let lines = report_lines(&report, "A!", "B!", "a.exe", "Ready", &daily, &short_term);
    assert_eq!(
        lines[3],
        ">>> [WARN] Short-term Burst for [a.exe]: 16.4 avg/min (Threshold: 15.0, Window: 5m)"
    );
    assert!(lines[4].ends_with("Total Time: -9223372036854775808 ms"));
}
