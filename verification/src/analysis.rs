//! What is reported when a window comes to the front.

use crate::model::{
    pattern_text, FrequencyModel, MonitorModel, DAILY_MINUTES, SHORT_TERM_MINUTES,
};
use crate::state::{Frequency, MonitorState};
use crate::system::clock_showed;
use crate::time::Timestamp;
use crate::utils::{signed_decimal, to_signed_decimal};
use vstd::prelude::*;
use vstd::string::StringExecFns;

verus! {

/// More switches per minute than this over the last day are critical.
pub const DAILY_THRESHOLD: u32 = 20;

/// More switches per minute than this over the last five minutes are a burst.
pub const SHORT_TERM_THRESHOLD: u32 = 15;

/// A window is switched to too often.
#[derive(Clone, Copy, Debug, PartialEq, Eq, Structural)]
pub enum Alert {
    /// Critical: over the last day.
    DailyLimitExceeded,
    /// A warning: over the last five minutes.
    ShortTermBurst,
}

/// What there is to report of a window that came to the front.
pub struct Report {
    /// The two windows of an oscillation, if there is one.
    pub oscillation: Option<(isize, isize)>,
    pub alert: Option<Alert>,
    pub short_term_average: Frequency,
    pub daily_average: Frequency,
    pub total_duration_ms: i64,
    pub pattern: String,
}

/// A report in mathematical terms.
pub struct ReportModel {
    pub oscillation: Option<(isize, isize)>,
    pub alert: Option<Alert>,
    pub short_term_average: FrequencyModel,
    pub daily_average: FrequencyModel,
    pub total_duration_ms: int,
    pub pattern: Seq<char>,
}

impl View for Report {
    type V = ReportModel;

    open spec fn view(&self) -> ReportModel {
        ReportModel {
            oscillation: self.oscillation,
            alert: self.alert,
            short_term_average: self.short_term_average@,
            daily_average: self.daily_average@,
            total_duration_ms: self.total_duration_ms as int,
            pattern: self.pattern@,
        }
    }
}

/// What the clock showed at each step of an analysis.
#[derive(Clone, Copy, Debug, PartialEq, Eq, Structural)]
pub struct Readings {
    /// When the switch was recorded.
    pub added: Timestamp,
    /// When oscillation was looked for.
    pub oscillation: Timestamp,
    /// When the short-term average was taken.
    pub short_term: Timestamp,
    /// When the daily average was taken.
    pub daily: Timestamp,
    /// When the pattern was told.
    pub pattern: Timestamp,
}

impl Readings {
    /// All of them are valid.
    pub open spec fn valid(self) -> bool {
        &&& self.added.valid()
        &&& self.oscillation.valid()
        &&& self.short_term.valid()
        &&& self.daily.valid()
        &&& self.pattern.valid()
    }

    /// All of them are times that the clock has shown.
    pub open spec fn are_readings(self) -> bool {
        &&& self.added.is_reading() && clock_showed(self.added)
        &&& self.oscillation.is_reading() && clock_showed(self.oscillation)
        &&& self.short_term.is_reading() && clock_showed(self.short_term)
        &&& self.daily.is_reading() && clock_showed(self.daily)
        &&& self.pattern.is_reading() && clock_showed(self.pattern)
    }
}

/// The alert that two averages call for; the daily limit comes first.
pub open spec fn alert_for(daily: FrequencyModel, short_term: FrequencyModel) -> Option<Alert> {
    if daily.exceeds(DAILY_THRESHOLD as int) {
        Some(Alert::DailyLimitExceeded)
    } else if short_term.exceeds(SHORT_TERM_THRESHOLD as int) {
        Some(Alert::ShortTermBurst)
    } else {
        None
    }
}

/// The report on `hwnd` once its switch has led to the state `m`.
pub open spec fn report_on(m: MonitorModel, hwnd: isize, readings: Readings) -> ReportModel {
    let short_term = m.frequency(hwnd, SHORT_TERM_MINUTES as int, readings.short_term);
    let daily = m.frequency(hwnd, DAILY_MINUTES as int, readings.daily);
    ReportModel {
        oscillation: m.oscillation(hwnd, readings.oscillation),
        alert: alert_for(daily, short_term),
        short_term_average: short_term,
        daily_average: daily,
        total_duration_ms: m.total(hwnd),
        pattern: pattern_text(m.pattern(hwnd, readings.pattern)),
    }
}

/// The alert that two averages call for. A burst is only reported while the
/// daily limit is kept.
pub fn choose_alert(daily: Frequency, short_term: Frequency) -> (alert: Option<Alert>)
    ensures
        alert == alert_for(daily@, short_term@),
{
    if daily.exceeds(DAILY_THRESHOLD) {
        Some(Alert::DailyLimitExceeded)
    } else if short_term.exceeds(SHORT_TERM_THRESHOLD) {
        Some(Alert::ShortTermBurst)
    } else {
        None
    }
}

impl Report {
    /// The report that these findings make, with the alert that they call for.
    fn new(
        oscillation: Option<(isize, isize)>,
        short_term_average: Frequency,
        daily_average: Frequency,
        total_duration_ms: i64,
        pattern: String,
    ) -> (report: Report)
        ensures
            report == (Report {
                oscillation,
                alert: alert_for(daily_average@, short_term_average@),
                short_term_average,
                daily_average,
                total_duration_ms,
                pattern,
            }),
    {
        let alert = choose_alert(daily_average, short_term_average);
        Report {
            oscillation,
            alert,
            short_term_average,
            daily_average,
            total_duration_ms,
            pattern,
        }
    }
}

/// Records that `hwnd_val` came to the front, and reports on it, with the
/// clock showing `readings`.
pub fn analyze_behavior_at(state: &mut MonitorState, hwnd_val: isize, readings: Readings) -> (report:
    Report)
    requires
        old(state)@.wf(),
        readings.valid(),
        old(state)@.credit_fits(readings.added),
    ensures
        final(state)@ == old(state)@.after_event(hwnd_val, readings.added),
        final(state)@.wf(),
        report@ == report_on(final(state)@, hwnd_val, readings),
{
    state.add_event_at(hwnd_val, readings.added);
    let oscillation = state.check_oscillation_at(hwnd_val, readings.oscillation);
    let short_term_average = state.calculate_frequency_at(
        hwnd_val,
        SHORT_TERM_MINUTES,
        readings.short_term,
    );
    let daily_average = state.calculate_frequency_at(hwnd_val, DAILY_MINUTES, readings.daily);
    let total_duration_ms = state.get_total_duration(hwnd_val);
    let pattern = state.identify_pattern_at(hwnd_val, readings.pattern);
    Report::new(oscillation, short_term_average, daily_average, total_duration_ms, pattern)
}

/// Records that `hwnd_val` came to the front just now, and reports on it.
pub fn analyze_behavior(state: &mut MonitorState, hwnd_val: isize) -> (report: Report)
    requires
        old(state)@.wf(),
        old(state)@.has_room(),
    ensures
        exists|readings: Readings|
            {
                &&& readings.are_readings()
                &&& final(state)@ == old(state)@.after_event(hwnd_val, readings.added)
                &&& report@ == #[trigger] report_on(final(state)@, hwnd_val, readings)
            },
        final(state)@.wf(),
{
    state.add_event(hwnd_val);
    let oscillation = state.check_oscillation(hwnd_val);
    let short_term_average = state.get_short_term_average(hwnd_val);
    let daily_average = state.get_daily_average(hwnd_val);
    let total_duration_ms = state.get_total_duration(hwnd_val);
    let pattern = state.identify_pattern(hwnd_val);
    let report = Report::new(
        oscillation,
        short_term_average,
        daily_average,
        total_duration_ms,
        pattern,
    );
    proof {
        let m = state@;
        let readings = Readings {
            added: choose|now: Timestamp|
                now.is_reading() && clock_showed(now) && m == #[trigger] old(state)@.after_event(hwnd_val, now),
            oscillation: choose|now: Timestamp|
                now.is_reading() && clock_showed(now) && oscillation == #[trigger] m.oscillation(hwnd_val, now),
            short_term: choose|now: Timestamp|
                now.is_reading() && clock_showed(now) && short_term_average@ == #[trigger] m.frequency(
                    hwnd_val,
                    SHORT_TERM_MINUTES as int,
                    now,
                ),
            daily: choose|now: Timestamp|
                now.is_reading() && clock_showed(now) && daily_average@ == #[trigger] m.frequency(
                    hwnd_val,
                    DAILY_MINUTES as int,
                    now,
                ),
            pattern: choose|now: Timestamp|
                now.is_reading() && clock_showed(now) && pattern@ == pattern_text(#[trigger] m.pattern(hwnd_val, now)),
        };
        assert(report@ == report_on(m, hwnd_val, readings));
    }
    report
}

/// An average as switches per minute, rounded to one and to two decimals.
pub struct AverageText {
    pub one_decimal: String,
    pub two_decimals: String,
}

/// The lines on an oscillation between two windows.
pub open spec fn oscillation_lines(window_a: Seq<char>, window_b: Seq<char>) -> Seq<Seq<char>> {
    seq![
        ">>> [ALERT] Oscillation Detected! Rapid switching (A-B-A-B) in 60s."@,
        "    Window A: "@ + window_a,
        "    Window B: "@ + window_b,
    ]
}

/// The line on an alert.
pub open spec fn alert_line(
    alert: Alert,
    process_name: Seq<char>,
    daily: AverageText,
    short_term: AverageText,
) -> Seq<char> {
    match alert {
        Alert::DailyLimitExceeded => ">>> [CRITICAL] Daily Limit Exceeded for ["@ + process_name
            + "]: "@ + daily.one_decimal@ + " avg/min (Threshold: 20.0, Window: 24h)"@,
        Alert::ShortTermBurst => ">>> [WARN] Short-term Burst for ["@ + process_name + "]: "@
            + short_term.one_decimal@ + " avg/min (Threshold: 15.0, Window: 5m)"@,
    }
}

/// The line that sums a report up.
pub open spec fn summary_line(
    report: ReportModel,
    process_name: Seq<char>,
    input_source: Seq<char>,
    daily: AverageText,
    short_term: AverageText,
) -> Seq<char> {
    "Process: "@ + process_name + ", Source: ["@ + input_source + "], Pattern: ["@ + report.pattern
        + "], Daily Avg: "@ + daily.two_decimals@ + ", Short Avg: "@ + short_term.two_decimals@
        + ", Total Time: "@ + signed_decimal(report.total_duration_ms) + " ms"@
}

/// The lines of a report: on the oscillation and on the alert, if there are
/// any, and the summary in any case.
pub open spec fn lines_of(
    report: ReportModel,
    window_a: Seq<char>,
    window_b: Seq<char>,
    process_name: Seq<char>,
    input_source: Seq<char>,
    daily: AverageText,
    short_term: AverageText,
) -> Seq<Seq<char>> {
    let oscillation = if report.oscillation is Some {
        oscillation_lines(window_a, window_b)
    } else {
        Seq::empty()
    };
    let alert = match report.alert {
        Some(alert) => seq![alert_line(alert, process_name, daily, short_term)],
        None => Seq::empty(),
    };
    oscillation + alert + seq![
        summary_line(report, process_name, input_source, daily, short_term),
    ]
}

/// The lines of a report. `window_a` and `window_b` describe the windows of
/// the oscillation, and are not looked at if there is none.
pub fn report_lines(
    report: &Report,
    window_a: &str,
    window_b: &str,
    process_name: &str,
    input_source: &str,
    daily: &AverageText,
    short_term: &AverageText,
) -> (lines: Vec<String>)
    ensures
        lines.deep_view() == lines_of(
            report@,
            window_a@,
            window_b@,
            process_name@,
            input_source@,
            *daily,
            *short_term,
        ),
{
    let mut lines: Vec<String> = Vec::new();
    let ghost mut expected: Seq<Seq<char>> = Seq::empty();
    if report.oscillation.is_some() {
        lines.push(
            ">>> [ALERT] Oscillation Detected! Rapid switching (A-B-A-B) in 60s.".to_string(),
        );
        let mut line_a = "    Window A: ".to_string();
        line_a.append(window_a);
        lines.push(line_a);
        let mut line_b = "    Window B: ".to_string();
        line_b.append(window_b);
        lines.push(line_b);
        proof {
            expected = oscillation_lines(window_a@, window_b@);
        }
    }
    assert(lines.deep_view() =~= expected);
    if let Some(alert) = report.alert {
        let mut line = String::new();
        match alert {
            Alert::DailyLimitExceeded => {
                line.append(">>> [CRITICAL] Daily Limit Exceeded for [");
                line.append(process_name);
                line.append("]: ");
                line.append(daily.one_decimal.as_str());
                line.append(" avg/min (Threshold: 20.0, Window: 24h)");
            },
            Alert::ShortTermBurst => {
                line.append(">>> [WARN] Short-term Burst for [");
                line.append(process_name);
                line.append("]: ");
                line.append(short_term.one_decimal.as_str());
                line.append(" avg/min (Threshold: 15.0, Window: 5m)");
            },
        }
        assert(line@ =~= alert_line(alert, process_name@, *daily, *short_term));
        lines.push(line);
        proof {
            expected = expected + seq![alert_line(alert, process_name@, *daily, *short_term)];
        }
    }
    assert(lines.deep_view() =~= expected);
    let mut summary = "Process: ".to_string();
    summary.append(process_name);
    summary.append(", Source: [");
    summary.append(input_source);
    summary.append("], Pattern: [");
    summary.append(report.pattern.as_str());
    summary.append("], Daily Avg: ");
    summary.append(daily.two_decimals.as_str());
    summary.append(", Short Avg: ");
    summary.append(short_term.two_decimals.as_str());
    summary.append(", Total Time: ");
    summary.append(to_signed_decimal(report.total_duration_ms).as_str());
    summary.append(" ms");
    lines.push(summary);
    assert(lines.deep_view() =~= expected + seq![
        summary_line(report@, process_name@, input_source@, *daily, *short_term),
    ]);
    assert(lines.deep_view() =~= lines_of(
        report@,
        window_a@,
        window_b@,
        process_name@,
        input_source@,
        *daily,
        *short_term,
    ));
    lines
}

} // verus!
