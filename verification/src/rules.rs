//! What each operation does, in terms of switches, instants, handles, numbers
//! and characters alone.

use crate::analysis::{
    alert_for, lines_of, report_on, Alert, AverageText, Readings, ReportModel,
};
use crate::hooks::{
    header_lines, in_front, is_foreground_event, is_switch, low_half, low_word, source_text,
    InputEvent, HC_ACTION, VK_TAB, WM_LBUTTONDOWN, WM_SYSKEYDOWN,
};
use crate::laws::{chronological, law_forgetting_hides_no_oscillation, run};
use crate::model::{
    drop_expired, is_expired, latest, pattern_text, switch_count, window_set, FrequencyModel,
    MonitorModel,
};
use crate::state::{Frequency, MonitorState, SwitchEvent};
use crate::system::gave_file_name;
use crate::time::Timestamp;
use crate::utils::{
    buffer_text, decimal, is_process_name, may_be_file_name, shown_name, signed_decimal,
    utf16_text, window_line, ProcessImage,
};
use vstd::prelude::*;

verus! {

/// How old a switch is at `now`, in nanoseconds.
pub open spec fn age(event: SwitchEvent, now: Timestamp) -> int {
    now.instant() - event.timestamp.instant()
}

/// A monitor's model is what its fields hold.
pub proof fn law_model_is_the_fields(state: MonitorState, hwnd: isize)
    ensures
        state@.history == state.history@,
        state@.last_switch_time == state.last_switch_time,
        state@.last_active_hwnd == state.last_active_hwnd,
        state@.daily_stats.contains_key(hwnd) <==> state.daily_stats@.contains_key(hwnd),
        state.daily_stats@.contains_key(hwnd) ==> {
            let stats = state.daily_stats@[hwnd];
            &&& state@.daily_stats[hwnd].first_seen == stats.first_seen
            &&& state@.daily_stats[hwnd].total_ms == stats.total_duration_ms
            &&& state@.total(hwnd) == stats.total_duration_ms
        },
        !state.daily_stats@.contains_key(hwnd) ==> state@.total(hwnd) == 0,
{
}

/// A frequency's model is what its fields hold.
pub proof fn law_frequency_is_the_fields(frequency: Frequency)
    ensures
        frequency@.switches == frequency.switches,
        frequency@.seconds == frequency.seconds,
{
}

/// At first nothing is recorded, no window is known and none was in front.
pub proof fn law_nothing_at_first(hwnd: isize)
    ensures
        MonitorModel::initial().history.len() == 0,
        !MonitorModel::initial().daily_stats.contains_key(hwnd),
        MonitorModel::initial().last_switch_time is None,
        MonitorModel::initial().last_active_hwnd is None,
{
}

/// A timestamp is valid exactly if it lies in the calendar, and can be shown by
/// the clock exactly if it is not before the Unix epoch either.
pub proof fn law_valid_timestamps(t: Timestamp, readings: Readings)
    ensures
        t.valid() <==> in_calendar(t),
        t.is_reading() <==> in_calendar(t) && t.secs >= 0,
        readings.valid() <==> in_calendar(readings.added) && in_calendar(readings.oscillation)
            && in_calendar(readings.short_term) && in_calendar(readings.daily) && in_calendar(
            readings.pattern,
        ),
{
}

/// A state is well-formed exactly if each timestamp in it lies in the calendar
/// and outside leap seconds.
pub proof fn law_well_formed(m: MonitorModel)
    ensures
        m.wf() <==> {
            &&& forall|i: int|
                0 <= i < m.history.len() ==> in_calendar((#[trigger] m.history[i]).timestamp)
            &&& forall|w: isize| #[trigger]
                m.daily_stats.contains_key(w) ==> in_calendar(m.daily_stats[w].first_seen)
            &&& m.last_switch_time is Some ==> in_calendar(m.last_switch_time->0)
        },
{
    if m.wf() {
        assert forall|i: int| 0 <= i < m.history.len() implies in_calendar(
            (#[trigger] m.history[i]).timestamp,
        ) by {
            assert(m.history[i].timestamp.valid());
        }
    } else {
        if forall|i: int|
            0 <= i < m.history.len() ==> in_calendar((#[trigger] m.history[i]).timestamp) {
            assert forall|i: int| 0 <= i < m.history.len() implies (
            #[trigger] m.history[i]).timestamp.valid() by {
                assert(in_calendar(m.history[i].timestamp));
            }
        }
    }
}

/// Between the first and the last second of the calendar, less than a second
/// into it.
pub open spec fn in_calendar(t: Timestamp) -> bool {
    &&& -8_334_601_228_800 <= t.secs <= 8_210_266_876_799
    &&& 0 <= t.nanos <= 999_999_999
}

/// These five switches go back and forth between `a` and `b`, ending with `a`,
/// and none is more than sixty seconds old.
pub open spec fn goes_back_and_forth(
    five: Seq<SwitchEvent>,
    a: isize,
    b: isize,
    now: Timestamp,
) -> bool {
    &&& five.len() == 5
    &&& five.map_values(|e: SwitchEvent| e.hwnd) == seq![a, b, a, b, a]
    &&& a != b
    &&& forall|i: int| 0 <= i < 5 ==> age(#[trigger] five[i], now) <= 60_000_000_000
}

/// An oscillation between `a` and `b` is found exactly if the last five
/// switches go back and forth between them and `a` is the window asked about.
pub proof fn law_oscillation_exactly(
    m: MonitorModel,
    hwnd: isize,
    now: Timestamp,
    a: isize,
    b: isize,
)
    ensures
        m.oscillation(hwnd, now) == Some((a, b)) <==> {
            &&& a == hwnd
            &&& m.history.len() >= 5
            &&& goes_back_and_forth(m.history.skip(m.history.len() - 5), a, b, now)
        },
{
    let h = m.history;
    let n = h.len() as int;
    if n >= 5 {
        let five = h.skip(n - 5);
        let handles = five.map_values(|e: SwitchEvent| e.hwnd);
        assert(five[0] == h[n - 5] && five[1] == h[n - 4] && five[2] == h[n - 3] && five[3] == h[n
            - 2] && five[4] == h[n - 1]);
        assert(handles[0] == five[0].hwnd && handles[1] == five[1].hwnd && handles[2]
            == five[2].hwnd && handles[3] == five[3].hwnd && handles[4] == five[4].hwnd);
        let wanted = seq![a, b, a, b, a];
        assert(wanted[0] == a && wanted[1] == b && wanted[2] == a && wanted[3] == b && wanted[4]
            == a);
        if m.oscillation(hwnd, now) == Some((a, b)) {
            assert(handles =~= wanted);
            assert forall|i: int| 0 <= i < 5 implies age(#[trigger] five[i], now)
                <= 60_000_000_000 by {
                assert(five[i] == h[n - 5 + i]);
            }
        }
        if a == hwnd && goes_back_and_forth(five, a, b, now) {
            assert forall|i: int| n - 5 <= i < n implies crate::model::is_recent(
                #[trigger] h[i],
                now,
            ) by {
                assert(five[i - (n - 5)] == h[i]);
            }
        }
    }
}

/// What is found to be an oscillation after any course of switches is one: the
/// last five of the course go back and forth between the two windows.
pub proof fn law_found_oscillation_is_real(
    events: Seq<SwitchEvent>,
    hwnd: isize,
    now: Timestamp,
    a: isize,
    b: isize,
)
    requires
        run(events).oscillation(hwnd, now) == Some((a, b)),
    ensures
        a == hwnd,
        events.len() >= 5,
        goes_back_and_forth(events.skip(events.len() - 5), a, b, now),
{
    lemma_run_is_suffix(events);
    law_oscillation_exactly(run(events), hwnd, now, a, b);
    let h = run(events).history;
    assert(events.skip(events.len() - 5) =~= h.skip(h.len() - 5));
}

/// If the clock never went back, no oscillation is missed: one is found whenever
/// the last five switches of the course go back and forth.
pub proof fn law_real_oscillation_is_found(
    events: Seq<SwitchEvent>,
    now: Timestamp,
    a: isize,
    b: isize,
)
    requires
        chronological(events),
        events.len() >= 5,
        events.last().timestamp.instant() <= now.instant(),
        goes_back_and_forth(events.skip(events.len() - 5), a, b, now),
    ensures
        run(events).oscillation(a, now) == Some((a, b)),
{
    law_forgetting_hides_no_oscillation(events, a, now);
    law_oscillation_exactly(MonitorModel { history: events, ..run(events) }, a, now, a, b);
}

/// The history is the end of the course of switches.
proof fn lemma_run_is_suffix(events: Seq<SwitchEvent>)
    ensures
        run(events).history.len() <= events.len(),
        run(events).history == events.skip(events.len() - run(events).history.len()),
    decreases events.len(),
{
    if events.len() == 0 {
        assert(events.skip(0) =~= run(events).history);
    } else {
        let before = events.drop_last();
        let m = run(before);
        let event = events.last();
        lemma_run_is_suffix(before);
        law_history_after_a_switch(m, event.hwnd, event.timestamp);
        let pushed = m.history.push(event);
        let after = run(events).history;
        let k = pushed.len() - after.len();
        assert(after =~= events.skip(events.len() - after.len())) by {
            assert forall|i: int| 0 <= i < after.len() implies after[i] == events.skip(
                events.len() - after.len(),
            )[i] by {
                assert(after[i] == pushed[k + i]);
                if k + i < m.history.len() {
                    assert(m.history[k + i] == before.skip(before.len() - m.history.len())[k + i]);
                }
            }
        }
    }
}

/// A switch is put at the end of the history. Then switches leave from the
/// front, exactly those before the first one that is less than a day old.
pub proof fn law_history_after_a_switch(m: MonitorModel, hwnd: isize, now: Timestamp)
    ensures
        ({
            let before = m.history.push(SwitchEvent { hwnd, timestamp: now });
            let after = m.after_event(hwnd, now).history;
            let gone = before.len() - after.len();
            &&& 0 < after.len() <= before.len()
            &&& after == before.skip(gone)
            &&& forall|i: int|
                0 <= i < gone ==> age(#[trigger] before[i], now) >= 86_400_000_000_000
            &&& age(before[gone], now) < 86_400_000_000_000
        }),
{
    let before = m.history.push(SwitchEvent { hwnd, timestamp: now });
    assert(before.last().timestamp == now);
    lemma_drop(before, now);
}

/// Dropping from the front, by age alone.
proof fn lemma_drop(history: Seq<SwitchEvent>, now: Timestamp)
    requires
        history.len() > 0,
        history.last().timestamp == now,
    ensures
        ({
            let after = drop_expired(history, now);
            let gone = history.len() - after.len();
            &&& 0 < after.len() <= history.len()
            &&& after == history.skip(gone)
            &&& forall|i: int|
                0 <= i < gone ==> age(#[trigger] history[i], now) >= 86_400_000_000_000
            &&& age(history[gone], now) < 86_400_000_000_000
        }),
    decreases history.len(),
{
    if is_expired(history[0], now) {
        let rest = history.drop_first();
        assert(history.len() > 1);
        assert(rest.last() == history.last());
        lemma_drop(rest, now);
        let after = drop_expired(rest, now);
        let gone = rest.len() - after.len();
        assert(rest.skip(gone) =~= history.skip(gone + 1));
        assert forall|i: int| 0 <= i < gone + 1 implies age(#[trigger] history[i], now)
            >= 86_400_000_000_000 by {
            if i > 0 {
                assert(rest[i - 1] == history[i]);
            }
        }
        assert(rest[gone] == history[gone + 1]);
    } else {
        assert(history.skip(0) =~= history);
    }
}

/// The whole milliseconds from one instant to another, the fraction dropped.
pub open spec fn is_whole_ms(ms: int, from: Timestamp, to: Timestamp) -> bool {
    let ns = to.instant() - from.instant();
    if ns >= 0 {
        ms * 1_000_000 <= ns < (ms + 1) * 1_000_000
    } else {
        (ms - 1) * 1_000_000 < ns <= ms * 1_000_000
    }
}

/// What a switch to `hwnd` changes in what is known of any window `w`: the
/// window that was in front gains the time since the last switch, a window not
/// known before starts with its first switch, and all else stays.
pub proof fn law_stats_after_a_switch(m: MonitorModel, hwnd: isize, now: Timestamp, w: isize)
    ensures
        ({
            let next = m.after_event(hwnd, now);
            let was_in_front = m.last_switch_time is Some && m.last_active_hwnd == Some(w);
            let gain = next.total(w) - m.total(w);
            &&& next.last_switch_time == Some(now)
            &&& next.last_active_hwnd == Some(hwnd)
            &&& next.daily_stats.contains_key(w) <==> m.daily_stats.contains_key(w) || w == hwnd
                || was_in_front
            &&& was_in_front ==> is_whole_ms(gain, m.last_switch_time->0, now)
            &&& !was_in_front ==> gain == 0
            &&& next.daily_stats.contains_key(w) ==> {
                let first_seen = next.daily_stats[w].first_seen;
                &&& next.total(w) == next.daily_stats[w].total_ms
                &&& m.daily_stats.contains_key(w) ==> first_seen == m.daily_stats[w].first_seen
                &&& !m.daily_stats.contains_key(w) && was_in_front ==> first_seen
                    == m.last_switch_time->0
                &&& !m.daily_stats.contains_key(w) && !was_in_front ==> first_seen == now
            }
        }),
{
}

/// The next switch can be recorded exactly if the total of the window in front
/// stays an `i64` with what it gains, whatever the clock reads.
pub proof fn law_room_exactly(m: MonitorModel)
    ensures
        m.has_room() <==> (m.last_switch_time is Some && m.last_active_hwnd is Some ==> forall|
            now: Timestamp,
            ms: int,
        |
            #![trigger is_whole_ms(ms, m.last_switch_time->0, now)]
            in_calendar(now) && now.secs >= 0 && is_whole_ms(ms, m.last_switch_time->0, now)
                ==> -0x8000_0000_0000_0000 <= m.total(m.last_active_hwnd->0) + ms
                <= 0x7fff_ffff_ffff_ffff),
{
    if m.last_switch_time is Some && m.last_active_hwnd is Some {
        let last = m.last_switch_time->0;
        let total = m.total(m.last_active_hwnd->0);
        if m.has_room() {
            assert forall|now: Timestamp, ms: int|
                #![trigger is_whole_ms(ms, last, now)]
                in_calendar(now) && now.secs >= 0 && is_whole_ms(ms, last, now) implies
                -0x8000_0000_0000_0000 <= total + ms <= 0x7fff_ffff_ffff_ffff by {
                assert(now.is_reading());
                assert(m.credit_fits(now));
                assert(ms == crate::time::elapsed_ms(now, last));
            }
        }
        if forall|now: Timestamp, ms: int|
            #![trigger is_whole_ms(ms, last, now)]
            in_calendar(now) && now.secs >= 0 && is_whole_ms(ms, last, now)
                ==> -0x8000_0000_0000_0000 <= total + ms <= 0x7fff_ffff_ffff_ffff {
            assert forall|now: Timestamp| now.is_reading() implies #[trigger] m.credit_fits(
                now,
            ) by {
                assert(is_whole_ms(crate::time::elapsed_ms(now, last), last, now));
            }
        }
    }
}

/// A switch at `now` can be recorded exactly if the total of the window in front
/// stays an `i64` with what it gains.
pub proof fn law_credit_fits_exactly(m: MonitorModel, now: Timestamp, ms: int)
    requires
        m.last_switch_time is Some,
        m.last_active_hwnd is Some,
        is_whole_ms(ms, m.last_switch_time->0, now),
    ensures
        m.credit_fits(now) <==> -0x8000_0000_0000_0000 <= m.total(m.last_active_hwnd->0) + ms
            <= 0x7fff_ffff_ffff_ffff,
{
}

/// `i` is the place of one of the last ten switches.
pub open spec fn among_last_ten(history: Seq<SwitchEvent>, i: int) -> bool {
    0 <= i < history.len() && history.len() - 10 <= i
}

/// Two of the last ten switches went to different windows.
pub open spec fn two_among_last_ten(history: Seq<SwitchEvent>) -> bool {
    exists|i: int, j: int|
        among_last_ten(history, i) && among_last_ten(history, j) && (#[trigger] history[i]).hwnd
            != (#[trigger] history[j]).hwnd
}

/// Three of the last ten switches went to three different windows.
pub open spec fn three_among_last_ten(history: Seq<SwitchEvent>) -> bool {
    exists|i: int, j: int, k: int|
        among_last_ten(history, i) && among_last_ten(history, j) && among_last_ten(history, k) && (
        #[trigger] history[i]).hwnd != (#[trigger] history[j]).hwnd && history[i].hwnd != (
        #[trigger] history[k]).hwnd && history[j].hwnd != history[k].hwnd
}

/// The window set that the pattern is told from, in terms of places in the
/// history.
proof fn lemma_recent_windows(history: Seq<SwitchEvent>)
    ensures
        latest(history, 10).len() == (if history.len() < 10 {
            history.len() as int
        } else {
            10
        }),
        window_set(latest(history, 10)).len() >= 2 <==> two_among_last_ten(history),
        window_set(latest(history, 10)).len() >= 3 <==> three_among_last_ten(history),
{
    let recent = latest(history, 10);
    let k0 = history.len() - recent.len();
    let ws = window_set(recent);
    let hwnds = recent.map_values(|e: SwitchEvent| e.hwnd);
    assert forall|i: int| 0 <= i < recent.len() implies #[trigger] recent[i] == history[k0 + i] by {
    }
    assert forall|w: isize| #[trigger] ws.contains(w) implies exists|i: int|
        among_last_ten(history, i) && (#[trigger] history[i]).hwnd == w by {
        let i = hwnds.index_of(w);
        assert(hwnds[i] == w);
        assert(recent[i].hwnd == w);
        assert(history[k0 + i].hwnd == w);
    }
    assert forall|i: int| among_last_ten(history, i) implies ws.contains(
        (#[trigger] history[i]).hwnd,
    ) by {
        assert(recent[i - k0] == history[i]);
        assert(hwnds[i - k0] == history[i].hwnd);
    }
    if two_among_last_ten(history) {
        let (i, j) = choose|i: int, j: int|
            among_last_ten(history, i) && among_last_ten(history, j) && (
            #[trigger] history[i]).hwnd != (#[trigger] history[j]).hwnd;
        let rest = ws.remove(history[i].hwnd).remove(history[j].hwnd);
        assert(ws.len() == rest.len() + 2);
    }
    if three_among_last_ten(history) {
        let (i, j, k) = choose|i: int, j: int, k: int|
            among_last_ten(history, i) && among_last_ten(history, j) && among_last_ten(history, k)
                && (#[trigger] history[i]).hwnd != (#[trigger] history[j]).hwnd && history[i].hwnd
                != (#[trigger] history[k]).hwnd && history[j].hwnd != history[k].hwnd;
        let rest = ws.remove(history[i].hwnd).remove(history[j].hwnd).remove(history[k].hwnd);
        assert(ws.len() == rest.len() + 3);
    }
    if ws.len() >= 2 {
        let a = ws.choose();
        assert(ws.contains(a));
        let b = ws.remove(a).choose();
        assert(ws.remove(a).contains(b));
        assert(ws.contains(b));
        let i = choose|i: int| among_last_ten(history, i) && (#[trigger] history[i]).hwnd == a;
        let j = choose|j: int| among_last_ten(history, j) && (#[trigger] history[j]).hwnd == b;
        assert(history[i].hwnd != history[j].hwnd);
        if ws.len() >= 3 {
            let c = ws.remove(a).remove(b).choose();
            assert(ws.remove(a).remove(b).contains(c));
            assert(ws.contains(c));
            let k = choose|k: int| among_last_ten(history, k) && (#[trigger] history[k]).hwnd == c;
            assert(history[i].hwnd != history[k].hwnd && history[j].hwnd != history[k].hwnd);
        }
    }
}

/// The text for the pattern, from the last ten switches: none before the third
/// switch; oscillation if the last five go back and forth within a minute, or if
/// all ten go to two windows; random if three windows are among them; focused if
/// there is only one.
pub proof fn law_pattern_exactly(m: MonitorModel, hwnd: isize, now: Timestamp)
    ensures
        ({
            let h = m.history;
            let text = pattern_text(m.pattern(hwnd, now));
            let back_and_forth = h.len() >= 5 && exists|b: isize| #[trigger]
                goes_back_and_forth(h.skip(h.len() - 5), hwnd, b, now);
            &&& h.len() < 3 ==> text == "Gathering Data..."@
            &&& h.len() >= 3 && (back_and_forth || (two_among_last_ten(h)
                && !three_among_last_ten(h))) ==> text == "Oscillation (A-B-A-B)"@
            &&& h.len() >= 3 && !back_and_forth && three_among_last_ten(h) ==> text
                == "Random (Multitasking)"@
            &&& h.len() >= 3 && !two_among_last_ten(h) ==> text == "Focused (Single Window)"@
            &&& back_and_forth ==> two_among_last_ten(h)
        }),
{
    let h = m.history;
    let n = h.len() as int;
    lemma_recent_windows(h);
    if m.oscillates(hwnd, now) {
        let b = h[n - 2].hwnd;
        law_oscillation_exactly(m, hwnd, now, hwnd, b);
        assert(among_last_ten(h, n - 1) && among_last_ten(h, n - 2));
        assert(h[n - 1].hwnd != h[n - 2].hwnd);
    }
    if n >= 5 {
        assert forall|b: isize| #[trigger] goes_back_and_forth(
            h.skip(n - 5),
            hwnd,
            b,
            now,
        ) implies m.oscillates(hwnd, now) by {
            law_oscillation_exactly(m, hwnd, now, hwnd, b);
        }
    }
    if three_among_last_ten(h) {
        assert(two_among_last_ten(h));
    }
}

/// The pattern depends on the last ten switches alone: where these are the same,
/// so is the pattern, whatever went before.
pub proof fn law_pattern_depends_on_ten_switches(
    m1: MonitorModel,
    m2: MonitorModel,
    hwnd: isize,
    now: Timestamp,
)
    requires
        m1.history.len() >= 10,
        m2.history.len() >= 10,
        m1.history.skip(m1.history.len() - 10) == m2.history.skip(m2.history.len() - 10),
    ensures
        m1.pattern(hwnd, now) == m2.pattern(hwnd, now),
        pattern_text(m1.pattern(hwnd, now)) == pattern_text(m2.pattern(hwnd, now)),
        m1.oscillation(hwnd, now) == m2.oscillation(hwnd, now),
{
    let (h1, h2) = (m1.history, m2.history);
    let (n1, n2) = (h1.len() as int, h2.len() as int);
    let ten = h1.skip(n1 - 10);
    assert forall|i: int| n1 - 10 <= i < n1 implies #[trigger] h1[i] == h2[i - n1 + n2] by {
        assert(ten[i - (n1 - 10)] == h1[i]);
        assert(h2.skip(n2 - 10)[i - (n1 - 10)] == h2[i - n1 + n2]);
    }
    assert forall|i: int| n2 - 10 <= i < n2 implies #[trigger] h2[i] == h1[i - n2 + n1] by {
        assert(h2.skip(n2 - 10)[i - (n2 - 10)] == h2[i]);
        assert(ten[i - (n2 - 10)] == h1[i - n2 + n1]);
    }
    assert(m1.oscillates(hwnd, now) == m2.oscillates(hwnd, now)) by {
        if m1.oscillates(hwnd, now) {
            assert(m2.oscillates(hwnd, now));
        }
        if m2.oscillates(hwnd, now) {
            assert(m1.oscillates(hwnd, now));
        }
    }
    assert(latest(h1, 10) =~= ten);
    assert(latest(h2, 10) =~= ten);
    assert(h1[n1 - 2] == h2[n2 - 2]);
}

/// No switch is counted in an empty history.
pub proof fn law_nothing_to_count(hwnd: isize, minutes: int, now: Timestamp)
    ensures
        switch_count(Seq::empty(), hwnd, minutes, now) == 0,
{
    reveal_with_fuel(Seq::filter, 1);
}

/// One more switch counts, and counts once, exactly if it went to the window
/// asked about and is less than the minutes asked for old.
pub proof fn law_each_young_switch_counts_once(
    history: Seq<SwitchEvent>,
    event: SwitchEvent,
    hwnd: isize,
    minutes: int,
    now: Timestamp,
)
    requires
        minutes > 0,
    ensures
        switch_count(history.push(event), hwnd, minutes, now) == switch_count(
            history,
            hwnd,
            minutes,
            now,
        ) + (if event.hwnd == hwnd && age(event, now) < minutes * 60_000_000_000 {
            1int
        } else {
            0
        }),
{
    reveal_with_fuel(Seq::filter, 1);
    assert(history.push(event).drop_last() =~= history);
}

/// If all switches went to the window asked about and are young enough, all are
/// counted.
pub proof fn law_all_young_switches_count(
    history: Seq<SwitchEvent>,
    hwnd: isize,
    minutes: int,
    now: Timestamp,
)
    requires
        minutes > 0,
        forall|i: int|
            0 <= i < history.len() ==> (#[trigger] history[i]).hwnd == hwnd && age(history[i], now)
                < minutes * 60_000_000_000,
    ensures
        switch_count(history, hwnd, minutes, now) == history.len(),
    decreases history.len(),
{
    if history.len() == 0 {
        assert(history =~= Seq::empty());
        law_nothing_to_count(hwnd, minutes, now);
    } else {
        let before = history.drop_last();
        assert forall|i: int| 0 <= i < before.len() implies (#[trigger] before[i]).hwnd == hwnd
            && age(before[i], now) < minutes * 60_000_000_000 by {
            assert(before[i] == history[i]);
        }
        law_all_young_switches_count(before, hwnd, minutes, now);
        law_each_young_switch_counts_once(before, history.last(), hwnd, minutes, now);
        assert(before.push(history.last()) =~= history);
        assert(history[history.len() - 1].hwnd == hwnd);
    }
}

/// A frequency has the switches counted over the minutes asked for, and the
/// whole seconds since the window was first seen, but no more than those
/// minutes. Without a switch in a minute it stands for zero: if the window is
/// unknown, was first seen less than six seconds ago, or no time is asked for.
pub proof fn law_frequency_exactly(m: MonitorModel, hwnd: isize, minutes: int, now: Timestamp)
    ensures
        ({
            let f = m.frequency(hwnd, minutes, now);
            let known = m.daily_stats.contains_key(hwnd);
            let ns = now.instant() - m.daily_stats[hwnd].first_seen.instant();
            if known && minutes > 0 && ns >= 6_000_000_000 {
                &&& f.switches == switch_count(m.history, hwnd, minutes, now)
                &&& ns < minutes * 60_000_000_000 ==> f.seconds * 1_000_000_000 <= ns < (f.seconds
                    + 1) * 1_000_000_000
                &&& ns >= minutes * 60_000_000_000 ==> f.seconds == minutes * 60
            } else {
                f.switches == 0 && f.seconds == 60
            }
        }),
{
}

/// The alert is raised exactly at the thresholds: more than twenty switches per
/// minute over the day, or, if it is not that, more than fifteen over the short
/// term.
pub proof fn law_alert_exactly(daily: FrequencyModel, short_term: FrequencyModel)
    ensures
        alert_for(daily, short_term) == Some(Alert::DailyLimitExceeded) <==> daily.switches * 60
            > 20 * daily.seconds,
        alert_for(daily, short_term) == Some(Alert::ShortTermBurst) <==> daily.switches * 60 <= 20
            * daily.seconds && short_term.switches * 60 > 15 * short_term.seconds,
        alert_for(daily, short_term) is None <==> daily.switches * 60 <= 20 * daily.seconds
            && short_term.switches * 60 <= 15 * short_term.seconds,
{
}

/// A frequency exceeds a threshold exactly if there are more than that many
/// switches for each minute.
pub proof fn law_exceeds_exactly(frequency: FrequencyModel, threshold: int)
    ensures
        frequency.exceeds(threshold) <==> frequency.switches * 60 > threshold * frequency.seconds,
{
}

/// A report holds what each question gives at the reading taken for it, over
/// five minutes and over a day, and the alert that the two averages call for.
pub proof fn law_report_exactly(m: MonitorModel, hwnd: isize, readings: Readings)
    ensures
        ({
            let report = report_on(m, hwnd, readings);
            let (daily, short_term) = (report.daily_average, report.short_term_average);
            &&& report.oscillation == m.oscillation(hwnd, readings.oscillation)
            &&& short_term == m.frequency(hwnd, 5, readings.short_term)
            &&& daily == m.frequency(hwnd, 1440, readings.daily)
            &&& report.total_duration_ms == m.total(hwnd)
            &&& report.pattern == pattern_text(m.pattern(hwnd, readings.pattern))
            &&& report.alert == Some(Alert::DailyLimitExceeded) <==> daily.switches * 60 > 20
                * daily.seconds
            &&& report.alert == Some(Alert::ShortTermBurst) <==> daily.switches * 60 <= 20
                * daily.seconds && short_term.switches * 60 > 15 * short_term.seconds
        }),
{
}

/// The codes by which the system names its messages, keys and events.
pub proof fn law_codes_of_the_system(event: u32)
    ensures
        HC_ACTION == 0,
        WM_SYSKEYDOWN == 260,
        WM_LBUTTONDOWN == 513,
        VK_TAB == 9,
        is_foreground_event(event) <==> event == 3 || event == 23,
{
}

/// Only the low bits of a parameter and of a key count: adding a multiple of the
/// next power changes nothing, and a value below it stands for itself.
pub proof fn law_low_bits(w_param: usize, vk_code: u32)
    ensures
        0 <= low_word(w_param) < 4_294_967_296,
        (w_param - low_word(w_param)) % 4_294_967_296 == 0,
        0 <= low_half(vk_code) < 65_536,
        (vk_code - low_half(vk_code)) % 65_536 == 0,
{
}

/// A handle brings a switch exactly if it is not zero and not in front already;
/// it is in front then, unless it is zero.
pub proof fn law_switch_exactly(last: isize, hwnd: isize)
    ensures
        is_switch(last, hwnd) <==> hwnd != 0 && last != hwnd,
        hwnd != 0 ==> in_front(last, hwnd) == hwnd,
        in_front(last, 0) == last,
{
}

/// An input explains a switch for exactly less than a second; after that, and
/// without any input, the switch is put down to the keyboard.
pub proof fn law_input_source_exactly(event: InputEvent)
    ensures
        event.age_ms <= 999 ==> source_text(Some(event)) == event.source@,
        event.age_ms >= 1000 ==> source_text(Some(event)) == source_text(None),
        source_text(None) == "Keyboard (Shortcut/Other)"@,
{
}

/// The four lines of a header.
pub proof fn law_header_lines(
    time: Seq<char>,
    process_name: Seq<char>,
    process_id: u32,
    title: Seq<char>,
    class_name: Seq<char>,
)
    ensures
        ({
            let lines = header_lines(time, process_name, process_id, title, class_name);
            &&& lines.len() == 4
            &&& lines[0] == "--------------------------"@ + (time + "------------------------"@)
            &&& lines[1] == ("Process: "@ + process_name) + (" | PID: "@ + decimal(
                process_id as nat,
            ))
            &&& lines[2] == "Title:   "@ + title
            &&& lines[3] == "Class:   "@ + class_name
        }),
{
    let lines = header_lines(time, process_name, process_id, title, class_name);
    assert(lines[0] =~= "--------------------------"@ + (time + "------------------------"@));
    assert(lines[1] =~= ("Process: "@ + process_name) + (" | PID: "@ + decimal(process_id as nat)));
}

/// The line on a window shows its process, the number of the process and its
/// title, in this order.
pub proof fn law_window_line(process_name: Seq<char>, process_id: u32, title: Seq<char>)
    ensures
        window_line(process_name, process_id, title) == ("["@ + process_name + "] (PID: "@) + (
        decimal(process_id as nat) + ") - "@ + title),
{
    assert(window_line(process_name, process_id, title) =~= ("["@ + process_name + "] (PID: "@) + (
    decimal(process_id as nat) + ") - "@ + title));
}

/// A report has three lines on an oscillation, one on an alert, and one that
/// sums it up, in this order, each only if there is something to tell.
pub proof fn law_report_lines(
    report: ReportModel,
    window_a: Seq<char>,
    window_b: Seq<char>,
    process_name: Seq<char>,
    input_source: Seq<char>,
    daily: AverageText,
    short_term: AverageText,
)
    ensures
        ({
            let lines = lines_of(
                report,
                window_a,
                window_b,
                process_name,
                input_source,
                daily,
                short_term,
            );
            let first = if report.oscillation is Some { 3int } else { 0 };
            let count = if report.alert is Some { first + 2 } else { first + 1 };
            &&& lines.len() == count
            &&& report.oscillation is Some ==> {
                &&& lines[0]
                    == ">>> [ALERT] Oscillation Detected! Rapid switching (A-B-A-B) in 60s."@
                &&& lines[1] == "    Window A: "@ + window_a
                &&& lines[2] == "    Window B: "@ + window_b
            }
            &&& report.alert == Some(Alert::DailyLimitExceeded) ==> lines[first]
                == (">>> [CRITICAL] Daily Limit Exceeded for ["@ + process_name) + ("]: "@
                + daily.one_decimal@ + " avg/min (Threshold: 20.0, Window: 24h)"@)
            &&& report.alert == Some(Alert::ShortTermBurst) ==> lines[first]
                == (">>> [WARN] Short-term Burst for ["@ + process_name) + ("]: "@
                + short_term.one_decimal@ + " avg/min (Threshold: 15.0, Window: 5m)"@)
            &&& lines[count - 1] == ("Process: "@ + process_name) + (", Source: ["@ + input_source)
                + ("], Pattern: ["@ + report.pattern) + ("], Daily Avg: "@ + daily.two_decimals@)
                + (", Short Avg: "@ + short_term.two_decimals@) + (", Total Time: "@
                + signed_decimal(report.total_duration_ms) + " ms"@)
        }),
{
    let lines = lines_of(
        report,
        window_a,
        window_b,
        process_name,
        input_source,
        daily,
        short_term,
    );
    let first = if report.oscillation is Some { 3int } else { 0 };
    let count = if report.alert is Some { first + 2 } else { first + 1 };
    if report.alert == Some(Alert::DailyLimitExceeded) {
        assert(lines[first] =~= (">>> [CRITICAL] Daily Limit Exceeded for ["@ + process_name) + (
        "]: "@ + daily.one_decimal@ + " avg/min (Threshold: 20.0, Window: 24h)"@));
    }
    if report.alert == Some(Alert::ShortTermBurst) {
        assert(lines[first] =~= (">>> [WARN] Short-term Burst for ["@ + process_name) + ("]: "@
            + short_term.one_decimal@ + " avg/min (Threshold: 15.0, Window: 5m)"@));
    }
    assert(lines[count - 1] =~= ("Process: "@ + process_name) + (", Source: ["@ + input_source) + (
    "], Pattern: ["@ + report.pattern) + ("], Daily Avg: "@ + daily.two_decimals@) + (
    ", Short Avg: "@ + short_term.two_decimals@) + (", Total Time: "@ + signed_decimal(
        report.total_duration_ms,
    ) + " ms"@));
}

/// The number that decimal digits stand for.
pub open spec fn number_of(digits: Seq<char>) -> int
    decreases digits.len(),
{
    if digits.len() == 0 {
        0
    } else {
        number_of(digits.drop_last()) * 10 + (digits.last() as int - '0' as int)
    }
}

/// A number is written in the digits that stand for it, without a zero in front
/// unless it is zero itself.
pub proof fn law_decimal_stands_for_the_number(n: nat)
    ensures
        number_of(decimal(n)) == n,
        decimal(n).len() > 0,
        forall|i: int|
            0 <= i < decimal(n).len() ==> '0' as int <= (#[trigger] decimal(n)[i]) as int
                <= '9' as int,
        n > 0 ==> decimal(n)[0] != '0',
        n == 0 ==> decimal(n) == seq!['0'],
    decreases n,
{
    if n < 10 {
        let digits = decimal(n);
        assert(digits.drop_last() =~= Seq::empty());
        reveal_with_fuel(number_of, 2);
    } else {
        law_decimal_stands_for_the_number(n / 10);
        let before = decimal(n / 10);
        let digits = decimal(n);
        assert(digits.drop_last() =~= before);
        assert(digits[0] == before[0]);
        assert forall|i: int| 0 <= i < digits.len() implies '0' as int <= (
        #[trigger] digits[i]) as int <= '9' as int by {
            if i < before.len() {
                assert(digits[i] == before[i]);
            }
        }
    }
}

/// A negative number is written with a minus sign in front of its magnitude, and
/// one that is not negative without.
pub proof fn law_signed_decimal(n: int)
    ensures
        n >= 0 ==> signed_decimal(n) == decimal(n as nat),
        n < 0 ==> signed_decimal(n).len() > 0 && signed_decimal(n)[0] == '-' && number_of(
            signed_decimal(n).drop_first(),
        ) == -n,
{
    if n < 0 {
        reveal_strlit("-");
        law_decimal_stands_for_the_number((-n) as nat);
        assert(signed_decimal(n).drop_first() =~= decimal((-n) as nat));
    }
}

/// The text of a buffer depends on the filled part alone; if nothing is filled
/// it is the fallback.
pub proof fn law_only_the_filled_part_is_read(
    buffer1: Seq<u16>,
    buffer2: Seq<u16>,
    len: int,
    fallback: Seq<char>,
)
    requires
        len <= buffer1.len(),
        len <= buffer2.len(),
        forall|i: int| 0 <= i < len ==> buffer1[i] == buffer2[i],
    ensures
        buffer_text(buffer1, len, fallback) == buffer_text(buffer2, len, fallback),
        len <= 0 ==> buffer_text(buffer1, len, fallback) == fallback,
        len > 0 ==> buffer_text(buffer1, len, fallback) == utf16_text(buffer1.subrange(0, len)),
{
    if len > 0 {
        assert(buffer1.take(len) =~= buffer2.take(len));
        assert(buffer1.take(len) =~= buffer1.subrange(0, len));
    }
}

/// Code units outside the surrogates are the characters of the text, one by one.
pub proof fn law_plain_units_are_characters(units: Seq<u16>)
    requires
        forall|i: int|
            0 <= i < units.len() ==> #[trigger] units[i] < 0xd800 || units[i] > 0xdfff,
    ensures
        utf16_text(units).len() == units.len(),
        forall|i: int| 0 <= i < units.len() ==> #[trigger] utf16_text(units)[i] == units[i] as char,
    decreases units.len(),
{
    if units.len() > 0 {
        let rest = units.skip(1);
        assert forall|i: int| 0 <= i < rest.len() implies #[trigger] rest[i] < 0xd800 || rest[i]
            > 0xdfff by {
            assert(rest[i] == units[i + 1]);
        }
        law_plain_units_are_characters(rest);
        assert(units[0] < 0xd800 || units[0] > 0xdfff);
        assert forall|i: int| 0 <= i < units.len() implies #[trigger] utf16_text(units)[i]
            == units[i] as char by {
            if i > 0 {
                assert(utf16_text(units)[i] == utf16_text(rest)[i - 1]);
                assert(rest[i - 1] == units[i]);
            }
        }
    }
}

/// A process is shown by the file name that the system gives of the path of its
/// image, by the whole path if it gives none, and by a fixed text if there is no
/// path.
pub proof fn law_process_name_exactly(image: ProcessImage, name: Seq<char>)
    ensures
        is_process_name(image, name) <==> match image {
            ProcessImage::AccessDenied => name == "<Access Denied>"@,
            ProcessImage::Unknown => name == "<Unknown>"@,
            ProcessImage::Path(units) => {
                let path = utf16_text(units@);
                ||| may_be_file_name(path, Some(name)) && gave_file_name(path, Some(name))
                ||| name == path && may_be_file_name(path, None) && gave_file_name(path, None)
            },
        },
        shown_name(name, None) == name,
        forall|path: Seq<char>| #[trigger] shown_name(path, Some(name)) == name,
{
    if let ProcessImage::Path(units) = image {
        let path = utf16_text(units@);
        assert(shown_name(path, Some(name)) == name);
        assert(shown_name(path, None) == path);
    }
}

} // verus!
