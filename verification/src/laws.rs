//! What holds of the monitor as a whole, over any course of switches.

use crate::analysis::alert_for;
use crate::hooks::{in_front, is_switch};
use crate::model::{
    counts, drop_expired, is_expired, is_recent, latest, pattern_text, switch_count, window_set, MonitorModel,
    Pattern, DAILY_MINUTES, MIN_OBSERVED_SECS, PATTERN_DEPTH, SHORT_TERM_MINUTES,
};
use crate::state::SwitchEvent;
use crate::time::{elapsed_ms, elapsed_secs, lemma_elapsed_bounded, Timestamp, MAX_ELAPSED_MS};
use crate::utils::{
    is_file_name, is_last_component, is_single_dot, may_be_file_name, may_separate,
    starts_with_two_separators, PathRules,
};
use vstd::prelude::*;

verus! {

/// The state once these switches were recorded, in this order.
pub open spec fn run(events: Seq<SwitchEvent>) -> MonitorModel
    decreases events.len(),
{
    if events.len() == 0 {
        MonitorModel::initial()
    } else {
        run(events.drop_last()).after_event(events.last().hwnd, events.last().timestamp)
    }
}

/// The clock never went back from one switch to the next.
pub open spec fn chronological(events: Seq<SwitchEvent>) -> bool {
    forall|i: int, j: int|
        0 <= i <= j < events.len() ==> (#[trigger] events[i]).timestamp.instant() <= (
        #[trigger] events[j]).timestamp.instant()
}

/// All timestamps are valid.
pub open spec fn all_valid(events: Seq<SwitchEvent>) -> bool {
    forall|i: int| 0 <= i < events.len() ==> (#[trigger] events[i]).timestamp.valid()
}

/// The milliseconds for which `hwnd` was in front: the sum, over the switches
/// to it, of the time until the next switch.
pub open spec fn time_in_front(events: Seq<SwitchEvent>, hwnd: isize) -> int
    decreases events.len(),
{
    if events.len() < 2 {
        0
    } else {
        let n = events.len() as int;
        time_in_front(events.drop_last(), hwnd) + if events[n - 2].hwnd == hwnd {
            elapsed_ms(events[n - 1].timestamp, events[n - 2].timestamp)
        } else {
            0
        }
    }
}

/// Switches to `hwnd` are among these.
pub open spec fn seen(events: Seq<SwitchEvent>, hwnd: isize) -> bool {
    exists|i: int| 0 <= i < events.len() && (#[trigger] events[i]).hwnd == hwnd
}

/// Every window of the history is known, and so is the one in front.
pub open spec fn all_known(m: MonitorModel) -> bool {
    &&& forall|i: int|
        0 <= i < m.history.len() ==> m.daily_stats.contains_key((#[trigger] m.history[i]).hwnd)
    &&& m.last_active_hwnd matches Some(w) ==> m.daily_stats.contains_key(w)
}

/// Dropping expired switches takes away from the front only, and never the
/// switch that was just made.
proof fn lemma_drop_expired(history: Seq<SwitchEvent>, now: Timestamp)
    requires
        history.len() > 0,
        history.last().timestamp == now,
    ensures
        0 < drop_expired(history, now).len() <= history.len(),
        drop_expired(history, now) == history.skip(
            history.len() - drop_expired(history, now).len(),
        ),
{
    lemma_fresh_is_kept(history, now, history.len() - 1);
}

/// A switch is recorded at the end of the history; what was there before it is
/// kept but for some of the oldest.
pub proof fn law_switch_is_recorded(m: MonitorModel, hwnd: isize, now: Timestamp)
    ensures
        ({
            let before = m.history.push(SwitchEvent { hwnd, timestamp: now });
            let after = m.after_event(hwnd, now).history;
            &&& 0 < after.len() <= before.len()
            &&& after == before.skip(before.len() - after.len())
            &&& after.last() == (SwitchEvent { hwnd, timestamp: now })
            &&& !is_expired(after[0], now)
        }),
{
    let before = m.history.push(SwitchEvent { hwnd, timestamp: now });
    lemma_drop_expired(before, now);
    lemma_front_is_fresh(before, now);
}

/// What is left at the front is not expired.
proof fn lemma_front_is_fresh(history: Seq<SwitchEvent>, now: Timestamp)
    ensures
        drop_expired(history, now).len() > 0 ==> !is_expired(drop_expired(history, now)[0], now),
    decreases history.len(),
{
    if history.len() > 0 && is_expired(history[0], now) {
        lemma_front_is_fresh(history.drop_first(), now);
    }
}

/// A switch credits the window that was in front with the time since the last
/// switch, and no other window with any.
pub proof fn law_only_the_window_in_front_is_credited(
    m: MonitorModel,
    hwnd: isize,
    now: Timestamp,
    other: isize,
)
    ensures
        m.after_event(hwnd, now).total(other) == m.total(other) + (match (
            m.last_switch_time,
            m.last_active_hwnd,
        ) {
            (Some(last_time), Some(last_hwnd)) if last_hwnd == other => elapsed_ms(now, last_time),
            _ => 0,
        }),
{
}

/// No window is ever forgotten, and when it was first seen never changes.
pub proof fn law_first_seen_is_kept(m: MonitorModel, hwnd: isize, now: Timestamp, other: isize)
    requires
        m.daily_stats.contains_key(other),
    ensures
        m.after_event(hwnd, now).daily_stats.contains_key(other),
        m.after_event(hwnd, now).daily_stats[other].first_seen == m.daily_stats[other].first_seen,
{
}

/// Every window of the history stays known.
pub proof fn law_windows_stay_known(m: MonitorModel, hwnd: isize, now: Timestamp)
    requires
        all_known(m),
    ensures
        all_known(m.after_event(hwnd, now)),
{
    let next = m.after_event(hwnd, now);
    law_switch_is_recorded(m, hwnd, now);
    let before = m.history.push(SwitchEvent { hwnd, timestamp: now });
    assert forall|i: int| 0 <= i < next.history.len() implies next.daily_stats.contains_key(
        (#[trigger] next.history[i]).hwnd,
    ) by {
        let k = before.len() - next.history.len() + i;
        assert(next.history[i] == before[k]);
        if k < m.history.len() {
            assert(m.daily_stats.contains_key(m.history[k].hwnd));
        }
    }
}

/// What the last switch leaves behind.
proof fn lemma_run_last(events: Seq<SwitchEvent>)
    requires
        events.len() > 0,
    ensures
        run(events).last_switch_time == Some(events.last().timestamp),
        run(events).last_active_hwnd == Some(events.last().hwnd),
{
}

/// The total of each window is the time for which it was in front.
pub proof fn law_total_is_time_in_front(events: Seq<SwitchEvent>, hwnd: isize)
    ensures
        run(events).total(hwnd) == time_in_front(events, hwnd),
    decreases events.len(),
{
    if events.len() > 0 {
        let before = events.drop_last();
        law_total_is_time_in_front(before, hwnd);
        law_only_the_window_in_front_is_credited(
            run(before),
            events.last().hwnd,
            events.last().timestamp,
            hwnd,
        );
        if before.len() > 0 {
            lemma_run_last(before);
        }
    }
}

/// A window is known exactly if it was switched to, and was first seen at the
/// first switch to it.
pub proof fn law_first_seen(events: Seq<SwitchEvent>, hwnd: isize)
    ensures
        run(events).daily_stats.contains_key(hwnd) <==> seen(events, hwnd),
        forall|i: int|
            0 <= i < events.len() && (#[trigger] events[i]).hwnd == hwnd && (forall|j: int|
                0 <= j < i ==> (#[trigger] events[j]).hwnd != hwnd)
                ==> run(events).daily_stats[hwnd].first_seen == events[i].timestamp,
    decreases events.len(),
{
    if events.len() > 0 {
        let n = events.len() as int;
        let before = events.drop_last();
        let m = run(before);
        law_first_seen(before, hwnd);
        assert(forall|i: int| 0 <= i < n - 1 ==> before[i] == events[i]);
        assert(seen(events, hwnd) <==> seen(before, hwnd) || events[n - 1].hwnd == hwnd) by {
            if seen(before, hwnd) {
                let i = choose|i: int| 0 <= i < before.len() && (#[trigger] before[i]).hwnd == hwnd;
                assert(events[i].hwnd == hwnd);
            }
            if seen(events, hwnd) {
                let i = choose|i: int| 0 <= i < events.len() && (#[trigger] events[i]).hwnd == hwnd;
                if i < n - 1 {
                    assert(before[i].hwnd == hwnd);
                }
            }
        }
        if before.len() > 0 {
            lemma_run_last(before);
            law_first_seen(before, before.last().hwnd);
            assert(seen(before, before.last().hwnd));
        }
        assert forall|i: int|
            0 <= i < n && (#[trigger] events[i]).hwnd == hwnd && (forall|j: int|
                0 <= j < i ==> (#[trigger] events[j]).hwnd != hwnd) implies run(
            events,
        ).daily_stats[hwnd].first_seen == events[i].timestamp by {
            if i < n - 1 {
                assert(before[i].hwnd == hwnd);
                assert(forall|j: int| 0 <= j < i ==> (#[trigger] before[j]).hwnd != hwnd) by {
                    assert(forall|j: int| 0 <= j < i ==> before[j] == events[j]);
                }
                assert(seen(before, hwnd));
                law_first_seen_is_kept(m, events[n - 1].hwnd, events[n - 1].timestamp, hwnd);
            } else {
                assert(!seen(before, hwnd)) by {
                    assert(forall|j: int| 0 <= j < n - 1 ==> before[j] == events[j]);
                }
            }
        }
    }
}

/// What is expired stays expired.
proof fn lemma_expired_stays(event: SwitchEvent, earlier: Timestamp, later: Timestamp)
    requires
        is_expired(event, earlier),
        earlier.instant() <= later.instant(),
    ensures
        is_expired(event, later),
{
}

/// Dropping at one time and, after one more switch, at a later one is the same
/// as dropping once at the later time.
proof fn lemma_drop_twice(
    history: Seq<SwitchEvent>,
    event: SwitchEvent,
    earlier: Timestamp,
    later: Timestamp,
)
    requires
        earlier.instant() <= later.instant(),
    ensures
        drop_expired(drop_expired(history, earlier).push(event), later) == drop_expired(
            history.push(event),
            later,
        ),
    decreases history.len(),
{
    if history.len() > 0 && is_expired(history[0], earlier) {
        lemma_expired_stays(history[0], earlier, later);
        lemma_drop_twice(history.drop_first(), event, earlier, later);
        assert(history.push(event).drop_first() =~= history.drop_first().push(event));
    }
}

/// If the clock never went back, the history is what is left of all switches.
proof fn lemma_run_history(events: Seq<SwitchEvent>)
    requires
        events.len() > 0,
        chronological(events),
    ensures
        run(events).history == drop_expired(events, events.last().timestamp),
    decreases events.len(),
{
    let before = events.drop_last();
    let now = events.last().timestamp;
    assert(before.push(events.last()) =~= events);
    if before.len() > 0 {
        lemma_run_history(before);
        assert(before.last() == events[events.len() - 2]);
        lemma_drop_twice(before, events.last(), before.last().timestamp, now);
    }
}

/// Keeping all keeps the sequence.
proof fn lemma_filter_all(history: Seq<SwitchEvent>, keep: spec_fn(SwitchEvent) -> bool)
    requires
        forall|i: int| 0 <= i < history.len() ==> keep(#[trigger] history[i]),
    ensures
        history.filter(keep) == history,
    decreases history.len(),
{
    reveal_with_fuel(Seq::filter, 1);
    if history.len() > 0 {
        lemma_filter_all(history.drop_last(), keep);
        assert(history.drop_last().push(history.last()) =~= history);
        assert(keep(history[history.len() - 1]));
    }
}

/// In a chronological history, dropping from the front drops all that is expired.
proof fn lemma_drop_expired_is_filter(history: Seq<SwitchEvent>, now: Timestamp)
    requires
        chronological(history),
    ensures
        drop_expired(history, now) == history.filter(|e: SwitchEvent| !is_expired(e, now)),
    decreases history.len(),
{
    let fresh = |e: SwitchEvent| !is_expired(e, now);
    reveal_with_fuel(Seq::filter, 1);
    if history.len() == 0 {
    } else if is_expired(history[0], now) {
        let rest = history.drop_first();
        assert(chronological(rest)) by {
            assert(forall|i: int| 0 <= i < rest.len() ==> rest[i] == history[i + 1]);
        }
        lemma_drop_expired_is_filter(rest, now);
        let first = seq![history[0]];
        assert(first + rest =~= history);
        Seq::filter_distributes_over_add(first, rest, fresh);
        assert(first.drop_last() =~= Seq::empty());
        assert(first.filter(fresh) =~= Seq::empty()) by {
            reveal_with_fuel(Seq::filter, 2);
        }
        assert(Seq::<SwitchEvent>::empty() + rest.filter(fresh) =~= rest.filter(fresh));
    } else {
        assert forall|i: int| 0 <= i < history.len() implies fresh(#[trigger] history[i]) by {
            assert(history[0].timestamp.instant() <= history[i].timestamp.instant());
        }
        lemma_filter_all(history, fresh);
    }
}

/// If the clock never went back, the history holds exactly the switches of the
/// last day.
pub proof fn law_history_is_the_last_day(events: Seq<SwitchEvent>)
    requires
        events.len() > 0,
        chronological(events),
    ensures
        run(events).history == events.filter(
            |e: SwitchEvent| !is_expired(e, events.last().timestamp),
        ),
{
    lemma_run_history(events);
    lemma_drop_expired_is_filter(events, events.last().timestamp);
}

/// Keeping what `keep` and then what `want` accepts is the same as keeping what
/// `want` accepts, if that is all accepted by `keep`.
proof fn lemma_filter_twice(
    events: Seq<SwitchEvent>,
    keep: spec_fn(SwitchEvent) -> bool,
    want: spec_fn(SwitchEvent) -> bool,
)
    requires
        forall|e: SwitchEvent| #[trigger] want(e) ==> keep(e),
    ensures
        events.filter(keep).filter(want) == events.filter(want),
    decreases events.len(),
{
    reveal_with_fuel(Seq::filter, 1);
    if events.len() > 0 {
        let before = events.drop_last();
        let last = events.last();
        lemma_filter_twice(before, keep, want);
        if keep(last) {
            let kept = before.filter(keep).push(last);
            assert(kept.drop_last() =~= before.filter(keep));
            assert(kept.last() == last);
        }
    }
}

/// Leaving out switches a day old changes no average: if the clock never went
/// back, as many switches are counted as if none had ever been left out.
pub proof fn law_forgetting_changes_no_average(
    events: Seq<SwitchEvent>,
    hwnd: isize,
    minutes: int,
    now: Timestamp,
)
    requires
        events.len() > 0,
        chronological(events),
        events.last().timestamp.instant() <= now.instant(),
        minutes <= DAILY_MINUTES,
    ensures
        switch_count(run(events).history, hwnd, minutes, now) == switch_count(
            events,
            hwnd,
            minutes,
            now,
        ),
{
    let keep = |e: SwitchEvent| !is_expired(e, events.last().timestamp);
    let want = |e: SwitchEvent| counts(e, hwnd, minutes, now);
    law_history_is_the_last_day(events);
    assert forall|e: SwitchEvent| #[trigger] want(e) implies keep(e) by {
        if is_expired(e, events.last().timestamp) {
            lemma_expired_stays(e, events.last().timestamp, now);
        }
    }
    lemma_filter_twice(events, keep, want);
}

/// Leaving out switches a day old hides no oscillation: if the clock never went
/// back, the same is found as if none had ever been left out.
pub proof fn law_forgetting_hides_no_oscillation(
    events: Seq<SwitchEvent>,
    hwnd: isize,
    now: Timestamp,
)
    requires
        events.len() > 0,
        chronological(events),
        events.last().timestamp.instant() <= now.instant(),
    ensures
        run(events).oscillation(hwnd, now) == (MonitorModel {
            history: events,
            ..run(events)
        }).oscillation(hwnd, now),
{
    let all = MonitorModel { history: events, ..run(events) };
    let h = run(events).history;
    let n = events.len() as int;
    let last = events.last().timestamp;
    lemma_run_history(events);
    lemma_drop_expired(events, last);
    let k = n - h.len();
    assert(h == events.skip(k));
    assert(forall|i: int| 0 <= i < h.len() ==> #[trigger] h[i] == events[k + i]);
    if all.oscillates(hwnd, now) {
        let oldest = events[n - 5];
        assert(is_recent(oldest, now));
        assert(!is_expired(oldest, last));
        lemma_fresh_is_kept(events, last, n - 5);
        assert(run(events).oscillates(hwnd, now));
    }
    if run(events).oscillates(hwnd, now) {
        assert forall|i: int| n - 5 <= i < n implies is_recent(#[trigger] events[i], now) by {
            assert(h[i - k] == events[i]);
        }
        assert(all.oscillates(hwnd, now));
    }
}

/// If the clock never went back, no window was in front for longer than the
/// time from the first to the last switch.
proof fn lemma_time_in_front_chronological(events: Seq<SwitchEvent>, hwnd: isize)
    requires
        events.len() > 0,
        chronological(events),
    ensures
        0 <= time_in_front(events, hwnd) <= elapsed_ms(
            events.last().timestamp,
            events[0].timestamp,
        ),
    decreases events.len(),
{
    if events.len() >= 2 {
        let before = events.drop_last();
        assert(before.last() == events[events.len() - 2]);
        lemma_time_in_front_chronological(before, hwnd);
        assert(events[0].timestamp.instant() <= before.last().timestamp.instant());
        assert(before.last().timestamp.instant() <= events.last().timestamp.instant());
    }
}

/// If the clock never went back, the next switch can always be recorded.
pub proof fn law_room_while_the_clock_advances(events: Seq<SwitchEvent>)
    requires
        all_valid(events),
        chronological(events),
    ensures
        run(events).has_room(),
{
    if events.len() > 0 {
        lemma_run_last(events);
        let active = events.last().hwnd;
        law_total_is_time_in_front(events, active);
        lemma_time_in_front_chronological(events, active);
        lemma_elapsed_bounded(events.last().timestamp, events[0].timestamp);
        assert forall|now: Timestamp| now.is_reading() implies #[trigger] run(events).credit_fits(
            now,
        ) by {
            lemma_elapsed_bounded(now, events.last().timestamp);
        }
    }
}

/// Each switch adds no more to a total than the longest time there is.
proof fn lemma_time_in_front_bounded(events: Seq<SwitchEvent>, hwnd: isize)
    requires
        all_valid(events),
    ensures
        events.len() > 0 ==> -(events.len() - 1) * MAX_ELAPSED_MS <= time_in_front(events, hwnd)
            <= (events.len() - 1) * MAX_ELAPSED_MS,
    decreases events.len(),
{
    if events.len() >= 2 {
        let n = events.len() as int;
        let before = events.drop_last();
        assert(all_valid(before)) by {
            assert(forall|i: int| 0 <= i < n - 1 ==> before[i] == events[i]);
        }
        lemma_time_in_front_bounded(before, hwnd);
        lemma_elapsed_bounded(events[n - 1].timestamp, events[n - 2].timestamp);
    }
}

/// Whatever the clock does, there is room for the next switch as long as this
/// many times the longest time between two switches fits into a total.
pub proof fn law_room_for_many_switches(events: Seq<SwitchEvent>)
    requires
        all_valid(events),
        events.len() * MAX_ELAPSED_MS <= i64::MAX,
    ensures
        run(events).has_room(),
{
    if events.len() > 0 {
        lemma_run_last(events);
        let active = events.last().hwnd;
        law_total_is_time_in_front(events, active);
        lemma_time_in_front_bounded(events, active);
        assert forall|now: Timestamp| now.is_reading() implies #[trigger] run(events).credit_fits(
            now,
        ) by {
            lemma_elapsed_bounded(now, events.last().timestamp);
        }
    }
}

/// The milliseconds from each switch to the next, added up.
pub open spec fn time_covered(events: Seq<SwitchEvent>) -> int
    decreases events.len(),
{
    if events.len() < 2 {
        0
    } else {
        let n = events.len() as int;
        time_covered(events.drop_last()) + elapsed_ms(
            events[n - 1].timestamp,
            events[n - 2].timestamp,
        )
    }
}

/// The totals of these windows, added up.
pub open spec fn sum_of_totals(m: MonitorModel, hwnds: Seq<isize>) -> int
    decreases hwnds.len(),
{
    if hwnds.len() == 0 {
        0
    } else {
        sum_of_totals(m, hwnds.drop_last()) + m.total(hwnds.last())
    }
}

/// A switch adds to the totals of a list of different windows what it credits
/// to the one of them that was in front.
proof fn lemma_sum_after_event(m: MonitorModel, hwnd: isize, now: Timestamp, hwnds: Seq<isize>)
    requires
        hwnds.no_duplicates(),
    ensures
        sum_of_totals(m.after_event(hwnd, now), hwnds) == sum_of_totals(m, hwnds) + (match (
            m.last_switch_time,
            m.last_active_hwnd,
        ) {
            (Some(last_time), Some(last_hwnd)) if hwnds.contains(last_hwnd) => elapsed_ms(
                now,
                last_time,
            ),
            _ => 0,
        }),
    decreases hwnds.len(),
{
    if hwnds.len() > 0 {
        let rest = hwnds.drop_last();
        let last = hwnds.last();
        lemma_sum_after_event(m, hwnd, now, rest);
        law_only_the_window_in_front_is_credited(m, hwnd, now, last);
        assert forall|w: isize| hwnds.contains(w) <==> #[trigger] rest.contains(w) || w == last by {
            if hwnds.contains(w) && w != last {
                let i = hwnds.index_of(w);
                assert(rest[i] == w);
            }
            if rest.contains(w) {
                let i = rest.index_of(w);
                assert(hwnds[i] == w);
            }
            assert(hwnds[hwnds.len() - 1] == last);
        }
        assert(!rest.contains(last)) by {
            if rest.contains(last) {
                let i = rest.index_of(last);
                assert(hwnds[i] == hwnds[hwnds.len() - 1]);
            }
        }
    }
}

/// No time is lost and none is counted twice: the totals of all windows add up
/// to the time that the switches cover.
pub proof fn law_time_is_conserved(events: Seq<SwitchEvent>, hwnds: Seq<isize>)
    requires
        hwnds.no_duplicates(),
        forall|w: isize| seen(events, w) ==> hwnds.contains(w),
    ensures
        sum_of_totals(run(events), hwnds) == time_covered(events),
    decreases events.len(),
{
    if events.len() == 0 {
        lemma_sum_initial(hwnds);
    } else {
        let n = events.len() as int;
        let before = events.drop_last();
        assert forall|w: isize| seen(before, w) implies hwnds.contains(w) by {
            let i = choose|i: int| 0 <= i < before.len() && (#[trigger] before[i]).hwnd == w;
            assert(events[i].hwnd == w);
        }
        law_time_is_conserved(before, hwnds);
        lemma_sum_after_event(run(before), events.last().hwnd, events.last().timestamp, hwnds);
        if n >= 2 {
            lemma_run_last(before);
            assert(before.last() == events[n - 2]);
            assert(seen(events, events[n - 2].hwnd));
        }
    }
}

/// Nothing is credited at first.
proof fn lemma_sum_initial(hwnds: Seq<isize>)
    ensures
        sum_of_totals(MonitorModel::initial(), hwnds) == 0,
    decreases hwnds.len(),
{
    if hwnds.len() > 0 {
        lemma_sum_initial(hwnds.drop_last());
    }
}

/// The history ends with these switches.
pub open spec fn ends_with(history: Seq<SwitchEvent>, tail: Seq<SwitchEvent>) -> bool {
    &&& tail.len() <= history.len()
    &&& history.skip(history.len() - tail.len()) == tail
}

/// Nothing behind a switch that is not expired is dropped.
proof fn lemma_fresh_is_kept(history: Seq<SwitchEvent>, now: Timestamp, i: int)
    requires
        0 <= i < history.len(),
        !is_expired(history[i], now),
    ensures
        history.len() - i <= drop_expired(history, now).len() <= history.len(),
        drop_expired(history, now) == history.skip(
            history.len() - drop_expired(history, now).len(),
        ),
    decreases history.len(),
{
    if is_expired(history[0], now) {
        let rest = history.drop_first();
        assert(rest[i - 1] == history[i]);
        lemma_fresh_is_kept(rest, now, i - 1);
        assert(rest.skip(rest.len() - drop_expired(rest, now).len()) =~= history.skip(
            history.len() - drop_expired(rest, now).len(),
        ));
    } else {
        assert(history.skip(0) =~= history);
    }
}

/// A switch is recorded behind those that are not expired.
proof fn lemma_event_extends_tail(
    m: MonitorModel,
    tail: Seq<SwitchEvent>,
    hwnd: isize,
    now: Timestamp,
)
    requires
        ends_with(m.history, tail),
        forall|i: int| 0 <= i < tail.len() ==> !is_expired(#[trigger] tail[i], now),
    ensures
        ends_with(
            m.after_event(hwnd, now).history,
            tail.push(SwitchEvent { hwnd, timestamp: now }),
        ),
{
    let event = SwitchEvent { hwnd, timestamp: now };
    let before = m.history.push(event);
    let longer = tail.push(event);
    let i = before.len() - longer.len();
    assert(before.skip(i) =~= longer) by {
        assert forall|k: int| 0 <= k < longer.len() implies before.skip(i)[k] == longer[k] by {
            if k < tail.len() {
                assert(m.history.skip(m.history.len() - tail.len())[k] == tail[k]);
            }
        }
    }
    assert(longer[0] == before[i]);
    lemma_fresh_is_kept(before, now, i);
    let after = drop_expired(before, now);
    assert(after.skip(after.len() - longer.len()) =~= before.skip(i));
}

/// Five switches that go back and forth between two windows within a minute
/// are found to be an oscillation, whatever went before.
pub proof fn law_alternation_is_detected(
    m: MonitorModel,
    a: isize,
    b: isize,
    t1: Timestamp,
    t2: Timestamp,
    t3: Timestamp,
    t4: Timestamp,
    t5: Timestamp,
    now: Timestamp,
)
    requires
        a != b,
        t1.instant() <= t2.instant() <= t3.instant() <= t4.instant() <= t5.instant()
            <= now.instant(),
        is_recent(SwitchEvent { hwnd: a, timestamp: t1 }, now),
    ensures
        m.after_event(a, t1).after_event(b, t2).after_event(a, t3).after_event(b, t4).after_event(
            a,
            t5,
        ).oscillation(a, now) == Some((a, b)),
{
    let m1 = m.after_event(a, t1);
    let m2 = m1.after_event(b, t2);
    let m3 = m2.after_event(a, t3);
    let m4 = m3.after_event(b, t4);
    let m5 = m4.after_event(a, t5);
    let s0 = Seq::<SwitchEvent>::empty();
    let s1 = s0.push(SwitchEvent { hwnd: a, timestamp: t1 });
    let s2 = s1.push(SwitchEvent { hwnd: b, timestamp: t2 });
    let s3 = s2.push(SwitchEvent { hwnd: a, timestamp: t3 });
    let s4 = s3.push(SwitchEvent { hwnd: b, timestamp: t4 });
    let s5 = s4.push(SwitchEvent { hwnd: a, timestamp: t5 });
    assert(ends_with(m.history, s0)) by {
        assert(m.history.skip(m.history.len() as int) =~= s0);
    }
    lemma_event_extends_tail(m, s0, a, t1);
    lemma_event_extends_tail(m1, s1, b, t2);
    lemma_event_extends_tail(m2, s2, a, t3);
    lemma_event_extends_tail(m3, s3, b, t4);
    lemma_event_extends_tail(m4, s4, a, t5);
    let h = m5.history;
    let n = h.len() as int;
    let tail = h.skip(n - 5);
    assert(tail == s5);
    assert(h[n - 5] == tail[0]);
    assert(h[n - 4] == tail[1]);
    assert(h[n - 3] == tail[2]);
    assert(h[n - 2] == tail[3]);
    assert(h[n - 1] == tail[4]);
}

/// An oscillation is one between the window in front and another one, and it
/// is also the pattern.
pub proof fn law_oscillation(m: MonitorModel, hwnd: isize, now: Timestamp)
    ensures
        m.oscillation(hwnd, now) matches Some((a, b)) ==> {
            &&& a == hwnd
            &&& b != hwnd
            &&& m.pattern(hwnd, now) == Pattern::Oscillation
            &&& pattern_text(m.pattern(hwnd, now)) == "Oscillation (A-B-A-B)"@
        },
{
}

/// There is no pattern before the third switch, and always one from then on.
pub proof fn law_data_is_gathered_until_three_switches(
    m: MonitorModel,
    hwnd: isize,
    now: Timestamp,
)
    ensures
        m.pattern(hwnd, now) == Pattern::GatheringData <==> m.history.len() < 3,
{
}

/// Three of the latest switches went to three different windows.
pub open spec fn three_windows(recent: Seq<SwitchEvent>) -> bool {
    exists|i: int, j: int, k: int|
        0 <= i < recent.len() && 0 <= j < recent.len() && 0 <= k < recent.len() && (
        #[trigger] recent[i]).hwnd != (#[trigger] recent[j]).hwnd && recent[i].hwnd != (
        #[trigger] recent[k]).hwnd && recent[j].hwnd != recent[k].hwnd
}

/// Two of the latest switches went to two different windows.
pub open spec fn two_windows(recent: Seq<SwitchEvent>) -> bool {
    exists|i: int, j: int|
        0 <= i < recent.len() && 0 <= j < recent.len() && (#[trigger] recent[i]).hwnd != (
        #[trigger] recent[j]).hwnd
}

/// The windows of a history are those that its switches went to.
proof fn lemma_window_set(recent: Seq<SwitchEvent>, w: isize)
    ensures
        window_set(recent).finite(),
        window_set(recent).contains(w) <==> seen(recent, w),
{
    let hwnds = recent.map_values(|e: SwitchEvent| e.hwnd);
    if seen(recent, w) {
        let i = choose|i: int| 0 <= i < recent.len() && (#[trigger] recent[i]).hwnd == w;
        assert(hwnds[i] == w);
    }
    if hwnds.contains(w) {
        let i = hwnds.index_of(w);
        assert(recent[i].hwnd == w);
    }
}

/// The switching is random exactly if it is no oscillation and three of the
/// latest switches went to different windows.
pub proof fn law_random_is_three_windows(m: MonitorModel, hwnd: isize, now: Timestamp)
    ensures
        m.pattern(hwnd, now) == Pattern::Random <==> !m.oscillates(hwnd, now) && three_windows(
            latest(m.history, PATTERN_DEPTH as int),
        ),
{
    let recent = latest(m.history, PATTERN_DEPTH as int);
    let ws = window_set(recent);
    lemma_window_set(recent, hwnd);
    if three_windows(recent) {
        let (i, j, k) = choose|i: int, j: int, k: int|
            0 <= i < recent.len() && 0 <= j < recent.len() && 0 <= k < recent.len() && (
            #[trigger] recent[i]).hwnd != (#[trigger] recent[j]).hwnd && recent[i].hwnd != (
            #[trigger] recent[k]).hwnd && recent[j].hwnd != recent[k].hwnd;
        let (a, b, c) = (recent[i].hwnd, recent[j].hwnd, recent[k].hwnd);
        lemma_window_set(recent, a);
        lemma_window_set(recent, b);
        lemma_window_set(recent, c);
        let rest = ws.remove(a).remove(b).remove(c);
        assert(ws.len() == rest.len() + 3);
        assert(recent.len() >= 3) by {
            assert(i != j && i != k && j != k);
        }
    }
    if ws.len() >= 3 {
        let a = ws.choose();
        assert(ws.contains(a));
        let b = ws.remove(a).choose();
        assert(ws.remove(a).contains(b));
        let c = ws.remove(a).remove(b).choose();
        assert(ws.remove(a).remove(b).contains(c));
        lemma_window_set(recent, a);
        lemma_window_set(recent, b);
        lemma_window_set(recent, c);
        let i = choose|i: int| 0 <= i < recent.len() && (#[trigger] recent[i]).hwnd == a;
        let j = choose|j: int| 0 <= j < recent.len() && (#[trigger] recent[j]).hwnd == b;
        let k = choose|k: int| 0 <= k < recent.len() && (#[trigger] recent[k]).hwnd == c;
        assert(recent[i].hwnd != recent[j].hwnd && recent[i].hwnd != recent[k].hwnd
            && recent[j].hwnd != recent[k].hwnd);
    }
}

/// One window is in focus exactly if there are three switches, and the latest
/// ones all went to the same window.
pub proof fn law_focused_is_one_window(m: MonitorModel, hwnd: isize, now: Timestamp)
    ensures
        m.pattern(hwnd, now) == Pattern::Focused <==> m.history.len() >= 3 && !two_windows(
            latest(m.history, PATTERN_DEPTH as int),
        ),
{
    let h = m.history;
    let n = h.len() as int;
    let recent = latest(h, PATTERN_DEPTH as int);
    let ws = window_set(recent);
    lemma_window_set(recent, hwnd);
    if m.oscillates(hwnd, now) {
        assert(recent[recent.len() - 1] == h[n - 1]);
        assert(recent[recent.len() - 2] == h[n - 2]);
        assert(two_windows(recent));
    }
    if two_windows(recent) {
        let (i, j) = choose|i: int, j: int|
            0 <= i < recent.len() && 0 <= j < recent.len() && (#[trigger] recent[i]).hwnd != (
            #[trigger] recent[j]).hwnd;
        let (a, b) = (recent[i].hwnd, recent[j].hwnd);
        lemma_window_set(recent, a);
        lemma_window_set(recent, b);
        let rest = ws.remove(a).remove(b);
        assert(ws.len() == rest.len() + 2);
    }
    if ws.len() >= 2 {
        let a = ws.choose();
        assert(ws.contains(a));
        let b = ws.remove(a).choose();
        assert(ws.remove(a).contains(b));
        lemma_window_set(recent, a);
        lemma_window_set(recent, b);
        let i = choose|i: int| 0 <= i < recent.len() && (#[trigger] recent[i]).hwnd == a;
        let j = choose|j: int| 0 <= j < recent.len() && (#[trigger] recent[j]).hwnd == b;
        assert(recent[i].hwnd != recent[j].hwnd);
    }
}

/// A longer window counts no fewer switches, and none counts more than there are.
pub proof fn law_longer_window_counts_more(
    history: Seq<SwitchEvent>,
    hwnd: isize,
    shorter: int,
    longer: int,
    now: Timestamp,
)
    requires
        shorter <= longer,
    ensures
        switch_count(history, hwnd, shorter, now) <= switch_count(history, hwnd, longer, now)
            <= history.len(),
    decreases history.len(),
{
    reveal_with_fuel(Seq::filter, 1);
    if history.len() > 0 {
        law_longer_window_counts_more(history.drop_last(), hwnd, shorter, longer, now);
        let last = history.last();
        assert(counts(last, hwnd, shorter, now) ==> counts(last, hwnd, longer, now));
    }
}

/// A frequency is taken over the time for which a window has been known, but
/// over no more than the minutes asked for, and counts no more switches than
/// the history has.
pub proof fn law_frequency_is_bounded(
    m: MonitorModel,
    hwnd: isize,
    minutes: int,
    now: Timestamp,
)
    requires
        minutes > 0,
    ensures
        ({
            let f = m.frequency(hwnd, minutes, now);
            &&& 0 <= f.switches <= m.history.len()
            &&& MIN_OBSERVED_SECS <= f.seconds <= minutes * 60
        }),
{
    law_longer_window_counts_more(m.history, hwnd, minutes, minutes, now);
}

/// A window that is unknown, or known for less than a tenth of a minute, raises
/// no alert.
pub proof fn law_new_window_raises_no_alert(
    m: MonitorModel,
    hwnd: isize,
    daily: Timestamp,
    short_term: Timestamp,
)
    requires
        m.daily_stats.contains_key(hwnd) ==> {
            &&& elapsed_secs(daily, m.daily_stats[hwnd].first_seen) < MIN_OBSERVED_SECS
            &&& elapsed_secs(short_term, m.daily_stats[hwnd].first_seen) < MIN_OBSERVED_SECS
        },
    ensures
        alert_for(
            m.frequency(hwnd, DAILY_MINUTES as int, daily),
            m.frequency(hwnd, SHORT_TERM_MINUTES as int, short_term),
        ) is None,
{
}

/// The window in front once the system has named these handles, one after the
/// other, `last` having been in front before.
pub open spec fn front_after(last: isize, handles: Seq<isize>) -> isize
    decreases handles.len(),
{
    if handles.len() == 0 {
        last
    } else {
        in_front(front_after(last, handles.drop_last()), handles.last())
    }
}

/// The switches that are reported then.
pub open spec fn switches(last: isize, handles: Seq<isize>) -> Seq<isize>
    decreases handles.len(),
{
    if handles.len() == 0 {
        Seq::empty()
    } else {
        let before = switches(last, handles.drop_last());
        if is_switch(front_after(last, handles.drop_last()), handles.last()) {
            before.push(handles.last())
        } else {
            before
        }
    }
}

/// The handles that are not zero.
pub open spec fn nonzero(handles: Seq<isize>) -> Seq<isize> {
    handles.filter(|h: isize| h != 0)
}

/// The handles with each run of equal ones reduced to one, a run of `last` at
/// the start to none.
pub open spec fn collapsed(last: isize, handles: Seq<isize>) -> Seq<isize>
    decreases handles.len(),
{
    if handles.len() == 0 {
        Seq::empty()
    } else {
        let before = handles.drop_last();
        let previous = if before.len() == 0 { last } else { before.last() };
        if handles.last() != previous {
            collapsed(last, before).push(handles.last())
        } else {
            collapsed(last, before)
        }
    }
}

/// Every switch is reported, and reported once: what is reported are the
/// handles that are not zero, each run of equal ones reduced to one. The window
/// in front is then the last of them.
pub proof fn law_each_switch_is_reported_once(last: isize, handles: Seq<isize>)
    ensures
        switches(last, handles) == collapsed(last, nonzero(handles)),
        front_after(last, handles) == (if nonzero(handles).len() == 0 {
            last
        } else {
            nonzero(handles).last()
        }),
    decreases handles.len(),
{
    reveal_with_fuel(Seq::filter, 1);
    if handles.len() > 0 {
        let before = handles.drop_last();
        law_each_switch_is_reported_once(last, before);
        if handles.last() != 0 {
            assert(nonzero(handles) == nonzero(before).push(handles.last()));
            assert(nonzero(handles).drop_last() =~= nonzero(before));
        }
    }
}

/// No reported handle is zero, and none is that of the window reported before it.
pub proof fn law_reported_neighbours_differ(last: isize, handles: Seq<isize>)
    ensures
        ({
            let reported = switches(last, handles);
            &&& reported.len() > 0 ==> reported[0] != last
            &&& forall|i: int| 0 <= i < reported.len() ==> #[trigger] reported[i] != 0
            &&& forall|i: int, j: int|
                0 <= i && j == i + 1 && j < reported.len() ==> #[trigger] reported[i]
                    != #[trigger] reported[j]
            &&& front_after(last, handles) == (if reported.len() == 0 {
                last
            } else {
                reported.last()
            })
        }),
    decreases handles.len(),
{
    if handles.len() > 0 {
        law_reported_neighbours_differ(last, handles.drop_last());
    }
}

/// Switches that each go to another window than the one before, as those that
/// are reported do, never count as focus on one window.
pub proof fn law_reported_switches_are_never_focused(
    m: MonitorModel,
    hwnd: isize,
    now: Timestamp,
)
    requires
        forall|i: int, j: int|
            0 <= i && j == i + 1 && j < m.history.len() ==> (#[trigger] m.history[i]).hwnd != (
            #[trigger] m.history[j]).hwnd,
    ensures
        m.pattern(hwnd, now) != Pattern::Focused,
{
    let n = m.history.len() as int;
    let recent = latest(m.history, PATTERN_DEPTH as int);
    law_focused_is_one_window(m, hwnd, now);
    if n >= 3 {
        assert(recent[recent.len() - 1] == m.history[n - 1]);
        assert(recent[recent.len() - 2] == m.history[n - 2]);
        assert(two_windows(recent));
    }
}

/// Under given rules a path has at most one last component.
proof fn lemma_last_component_is_unique(
    path: Seq<char>,
    rules: PathRules,
    start1: int,
    end1: int,
    start2: int,
    end2: int,
)
    requires
        0 <= rules.body,
        is_last_component(path, start1, end1, rules),
        is_last_component(path, start2, end2, rules),
        end1 <= end2,
    ensures
        start1 == start2,
        end1 == end2,
{
    if end1 < end2 {
        // The second one would lie in what follows the first, and so be a dot.
        assert(rules.separates(path[end1]));
        assert(end1 < start2);
        assert(!rules.separates(path[start2]));
        assert(is_single_dot(path, start2, rules));
        if start2 + 1 < end2 {
            assert(!rules.separates(path[start2 + 1]));
        }
        assert(path.subrange(start2, end2) =~= seq!['.']);
    } else if start1 < start2 {
        assert(!rules.separates(path[start2 - 1]));
    } else if start2 < start1 {
        assert(!rules.separates(path[start1 - 1]));
    }
}

/// The rules of a system leave no choice: they give a path one file name, or
/// none.
pub proof fn law_file_name_is_determined(
    path: Seq<char>,
    rules: PathRules,
    file1: Option<Seq<char>>,
    file2: Option<Seq<char>>,
)
    requires
        0 <= rules.body,
        is_file_name(path, file1, rules),
        is_file_name(path, file2, rules),
    ensures
        file1 == file2,
{
    if file1 is Some && file2 is Some {
        let (s1, e1) = choose|start: int, end: int| #[trigger]
            is_last_component(path, start, end, rules) && file1->0 == path.subrange(start, end);
        let (s2, e2) = choose|start: int, end: int| #[trigger]
            is_last_component(path, start, end, rules) && file2->0 == path.subrange(start, end);
        if e1 <= e2 {
            lemma_last_component_is_unique(path, rules, s1, e1, s2, e2);
        } else {
            lemma_last_component_is_unique(path, rules, s2, e2, s1, e1);
        }
    }
}

/// Where the component that reaches up to the end of a path begins.
proof fn lemma_start_of_component(path: Seq<char>, rules: PathRules, i: int) -> (start: int)
    requires
        0 <= rules.body <= i < path.len(),
        forall|k: int| i <= k < path.len() ==> !rules.separates(#[trigger] path[k]),
    ensures
        rules.body <= start <= i,
        start == rules.body || rules.separates(path[start - 1]),
        forall|k: int| start <= k < path.len() ==> !rules.separates(#[trigger] path[k]),
    decreases i,
{
    if i == rules.body || rules.separates(path[i - 1]) {
        i
    } else {
        lemma_start_of_component(path, rules, i - 1)
    }
}

/// On every system a path has a file name if it ends with an ordinary character
/// and does not start with two separators.
pub proof fn law_ordinary_path_has_a_file_name(path: Seq<char>)
    requires
        path.len() > 0,
        !may_separate(path.last()),
        path.last() != '.',
        path.last() != ':',
        !starts_with_two_separators(path),
    ensures
        !may_be_file_name(path, None),
{
    assert forall|rules: PathRules| rules.may_apply_to(path) implies !(#[trigger] is_file_name(
        path,
        None,
        rules,
    )) by {
        let n = path.len() as int;
        let start = lemma_start_of_component(path, rules, n - 1);
        let name = path.subrange(start, n);
        assert(name.last() == path.last());
        assert(seq!['.'].last() == '.');
        assert(seq!['.', '.'].last() == '.');
        assert(is_last_component(path, start, n, rules));
    }
}

} // verus!
