//! The record of window switches.

use crate::model::{
    counts, latest, pattern_text, window_set, FrequencyModel, MonitorModel, StatsModel,
    DAILY_MINUTES, HISTORY_LIMIT_MINUTES, MIN_OBSERVED_SECS, OSCILLATION_SECS, PATTERN_DEPTH,
    SHORT_TERM_MINUTES,
};
use crate::system::clock_showed;
use crate::time::{
    elapsed_ms, local_now, milliseconds_since, minutes_since, seconds_since, Timestamp, MAX_SECS,
};
use std::collections::{HashMap, HashSet, VecDeque};
use vstd::prelude::*;

verus! {

/// A window came to the foreground.
#[derive(Clone, Copy, Debug, PartialEq, Eq, Structural)]
pub struct SwitchEvent {
    pub hwnd: isize,
    pub timestamp: Timestamp,
}

/// What is known of a window: when it was first seen, and for how many
/// milliseconds it has been in the foreground.
#[derive(Clone, Copy, Debug, PartialEq, Eq, Structural)]
pub struct WindowStats {
    pub first_seen: Timestamp,
    pub total_duration_ms: i64,
}

impl View for WindowStats {
    type V = StatsModel;

    open spec fn view(&self) -> StatsModel {
        StatsModel { first_seen: self.first_seen, total_ms: self.total_duration_ms as int }
    }
}

/// So many switches in so many seconds.
#[derive(Clone, Copy, Debug, PartialEq, Eq, Structural)]
pub struct Frequency {
    pub switches: usize,
    pub seconds: u64,
}

impl View for Frequency {
    type V = FrequencyModel;

    open spec fn view(&self) -> FrequencyModel {
        FrequencyModel { switches: self.switches as int, seconds: self.seconds as int }
    }
}

impl Frequency {
    /// Whether there are more than `threshold` switches per minute on average.
    pub fn exceeds(&self, threshold: u32) -> (above: bool)
        ensures
            above == self@.exceeds(threshold as int),
    {
        let scaled: u128 = self.switches as u128 * 60;
        proof {
            assert(0 <= threshold * self.seconds <= 0xffff_ffff * 0xffff_ffff_ffff_ffff)
                by (nonlinear_arith)
                requires
                    0 <= threshold <= 0xffff_ffff,
                    0 <= self.seconds <= 0xffff_ffff_ffff_ffff,
            ;
        }
        let allowed: u128 = threshold as u128 * self.seconds as u128;
        scaled > allowed
    }
}

/// The switches of the last day, and what is known of each window.
pub struct MonitorState {
    pub history: VecDeque<SwitchEvent>,
    pub daily_stats: HashMap<isize, WindowStats>,
    /// When the last switch happened.
    pub last_switch_time: Option<Timestamp>,
    /// The window that the last switch brought to the front.
    pub last_active_hwnd: Option<isize>,
}

impl View for MonitorState {
    type V = MonitorModel;

    open spec fn view(&self) -> MonitorModel {
        MonitorModel {
            history: self.history@,
            daily_stats: self.daily_stats@.map_values(|s: WindowStats| s@),
            last_switch_time: self.last_switch_time,
            last_active_hwnd: self.last_active_hwnd,
        }
    }
}

impl MonitorState {
    /// Nothing was seen yet.
    pub fn new() -> (state: MonitorState)
        ensures
            state@ == MonitorModel::initial(),
            state@.wf(),
    {
        let state = MonitorState {
            history: VecDeque::new(),
            daily_stats: HashMap::new(),
            last_switch_time: None,
            last_active_hwnd: None,
        };
        assert(state@ =~= MonitorModel::initial());
        state
    }

    /// Records that `hwnd` came to the front at `now`. The window that was in
    /// front is credited with the time since the last switch, and switches
    /// that are a day old leave the history.
    pub fn add_event_at(&mut self, hwnd: isize, now: Timestamp)
        requires
            old(self)@.wf(),
            now.valid(),
            old(self)@.credit_fits(now),
        ensures
            final(self)@ == old(self)@.after_event(hwnd, now),
            final(self)@.wf(),
    {
        let ghost before = self@;
        if let Some(last_time) = self.last_switch_time {
            if let Some(last_hwnd) = self.last_active_hwnd {
                let duration = milliseconds_since(now, last_time);
                let stats = match self.daily_stats.get(&last_hwnd) {
                    Some(stats) => WindowStats {
                        first_seen: stats.first_seen,
                        total_duration_ms: stats.total_duration_ms + duration,
                    },
                    None => WindowStats { first_seen: last_time, total_duration_ms: duration },
                };
                self.daily_stats.insert(last_hwnd, stats);
            }
        }
        assert(self@.daily_stats =~= before.credited(now));

        self.last_switch_time = Some(now);
        self.last_active_hwnd = Some(hwnd);

        self.history.push_back(SwitchEvent { hwnd, timestamp: now });
        self.drop_expired(now);

        if !self.daily_stats.contains_key(&hwnd) {
            self.daily_stats.insert(hwnd, WindowStats { first_seen: now, total_duration_ms: 0 });
        }
        assert(self@.daily_stats =~= before.stats_after(hwnd, now));
    }

    /// Takes the switches that are a day old at `now` off the front of the history.
    fn drop_expired(&mut self, now: Timestamp)
        requires
            forall|i: int|
                0 <= i < old(self).history@.len() ==> (
                #[trigger] old(self).history@[i]).timestamp.valid(),
            now.valid(),
        ensures
            final(self).history@ == crate::model::drop_expired(old(self).history@, now),
            forall|i: int|
                0 <= i < final(self).history@.len() ==> (
                #[trigger] final(self).history@[i]).timestamp.valid(),
            final(self).daily_stats == old(self).daily_stats,
            final(self).last_switch_time == old(self).last_switch_time,
            final(self).last_active_hwnd == old(self).last_active_hwnd,
    {
        while self.history.len() > 0 && minutes_since(now, self.history[0].timestamp)
            >= HISTORY_LIMIT_MINUTES
            invariant
                now.valid(),
                forall|i: int|
                    0 <= i < self.history@.len() ==> (
                    #[trigger] self.history@[i]).timestamp.valid(),
                crate::model::drop_expired(self.history@, now) == crate::model::drop_expired(
                    old(self).history@,
                    now,
                ),
                self.daily_stats == old(self).daily_stats,
                self.last_switch_time == old(self).last_switch_time,
                self.last_active_hwnd == old(self).last_active_hwnd,
            decreases self.history@.len(),
        {
            assert(self.history@.drop_first() =~= self.history@.subrange(
                1,
                self.history@.len() as int,
            ));
            self.history.pop_front();
        }
    }

    /// Whether the next switch can be recorded whatever the clock reads then.
    pub fn can_add_event(&self) -> (can: bool)
        requires
            self@.wf(),
        ensures
            can == self@.has_room(),
    {
        if let Some(last_time) = self.last_switch_time {
            if let Some(last_hwnd) = self.last_active_hwnd {
                let total: i128 = self.get_total_duration(last_hwnd) as i128;
                let first = Timestamp { secs: 0, nanos: 0 };
                let last = Timestamp { secs: MAX_SECS, nanos: 999_999_999 };
                let least: i128 = total + milliseconds_since(first, last_time) as i128;
                let most: i128 = total + milliseconds_since(last, last_time) as i128;
                let can = i64::MIN as i128 <= least && most <= i64::MAX as i128;
                proof {
                    if can {
                        assert forall|now: Timestamp| now.is_reading() implies #[trigger]
                            self@.credit_fits(now) by {
                            assert(elapsed_ms(first, last_time) <= elapsed_ms(now, last_time));
                            assert(elapsed_ms(now, last_time) <= elapsed_ms(last, last_time));
                        }
                    } else {
                        assert(!self@.credit_fits(first) || !self@.credit_fits(last));
                    }
                }
                return can;
            }
        }
        true
    }

    /// Records that `hwnd` came to the front just now, as the clock has it.
    pub fn add_event(&mut self, hwnd: isize)
        requires
            old(self)@.wf(),
            old(self)@.has_room(),
        ensures
            exists|now: Timestamp|
                now.is_reading() && clock_showed(now) && final(self)@ == #[trigger] old(
                    self,
                )@.after_event(hwnd, now),
            final(self)@.wf(),
    {
        let now = local_now();
        assert(old(self)@.credit_fits(now));
        self.add_event_at(hwnd, now);
    }

    /// Whether a switch is at most sixty seconds old at `now`.
    fn is_recent(event: SwitchEvent, now: Timestamp) -> (recent: bool)
        requires
            event.timestamp.valid(),
            now.valid(),
        ensures
            recent == crate::model::is_recent(event, now),
    {
        let age: i64 = seconds_since(now, event.timestamp);
        age < OSCILLATION_SECS || (age == OSCILLATION_SECS && now.nanos == event.timestamp.nanos)
    }

    /// The two windows between which the five latest switches went back and
    /// forth, ending with `current_hwnd`, all of them recent at `now`.
    pub fn check_oscillation_at(&self, current_hwnd: isize, now: Timestamp) -> (pair: Option<
        (isize, isize),
    >)
        requires
            self@.wf(),
            now.valid(),
        ensures
            pair == self@.oscillation(current_hwnd, now),
    {
        let n: usize = self.history.len();
        if n < 5 {
            return None;
        }
        let mut i: usize = n - 5;
        while i < n
            invariant
                n == self.history@.len(),
                n - 5 <= i <= n,
                n >= 5,
                self@.wf(),
                now.valid(),
                forall|j: int|
                    n - 5 <= j < i ==> crate::model::is_recent(#[trigger] self.history@[j], now),
            decreases n - i,
        {
            assert(self@.history[i as int].timestamp.valid());
            if !Self::is_recent(self.history[i], now) {
                assert(!self@.oscillates(current_hwnd, now));
                return None;
            }
            i = i + 1;
        }
        let a = self.history[n - 1].hwnd;
        let b = self.history[n - 2].hwnd;
        if a == current_hwnd && a == self.history[n - 3].hwnd && a == self.history[n - 5].hwnd
            && b == self.history[n - 4].hwnd && a != b {
            Some((a, b))
        } else {
            None
        }
    }

    /// The windows between which the foreground oscillates right now.
    pub fn check_oscillation(&self, current_hwnd: isize) -> (pair: Option<(isize, isize)>)
        requires
            self@.wf(),
        ensures
            exists|now: Timestamp|
                now.is_reading() && clock_showed(now) && pair == #[trigger] self@.oscillation(
                    current_hwnd,
                    now,
                ),
    {
        let now = local_now();
        self.check_oscillation_at(current_hwnd, now)
    }

    /// The number of different windows among the last `n` switches.
    fn distinct_windows(&self, n: usize) -> (count: usize)
        ensures
            count == window_set(latest(self.history@, n as int)).len(),
    {
        let ghost recent = latest(self.history@, n as int);
        let len: usize = self.history.len();
        let start: usize = if len > n { len - n } else { 0 };
        let mut seen: HashSet<isize> = HashSet::new();
        let mut i: usize = start;
        assert(recent.take(0).map_values(|e: SwitchEvent| e.hwnd).to_set() =~= Set::empty());
        while i < len
            invariant
                len == self.history@.len(),
                start <= i <= len,
                recent == self.history@.skip(start as int),
                seen@ == window_set(recent.take(i - start)),
            decreases len - i,
        {
            let hwnd = self.history[i].hwnd;
            proof {
                let k = i - start;
                let hwnds = recent.take(k).map_values(|e: SwitchEvent| e.hwnd);
                let next = recent.take(k + 1).map_values(|e: SwitchEvent| e.hwnd);
                assert(next =~= hwnds.push(hwnd));
                assert forall|w: isize|
                    next.to_set().contains(w) <==> #[trigger] hwnds.to_set().insert(
                        hwnd,
                    ).contains(w) by {
                    if hwnds.contains(w) {
                        let j = hwnds.index_of(w);
                        assert(next[j] == w);
                    }
                    assert(next[k] == hwnd);
                }
                assert(next.to_set() =~= hwnds.to_set().insert(hwnd));
            }
            seen.insert(hwnd);
            i = i + 1;
        }
        assert(recent.take(len - start) =~= recent);
        seen.len()
    }

    /// The kind of the recent switching at `now`, `current_hwnd` being the
    /// window in front, as text.
    pub fn identify_pattern_at(&self, current_hwnd: isize, now: Timestamp) -> (text: String)
        requires
            self@.wf(),
            now.valid(),
        ensures
            text@ == pattern_text(self@.pattern(current_hwnd, now)),
    {
        if self.check_oscillation_at(current_hwnd, now).is_some() {
            return "Oscillation (A-B-A-B)".to_string();
        }
        if self.history.len() < 3 {
            return "Gathering Data...".to_string();
        }
        let unique_count = self.distinct_windows(PATTERN_DEPTH);
        if unique_count >= 3 {
            "Random (Multitasking)".to_string()
        } else if unique_count == 2 {
            "Oscillation (A-B-A-B)".to_string()
        } else {
            "Focused (Single Window)".to_string()
        }
    }

    /// The kind of the recent switching right now, as text.
    pub fn identify_pattern(&self, current_hwnd: isize) -> (text: String)
        requires
            self@.wf(),
        ensures
            exists|now: Timestamp|
                now.is_reading() && clock_showed(now) && text@ == pattern_text(
                    #[trigger] self@.pattern(current_hwnd, now),
                ),
    {
        let now = local_now();
        self.identify_pattern_at(current_hwnd, now)
    }

    /// How often `hwnd` came to the front in the `limit_minutes` minutes before
    /// `now`. A window known for less than a tenth of a minute counts as never
    /// switched to, because a frequency over so short a time means nothing.
    pub fn calculate_frequency_at(&self, hwnd: isize, limit_minutes: i64, now: Timestamp) -> (frequency:
        Frequency)
        requires
            self@.wf(),
            now.valid(),
        ensures
            frequency@ == self@.frequency(hwnd, limit_minutes as int, now),
    {
        let mut observed: i128 = 0;
        if let Some(stats) = self.daily_stats.get(&hwnd) {
            assert(self@.daily_stats[hwnd] == stats@);
            assert(self@.daily_stats.contains_key(hwnd));
            let since: i128 = seconds_since(now, stats.first_seen) as i128;
            let limit: i128 = limit_minutes as i128 * 60;
            observed = if since < limit { since } else { limit };
        }
        if observed < MIN_OBSERVED_SECS as i128 {
            return Frequency { switches: 0, seconds: 60 };
        }
        let ghost wanted = |e: SwitchEvent| counts(e, hwnd, limit_minutes as int, now);
        let mut switches: usize = 0;
        let len: usize = self.history.len();
        let mut i: usize = 0;
        assert(self.history@.take(0) =~= Seq::empty());
        reveal_with_fuel(Seq::filter, 1);
        while i < len
            invariant
                len == self.history@.len(),
                i <= len,
                switches <= i,
                self@.wf(),
                now.valid(),
                wanted == (|e: SwitchEvent| counts(e, hwnd, limit_minutes as int, now)),
                switches == self.history@.take(i as int).filter(wanted).len(),
            decreases len - i,
        {
            let event = self.history[i];
            assert(self@.history[i as int].timestamp.valid());
            let recent = minutes_since(now, event.timestamp) < limit_minutes;
            proof {
                reveal_with_fuel(Seq::filter, 1);
                assert(self.history@.take(i + 1).drop_last() =~= self.history@.take(i as int));
            }
            if event.hwnd == hwnd && recent {
                switches = switches + 1;
            }
            i = i + 1;
        }
        assert(self.history@.take(len as int) =~= self.history@);
        Frequency { switches, seconds: observed as u64 }
    }

    /// How often `hwnd` came to the front in the last `limit_minutes` minutes.
    fn calculate_frequency(&self, hwnd: isize, limit_minutes: i64) -> (frequency: Frequency)
        requires
            self@.wf(),
        ensures
            exists|now: Timestamp|
                now.is_reading() && clock_showed(now) && frequency@ == #[trigger] self@.frequency(
                    hwnd,
                    limit_minutes as int,
                    now,
                ),
    {
        let now = local_now();
        self.calculate_frequency_at(hwnd, limit_minutes, now)
    }

    /// How often `hwnd` came to the front in the last five minutes.
    pub fn get_short_term_average(&self, hwnd: isize) -> (frequency: Frequency)
        requires
            self@.wf(),
        ensures
            exists|now: Timestamp|
                now.is_reading() && clock_showed(now) && frequency@ == #[trigger] self@.frequency(
                    hwnd,
                    SHORT_TERM_MINUTES as int,
                    now,
                ),
    {
        self.calculate_frequency(hwnd, SHORT_TERM_MINUTES)
    }

    /// How often `hwnd` came to the front in the last day.
    pub fn get_daily_average(&self, hwnd: isize) -> (frequency: Frequency)
        requires
            self@.wf(),
        ensures
            exists|now: Timestamp|
                now.is_reading() && clock_showed(now) && frequency@ == #[trigger] self@.frequency(
                    hwnd,
                    DAILY_MINUTES as int,
                    now,
                ),
    {
        self.calculate_frequency(hwnd, DAILY_MINUTES)
    }

    /// For how many milliseconds `hwnd` has been in the foreground; zero for a
    /// window that was never seen.
    pub fn get_total_duration(&self, hwnd: isize) -> (ms: i64)
        ensures
            ms == self@.total(hwnd),
    {
        match self.daily_stats.get(&hwnd) {
            Some(stats) => stats.total_duration_ms,
            None => 0,
        }
    }
}

} // verus!
