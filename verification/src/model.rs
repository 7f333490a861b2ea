//! What the record of window switches is, and what each question asked of it
//! means, in mathematical terms.

use crate::state::SwitchEvent;
use crate::time::{elapsed_mins, elapsed_ms, elapsed_secs, Timestamp};
use vstd::prelude::*;

verus! {

/// What is known of a window: when it was first seen, and for how long it has
/// been in the foreground.
pub struct StatsModel {
    pub first_seen: Timestamp,
    pub total_ms: int,
}

/// The kinds of recent switching behaviour.
pub enum Pattern {
    /// Too few switches to tell.
    GatheringData,
    /// Back and forth between two windows.
    Oscillation,
    /// Three or more windows in turn.
    Random,
    /// One window again and again.
    Focused,
}

/// So many switches in so many seconds.
pub struct FrequencyModel {
    pub switches: int,
    pub seconds: int,
}

impl FrequencyModel {
    /// More than `threshold` switches per minute on average.
    pub open spec fn exceeds(self, threshold: int) -> bool {
        self.switches * 60 > threshold * self.seconds
    }
}

/// Minutes after which a switch leaves the history: one day.
pub const HISTORY_LIMIT_MINUTES: i64 = 1_440;

/// The window of the short-term average, in minutes.
pub const SHORT_TERM_MINUTES: i64 = 5;

/// The window of the daily average, in minutes.
pub const DAILY_MINUTES: i64 = 1_440;

/// Switches older than this many seconds make no oscillation.
pub const OSCILLATION_SECS: i64 = 60;

/// A frequency is only given once a window has been known this many seconds:
/// a tenth of a minute.
pub const MIN_OBSERVED_SECS: i64 = 6;

/// How many of the latest switches the pattern is told from.
pub const PATTERN_DEPTH: usize = 10;

/// A switch that is a day old or older at `now`.
pub open spec fn is_expired(event: SwitchEvent, now: Timestamp) -> bool {
    elapsed_mins(now, event.timestamp) >= HISTORY_LIMIT_MINUTES
}

/// A switch that is at most sixty seconds old at `now`, to the nanosecond.
pub open spec fn is_recent(event: SwitchEvent, now: Timestamp) -> bool {
    now.instant() - event.timestamp.instant() <= OSCILLATION_SECS * 1_000_000_000
}

/// The history without the expired switches at its front.
pub open spec fn drop_expired(history: Seq<SwitchEvent>, now: Timestamp) -> Seq<SwitchEvent>
    decreases history.len(),
{
    if history.len() > 0 && is_expired(history[0], now) {
        drop_expired(history.drop_first(), now)
    } else {
        history
    }
}

/// The last `n` switches, or all if there are fewer.
pub open spec fn latest(history: Seq<SwitchEvent>, n: int) -> Seq<SwitchEvent> {
    history.skip(if history.len() > n { history.len() - n } else { 0 })
}

/// The windows of a history, each once.
pub open spec fn window_set(history: Seq<SwitchEvent>) -> Set<isize> {
    history.map_values(|e: SwitchEvent| e.hwnd).to_set()
}

/// A switch to `hwnd` less than `minutes` whole minutes before `now`.
pub open spec fn counts(event: SwitchEvent, hwnd: isize, minutes: int, now: Timestamp) -> bool {
    event.hwnd == hwnd && elapsed_mins(now, event.timestamp) < minutes
}

/// How many switches to `hwnd` happened in the last `minutes` minutes.
pub open spec fn switch_count(
    history: Seq<SwitchEvent>,
    hwnd: isize,
    minutes: int,
    now: Timestamp,
) -> nat {
    history.filter(|e: SwitchEvent| counts(e, hwnd, minutes, now)).len()
}

/// The text by which a pattern is reported.
pub open spec fn pattern_text(pattern: Pattern) -> Seq<char> {
    match pattern {
        Pattern::GatheringData => "Gathering Data..."@,
        Pattern::Oscillation => "Oscillation (A-B-A-B)"@,
        Pattern::Random => "Random (Multitasking)"@,
        Pattern::Focused => "Focused (Single Window)"@,
    }
}

/// The state of the monitor.
#[verifier::ext_equal]
pub struct MonitorModel {
    /// The switches of the last day, the oldest first.
    pub history: Seq<SwitchEvent>,
    /// What is known of each window that was seen.
    pub daily_stats: Map<isize, StatsModel>,
    /// When the last switch happened.
    pub last_switch_time: Option<Timestamp>,
    /// The window that the last switch brought to the front.
    pub last_active_hwnd: Option<isize>,
}

impl MonitorModel {
    /// Nothing was seen yet.
    pub open spec fn initial() -> MonitorModel {
        MonitorModel {
            history: Seq::empty(),
            daily_stats: Map::empty(),
            last_switch_time: None,
            last_active_hwnd: None,
        }
    }

    /// All timestamps are valid.
    pub open spec fn wf(self) -> bool {
        &&& forall|i: int|
            0 <= i < self.history.len() ==> (#[trigger] self.history[i]).timestamp.valid()
        &&& forall|w: isize| #[trigger]
            self.daily_stats.contains_key(w) ==> self.daily_stats[w].first_seen.valid()
        &&& self.last_switch_time matches Some(t) ==> t.valid()
    }

    /// The time `hwnd` has been credited with so far, zero for an unknown window.
    pub open spec fn total(self, hwnd: isize) -> int {
        if self.daily_stats.contains_key(hwnd) {
            self.daily_stats[hwnd].total_ms
        } else {
            0
        }
    }

    /// What is known of the windows once the one in front has been credited
    /// with the time from the last switch to `now`.
    pub open spec fn credited(self, now: Timestamp) -> Map<isize, StatsModel> {
        match (self.last_switch_time, self.last_active_hwnd) {
            (Some(last_time), Some(last_hwnd)) => self.daily_stats.insert(
                last_hwnd,
                StatsModel {
                    first_seen: if self.daily_stats.contains_key(last_hwnd) {
                        self.daily_stats[last_hwnd].first_seen
                    } else {
                        last_time
                    },
                    total_ms: self.total(last_hwnd) + elapsed_ms(now, last_time),
                },
            ),
            _ => self.daily_stats,
        }
    }

    /// What is known of the windows once `hwnd` came to the front at `now`.
    pub open spec fn stats_after(self, hwnd: isize, now: Timestamp) -> Map<isize, StatsModel> {
        let credited = self.credited(now);
        if credited.contains_key(hwnd) {
            credited
        } else {
            credited.insert(hwnd, StatsModel { first_seen: now, total_ms: 0 })
        }
    }

    /// The state once `hwnd` came to the front at `now`.
    pub open spec fn after_event(self, hwnd: isize, now: Timestamp) -> MonitorModel {
        MonitorModel {
            history: drop_expired(self.history.push(SwitchEvent { hwnd, timestamp: now }), now),
            daily_stats: self.stats_after(hwnd, now),
            last_switch_time: Some(now),
            last_active_hwnd: Some(hwnd),
        }
    }

    /// The time credited at `now` can be added to the total as an `i64`.
    pub open spec fn credit_fits(self, now: Timestamp) -> bool {
        match (self.last_switch_time, self.last_active_hwnd) {
            (Some(last_time), Some(last_hwnd)) => i64::MIN <= self.total(last_hwnd) + elapsed_ms(
                now,
                last_time,
            ) <= i64::MAX,
            _ => true,
        }
    }

    /// Whatever the clock reads at the next switch, the time credited then fits.
    pub open spec fn has_room(self) -> bool {
        forall|now: Timestamp| now.is_reading() ==> #[trigger] self.credit_fits(now)
    }

    /// The five latest switches alternate between `hwnd` and another window,
    /// end with `hwnd`, and are recent.
    pub open spec fn oscillates(self, hwnd: isize, now: Timestamp) -> bool {
        let h = self.history;
        let n = h.len() as int;
        &&& n >= 5
        &&& forall|i: int|
            n - 5 <= i < n ==> is_recent(#[trigger] h[i], now)
        &&& h[n - 1].hwnd == hwnd
        &&& h[n - 3].hwnd == hwnd
        &&& h[n - 5].hwnd == hwnd
        &&& h[n - 2].hwnd == h[n - 4].hwnd
        &&& h[n - 2].hwnd != hwnd
    }

    /// The two windows of an oscillation that ends with `hwnd`, if there is one.
    pub open spec fn oscillation(self, hwnd: isize, now: Timestamp) -> Option<(isize, isize)> {
        if self.oscillates(hwnd, now) {
            Some((hwnd, self.history[self.history.len() - 2].hwnd))
        } else {
            None
        }
    }

    /// The kind of the recent switching, `hwnd` being the window in front.
    pub open spec fn pattern(self, hwnd: isize, now: Timestamp) -> Pattern {
        let recent = latest(self.history, PATTERN_DEPTH as int);
        if self.oscillates(hwnd, now) {
            Pattern::Oscillation
        } else if recent.len() < 3 {
            Pattern::GatheringData
        } else if window_set(recent).len() >= 3 {
            Pattern::Random
        } else if window_set(recent).len() == 2 {
            Pattern::Oscillation
        } else {
            Pattern::Focused
        }
    }

    /// For how many seconds switches to `hwnd` could be observed: since it was
    /// first seen, but no longer than the last `minutes` minutes.
    pub open spec fn observed_secs(self, hwnd: isize, minutes: int, now: Timestamp) -> int {
        if !self.daily_stats.contains_key(hwnd) {
            0
        } else {
            let since = elapsed_secs(now, self.daily_stats[hwnd].first_seen);
            if since < minutes * 60 {
                since
            } else {
                minutes * 60
            }
        }
    }

    /// How often `hwnd` came to the front in the last `minutes` minutes. A
    /// window known too briefly counts as never switched to.
    pub open spec fn frequency(self, hwnd: isize, minutes: int, now: Timestamp) -> FrequencyModel {
        let observed = self.observed_secs(hwnd, minutes, now);
        if observed < MIN_OBSERVED_SECS {
            FrequencyModel { switches: 0, seconds: 60 }
        } else {
            FrequencyModel {
                switches: switch_count(self.history, hwnd, minutes, now) as int,
                seconds: observed,
            }
        }
    }
}

} // verus!
