//! Unix-time / civil-date conversions.
//!
//! Implements Howard Hinnant's `civil_from_days` algorithm
//! (<https://howardhinnant.github.io/date_algorithms.html#civil_from_days>)
//! on integer math only, so it works under `no_std` and is easy to test on
//! the host. Its result is stated over the calendar of [`super::calendar`].

use vstd::prelude::*;

use super::calendar::{civil_of_days, lemma_civil_steps, year_of_era};
use crate::pomodoro::state::sat_sub;

verus! {

#[derive(Clone, Copy, Debug, PartialEq, Eq)]
pub struct CivilDate {
    pub year: i32,
    pub month: u8,
    pub day: u8,
    pub hour: u8,
    pub minute: u8,
    pub second: u8,
}

/// Seconds since 1970-01-01 in the time zone `tz_offset_min` minutes east
/// of UTC.
pub open spec fn local_seconds(unix: int, tz_offset_min: i16) -> int {
    unix + tz_offset_min * 60
}

/// The civil date and time of local second `secs` (the year kept to its
/// low 32 bits, as an `i32`).
pub open spec fn civil_spec(secs: int) -> CivilDate {
    let c = civil_of_days(secs / 86_400);
    let rem = secs % 86_400;
    CivilDate {
        year: c.0 as i32,
        month: c.1 as u8,
        day: c.2 as u8,
        hour: (rem / 3600) as u8,
        minute: ((rem / 60) % 60) as u8,
        second: (rem % 60) as u8,
    }
}

/// Convert a unix timestamp (seconds since 1970-01-01 UTC) to a civil date in
/// a given timezone (`tz_offset_min` is added to UTC before the split).
pub fn civil_from_unix(unix: i64, tz_offset_min: i16) -> (date: CivilDate)
    requires
        i64::MIN <= local_seconds(unix as int, tz_offset_min) <= i64::MAX,
    ensures
        date == civil_spec(local_seconds(unix as int, tz_offset_min)),
        1 <= date.month <= 12,
        1 <= date.day <= 31,
        date.hour < 24,
        date.minute < 60,
        date.second < 60,
{
    let secs = unix + (tz_offset_min as i64) * 60;
    let days: i64 = match secs.checked_div_euclid(86_400) {
        Some(v) => v,
        None => 0,
    };
    let rem: u32 = match secs.checked_rem_euclid(86_400) {
        Some(v) => v as u32,
        None => 0,
    };

    // Hinnant's civil_from_days.
    let z = days + 719_468;
    let era: i64 = match z.checked_div_euclid(146_097) {
        Some(v) => v,
        None => 0,
    };
    let doe: u32 = match z.checked_rem_euclid(146_097) {
        Some(v) => v as u32,
        None => 0,
    };
    let yoe = (doe - doe / 1460 + doe / 36_524 - doe / 146_096) / 365;
    let y = yoe as i64 + era * 400;
    let doy = doe - (365 * yoe + yoe / 4 - yoe / 100);
    let mp = (5 * doy + 2) / 153;
    let d = doy - (153 * mp + 2) / 5 + 1;
    let m = if mp < 10 {
        mp + 3
    } else {
        mp - 9
    };
    proof {
        assert(yoe == year_of_era(doe as int));
        lemma_civil_steps(
            days as int,
            era as int,
            doe as int,
            yoe as int,
            doy as int,
            mp as int,
            d as int,
            m as int,
            y + (if m <= 2 {
                1int
            } else {
                0int
            }),
        );
    }
    let day = d as u8;
    let month = m as u8;
    let year = (y + if month <= 2 {
        1
    } else {
        0
    }) as i32;

    let hour = (rem / 3600) as u8;
    let minute = ((rem / 60) % 60) as u8;
    let second = (rem % 60) as u8;

    CivilDate { year, month, day, hour, minute, second }
}

/// `YYYY * 10000 + MM * 100 + DD` of a date, negative years counting as 0.
pub open spec fn yyyymmdd_spec(date: CivilDate) -> int {
    let y: int = if date.year < 0 {
        0
    } else {
        date.year as int
    };
    y * 10_000 + date.month * 100 + date.day
}

/// Pack a civil date into `YYYY * 10000 + MM * 100 + DD`.
pub fn yyyymmdd(date: CivilDate) -> (packed: u32)
    requires
        yyyymmdd_spec(date) <= u32::MAX,
    ensures
        packed == yyyymmdd_spec(date),
{
    let y: u32 = if date.year < 0 {
        0
    } else {
        date.year as u32
    };
    y * 10_000 + date.month as u32 * 100 + date.day as u32
}

/// Abstract value of a [`Clock`].
pub struct ClockView {
    pub base_unix: i64,
    pub base_monotonic_ms: u64,
    pub synced: bool,
}

/// What `now_unix` answers: the anchor plus the whole seconds elapsed since
/// it, or nothing when the clock was never given a useful time.
pub open spec fn now_unix_spec(c: ClockView, now_monotonic_ms: u64) -> Option<int> {
    if c.base_unix <= 0 && !c.synced {
        None
    } else {
        Some(c.base_unix + sat_sub(now_monotonic_ms, c.base_monotonic_ms) / 1000)
    }
}

/// The arithmetic of `now_unix` stays within `i64`.
pub open spec fn now_unix_fits(c: ClockView, now_monotonic_ms: u64) -> bool {
    now_unix_spec(c, now_monotonic_ms) matches Some(u) ==> u <= i64::MAX
}

/// The arithmetic of `today_yyyymmdd` stays within its integer types.
pub open spec fn today_fits(c: ClockView, now_monotonic_ms: u64, tz_offset_min: i16) -> bool {
    &&& now_unix_fits(c, now_monotonic_ms)
    &&& now_unix_spec(c, now_monotonic_ms) matches Some(u) ==> {
        &&& i64::MIN <= local_seconds(u, tz_offset_min) <= i64::MAX
        &&& yyyymmdd_spec(civil_spec(local_seconds(u, tz_offset_min))) <= u32::MAX
    }
}

/// What `today_yyyymmdd` answers.
pub open spec fn today_spec(c: ClockView, now_monotonic_ms: u64, tz_offset_min: i16) -> Option<u32> {
    match now_unix_spec(c, now_monotonic_ms) {
        None => None,
        Some(u) => Some(yyyymmdd_spec(civil_spec(local_seconds(u, tz_offset_min))) as u32),
    }
}

/// Anchored wall-clock.
///
/// Internally stores the unix-second base together with the monotonic ms at
/// the time the anchor was set. Calling [`Clock::now_unix`] with the current
/// monotonic ms returns a `i64` second-precision unix timestamp.
#[derive(Clone, Copy, Debug)]
pub struct Clock {
    base_unix: i64,
    base_monotonic_ms: u64,
    pub synced: bool,
}

impl View for Clock {
    type V = ClockView;

    closed spec fn view(&self) -> ClockView {
        ClockView {
            base_unix: self.base_unix,
            base_monotonic_ms: self.base_monotonic_ms,
            synced: self.synced,
        }
    }
}

impl Clock {
    /// Create a clock with no anchoring yet (`now_unix` will return `None`).
    pub fn unset() -> (c: Self)
        ensures
            c@.base_unix == 0,
            c@.base_monotonic_ms == 0,
            !c@.synced,
    {
        Self { base_unix: 0, base_monotonic_ms: 0, synced: false }
    }

    /// Initialise from `last_seen_unix` (or any other "best guess" value).
    /// The `synced` flag stays `false`, marking the time as approximate.
    pub fn from_last_seen(last_seen_unix: i64, now_monotonic_ms: u64) -> (c: Self)
        ensures
            c@.base_unix == last_seen_unix,
            c@.base_monotonic_ms == now_monotonic_ms,
            !c@.synced,
    {
        Self { base_unix: last_seen_unix, base_monotonic_ms: now_monotonic_ms, synced: false }
    }

    /// Anchor to a known-authoritative source (typically NTP). Subsequent
    /// `now_unix` calls will be accurate to within the monotonic counter
    /// drift (~20 ppm for a free-running ESP32).
    pub fn anchor(&mut self, unix_time: i64, now_monotonic_ms: u64)
        ensures
            final(self)@.base_unix == unix_time,
            final(self)@.base_monotonic_ms == now_monotonic_ms,
            final(self)@.synced,
    {
        self.base_unix = unix_time;
        self.base_monotonic_ms = now_monotonic_ms;
        self.synced = true;
    }

    /// Returns the current unix time in seconds, or `None` if no anchor has
    /// ever been established.
    pub fn now_unix(&self, now_monotonic_ms: u64) -> (r: Option<i64>)
        requires
            now_unix_fits(self@, now_monotonic_ms),
        ensures
            match now_unix_spec(self@, now_monotonic_ms) {
                None => r is None,
                Some(u) => r == Some(u as i64),
            },
    {
        if self.base_unix <= 0 && !self.synced {
            // base_unix == 0 with !synced means we've never been told anything
            // useful (no NVS history and no NTP).
            return None;
        }
        let delta_ms = now_monotonic_ms.saturating_sub(self.base_monotonic_ms);
        Some(self.base_unix + (delta_ms / 1000) as i64)
    }

    /// Whether `today_yyyymmdd` can be asked with these arguments: the
    /// current time and its calendar date fit the integer types used.
    pub fn today_fits(&self, now_monotonic_ms: u64, tz_offset_min: i16) -> (ok: bool)
        ensures
            ok == today_fits(self@, now_monotonic_ms, tz_offset_min),
    {
        if self.base_unix <= 0 && !self.synced {
            return true;
        }
        let delta_s = (now_monotonic_ms.saturating_sub(self.base_monotonic_ms) / 1000) as i64;
        let unix = match self.base_unix.checked_add(delta_s) {
            Some(u) => u,
            None => {
                return false;
            },
        };
        if unix.checked_add(tz_offset_min as i64 * 60).is_none() {
            return false;
        }
        let date = civil_from_unix(unix, tz_offset_min);
        let y: u64 = if date.year < 0 {
            0
        } else {
            date.year as u64
        };
        y * 10_000 + date.month as u64 * 100 + date.day as u64 <= u32::MAX as u64
    }

    pub fn today_yyyymmdd(&self, now_monotonic_ms: u64, tz_offset_min: i16) -> (r: Option<u32>)
        requires
            today_fits(self@, now_monotonic_ms, tz_offset_min),
        ensures
            r == today_spec(self@, now_monotonic_ms, tz_offset_min),
    {
        let unix = match self.now_unix(now_monotonic_ms) {
            Some(u) => u,
            None => {
                return None;
            },
        };
        Some(yyyymmdd(civil_from_unix(unix, tz_offset_min)))
    }
}

/// The clock never runs backwards: a later monotonic reading gives a later
/// (or equal) unix time.
pub proof fn lemma_now_unix_monotonic(c: ClockView, t1: u64, t2: u64)
    requires
        t1 <= t2,
    ensures
        now_unix_spec(c, t1) is Some <==> now_unix_spec(c, t2) is Some,
        now_unix_spec(c, t1) is Some ==> now_unix_spec(c, t1).unwrap() <= now_unix_spec(
            c,
            t2,
        ).unwrap(),
{
}

/// Re-anchoring makes the clock read exactly the anchor time at the anchor
/// instant, whatever it read before.
pub proof fn lemma_anchor_reads_back(unix_time: i64, at_ms: u64)
    ensures
        now_unix_spec(
            ClockView { base_unix: unix_time, base_monotonic_ms: at_ms, synced: true },
            at_ms,
        ) == Some(unix_time as int),
{
}

} // verus!
