//! The proleptic Gregorian calendar as day numbers, and the facts about it
//! that the date conversion rests on.

use vstd::prelude::*;

verus! {

/// Gregorian leap-year rule.
pub open spec fn is_leap_year(y: int) -> bool {
    y % 4 == 0 && (y % 100 != 0 || y % 400 == 0)
}

/// Number of days in month `m` (1-based) of year `y`.
pub open spec fn days_in_month(y: int, m: int) -> int {
    if m == 2 {
        if is_leap_year(y) {
            29
        } else {
            28
        }
    } else if m == 4 || m == 6 || m == 9 || m == 11 {
        30
    } else {
        31
    }
}

/// `(y, m, d)` names a day of the calendar.
pub open spec fn valid_civil(y: int, m: int, d: int) -> bool {
    1 <= m <= 12 && 1 <= d <= days_in_month(y, m)
}

/// Days from 0000-03-01 to the first of March of year `yp`.
pub open spec fn march_year_start(yp: int) -> int {
    365 * yp + yp / 4 - yp / 100 + yp / 400
}

/// Days from the first of March to the first day of month `mp` counted
/// from March (`mp` = 0 is March, 11 is February).
pub open spec fn march_month_start(mp: int) -> int {
    (153 * mp + 2) / 5
}

/// Day number of the civil date `(y, m, d)`: days since 1970-01-01, negative
/// before it.
pub open spec fn days_from_civil(y: int, m: int, d: int) -> int {
    let yp = if m <= 2 {
        y - 1
    } else {
        y
    };
    let mp = if m > 2 {
        m - 3
    } else {
        m + 9
    };
    march_year_start(yp) + march_month_start(mp) + d - 1 - 719_468
}

/// Days from the start of a 400-year era to the start of its year `k`.
pub open spec fn era_year_start(k: int) -> int {
    365 * k + k / 4 - k / 100 + k / 400
}

/// The year of era that `civil_from_unix` computes for day-of-era `doe`.
pub open spec fn year_of_era(doe: int) -> int {
    (doe - doe / 1460 + doe / 36524 - doe / 146096) / 365
}

/// The formula for the year of a day of the 400-year era finds the year
/// whose start is the last one at or before that day.
pub proof fn lemma_year_of_era(doe: int)
    requires
        0 <= doe < 146097,
    ensures
        0 <= year_of_era(doe) <= 399,
        era_year_start(year_of_era(doe)) <= doe < era_year_start(year_of_era(doe) + 1),
{
    let yoe = year_of_era(doe);
    let a = doe / 1460;
    let b = doe / 36524;
    let c = doe / 146096;
    assert(0 <= yoe <= 399);
}


/// Length of the March-based month `mp` (0 = March, ..., 10 = January);
/// February (11) runs to the end of the March-based year.
pub open spec fn march_month_len(mp: int) -> int {
    if mp == 1 || mp == 3 || mp == 6 || mp == 8 {
        30
    } else {
        31
    }
}

/// The formula for the month of a day of the March-based year finds the
/// month whose start is the last one at or before that day.
pub proof fn lemma_month_of_year(doy: int)
    requires
        0 <= doy <= 365,
    ensures
        0 <= (5 * doy + 2) / 153 <= 11,
        march_month_start((5 * doy + 2) / 153) <= doy,
        (5 * doy + 2) / 153 < 11 ==> doy < march_month_start((5 * doy + 2) / 153)
            + march_month_len((5 * doy + 2) / 153),
        march_month_start(11) == 337,
{
    let mp = (5 * doy + 2) / 153;
    assert(0 <= mp <= 11);
    assert(march_month_start(0) == 0);
    assert(march_month_start(1) == 31);
    assert(march_month_start(2) == 61);
    assert(march_month_start(3) == 92);
    assert(march_month_start(4) == 122);
    assert(march_month_start(5) == 153);
    assert(march_month_start(6) == 184);
    assert(march_month_start(7) == 214);
    assert(march_month_start(8) == 245);
    assert(march_month_start(9) == 275);
    assert(march_month_start(10) == 306);
    assert(march_month_start(11) == 337);
}

/// The March-based year `yp` is followed by the one starting a year length
/// later; the year is 366 days long exactly when the February it ends with
/// is a leap February.
pub proof fn lemma_march_year_len(yp: int)
    ensures
        march_year_start(yp + 1) - march_year_start(yp) == 365 + (if is_leap_year(yp + 1) {
            1int
        } else {
            0int
        }),
{
}

/// Day numbers of year starts grow with the year.
pub proof fn lemma_march_year_start_monotonic(a: int, b: int)
    requires
        a <= b,
    ensures
        march_year_start(a) + 365 * (b - a) <= march_year_start(b),
    decreases b - a,
{
    if a < b {
        lemma_march_year_start_monotonic(a, b - 1);
        lemma_march_year_len(b - 1);
    }
}

/// The start of a year inside an era is the era start plus the start of the
/// year of era.
pub proof fn lemma_era_split(era: int, k: int)
    requires
        0 <= k < 400,
    ensures
        march_year_start(400 * era + k) == 146_097 * era + era_year_start(k),
{
    let y = 400 * era + k;
    assert(y / 4 == 100 * era + k / 4);
    assert(y / 100 == 4 * era + k / 100);
    assert(y / 400 == era + k / 400);
}


/// Offset of `(m, d)` from the first of March of its March-based year.
pub open spec fn march_offset(m: int, d: int) -> int {
    let mp = if m > 2 {
        m - 3
    } else {
        m + 9
    };
    march_month_start(mp) + d - 1
}

/// The March-based year that `(y, m, _)` falls in.
pub open spec fn march_year(y: int, m: int) -> int {
    if m <= 2 {
        y - 1
    } else {
        y
    }
}

proof fn lemma_offset_in_year(y: int, m: int, d: int)
    requires
        valid_civil(y, m, d),
    ensures
        0 <= march_offset(m, d) < march_year_start(march_year(y, m) + 1) - march_year_start(
            march_year(y, m),
        ),
{
    lemma_march_year_len(march_year(y, m));
    lemma_month_of_year(0);
    assert(march_month_start(0) == 0);
    assert(march_month_start(1) == 31);
    assert(march_month_start(2) == 61);
    assert(march_month_start(3) == 92);
    assert(march_month_start(4) == 122);
    assert(march_month_start(5) == 153);
    assert(march_month_start(6) == 184);
    assert(march_month_start(7) == 214);
    assert(march_month_start(8) == 245);
    assert(march_month_start(9) == 275);
    assert(march_month_start(10) == 306);
    assert(march_month_start(11) == 337);
}

/// Two calendar dates with the same day number are the same date.
pub proof fn lemma_civil_unique(y1: int, m1: int, d1: int, y2: int, m2: int, d2: int)
    requires
        valid_civil(y1, m1, d1),
        valid_civil(y2, m2, d2),
        days_from_civil(y1, m1, d1) == days_from_civil(y2, m2, d2),
    ensures
        y1 == y2,
        m1 == m2,
        d1 == d2,
{
    let yp1 = march_year(y1, m1);
    let yp2 = march_year(y2, m2);
    lemma_offset_in_year(y1, m1, d1);
    lemma_offset_in_year(y2, m2, d2);
    if yp1 < yp2 {
        lemma_march_year_start_monotonic(yp1 + 1, yp2);
    }
    if yp2 < yp1 {
        lemma_march_year_start_monotonic(yp2 + 1, yp1);
    }
    assert(yp1 == yp2);
    assert(march_offset(m1, d1) == march_offset(m2, d2));
    assert(march_month_start(0) == 0);
    assert(march_month_start(1) == 31);
    assert(march_month_start(2) == 61);
    assert(march_month_start(3) == 92);
    assert(march_month_start(4) == 122);
    assert(march_month_start(5) == 153);
    assert(march_month_start(6) == 184);
    assert(march_month_start(7) == 214);
    assert(march_month_start(8) == 245);
    assert(march_month_start(9) == 275);
    assert(march_month_start(10) == 306);
    assert(march_month_start(11) == 337);
}

/// The calendar date whose day number is `days`.
pub open spec fn civil_of_days(days: int) -> (int, int, int) {
    choose|t: (int, int, int)|
        valid_civil(t.0, t.1, t.2) && #[trigger] days_from_civil(t.0, t.1, t.2) == days
}

/// The steps of the day-number-to-date conversion: from the day of the
/// 400-year era, the year of era; from the day of the March-based year, the
/// month and day. They land on the calendar date with that day number.
pub proof fn lemma_civil_steps(
    days: int,
    era: int,
    doe: int,
    yoe: int,
    doy: int,
    mp: int,
    d: int,
    m: int,
    y: int,
)
    requires
        era == (days + 719_468) / 146_097,
        doe == (days + 719_468) % 146_097,
        yoe == year_of_era(doe),
        doy == doe - (365 * yoe + yoe / 4 - yoe / 100),
        mp == (5 * doy + 2) / 153,
        d == doy - (153 * mp + 2) / 5 + 1,
        m == (if mp < 10 {
            mp + 3
        } else {
            mp - 9
        }),
        y == yoe + era * 400 + (if m <= 2 {
            1int
        } else {
            0int
        }),
    ensures
        0 <= yoe <= 399,
        0 <= doy <= 365,
        0 <= mp <= 11,
        valid_civil(y, m, d),
        days_from_civil(y, m, d) == days,
        civil_of_days(days) == (y, m, d),
{
    lemma_year_of_era(doe);
    let yp = 400 * era + yoe;
    lemma_era_split(era, yoe);
    if yoe + 1 < 400 {
        lemma_era_split(era, yoe + 1);
    } else {
        lemma_era_split(era + 1, 0);
    }
    lemma_march_year_len(yp);
    assert(doy == doe - era_year_start(yoe));
    assert(0 <= doy < march_year_start(yp + 1) - march_year_start(yp));
    lemma_month_of_year(doy);
    assert(march_month_start(0) == 0);
    assert(march_month_start(1) == 31);
    assert(march_month_start(2) == 61);
    assert(march_month_start(3) == 92);
    assert(march_month_start(4) == 122);
    assert(march_month_start(5) == 153);
    assert(march_month_start(6) == 184);
    assert(march_month_start(7) == 214);
    assert(march_month_start(8) == 245);
    assert(march_month_start(9) == 275);
    assert(march_month_start(10) == 306);
    assert(march_month_start(11) == 337);
    assert(march_year(y, m) == yp);
    assert(valid_civil(y, m, d));
    assert(days_from_civil(y, m, d) == days);
    let w = (y, m, d);
    assert(valid_civil(w.0, w.1, w.2) && days_from_civil(w.0, w.1, w.2) == days);
    let c = civil_of_days(days);
    assert(valid_civil(c.0, c.1, c.2) && days_from_civil(c.0, c.1, c.2) == days);
    lemma_civil_unique(c.0, c.1, c.2, y, m, d);
}

/// Every day number is the day number of a calendar date.
pub proof fn lemma_civil_of_days(days: int)
    ensures
        valid_civil(civil_of_days(days).0, civil_of_days(days).1, civil_of_days(days).2),
        days_from_civil(civil_of_days(days).0, civil_of_days(days).1, civil_of_days(days).2)
            == days,
{
    let era = (days + 719_468) / 146_097;
    let doe = (days + 719_468) % 146_097;
    let yoe = year_of_era(doe);
    let doy = doe - (365 * yoe + yoe / 4 - yoe / 100);
    let mp = (5 * doy + 2) / 153;
    let d = doy - (153 * mp + 2) / 5 + 1;
    let m = if mp < 10 {
        mp + 3
    } else {
        mp - 9
    };
    let y = yoe + era * 400 + (if m <= 2 {
        1int
    } else {
        0int
    });
    lemma_civil_steps(days, era, doe, yoe, doy, mp, d, m, y);
}

/// Day 0 is 1970-01-01.
pub proof fn lemma_epoch()
    ensures
        days_from_civil(1970, 1, 1) == 0,
        civil_of_days(0) == (1970int, 1int, 1int),
{
    assert(valid_civil(1970, 1, 1));
    lemma_civil_of_days(0);
    let c = civil_of_days(0);
    lemma_civil_unique(c.0, c.1, c.2, 1970, 1, 1);
}

/// Consecutive days of the calendar have consecutive day numbers, across
/// month and year ends (including February 29 of leap years).
pub proof fn lemma_next_day(y: int, m: int, d: int)
    requires
        valid_civil(y, m, d),
    ensures
        d < days_in_month(y, m) ==> days_from_civil(y, m, d + 1) == days_from_civil(y, m, d) + 1,
        d == days_in_month(y, m) && m < 12 ==> days_from_civil(y, m + 1, 1) == days_from_civil(
            y,
            m,
            d,
        ) + 1,
        d == days_in_month(y, m) && m == 12 ==> days_from_civil(y + 1, 1, 1) == days_from_civil(
            y,
            m,
            d,
        ) + 1,
{
    lemma_march_year_len(y - 1);
    assert(march_month_start(0) == 0);
    assert(march_month_start(1) == 31);
    assert(march_month_start(2) == 61);
    assert(march_month_start(3) == 92);
    assert(march_month_start(4) == 122);
    assert(march_month_start(5) == 153);
    assert(march_month_start(6) == 184);
    assert(march_month_start(7) == 214);
    assert(march_month_start(8) == 245);
    assert(march_month_start(9) == 275);
    assert(march_month_start(10) == 306);
    assert(march_month_start(11) == 337);
}

} // verus!
