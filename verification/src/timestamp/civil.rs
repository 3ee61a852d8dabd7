//! Calendar arithmetic for the proleptic Gregorian calendar: how many days
//! separate a civil date from 1970-01-01.
use vstd::prelude::*;

verus! {

/// A leap year is divisible by 4, except century years not divisible by 400.
pub open spec fn is_leap(y: int) -> bool {
    (y % 4 == 0 && y % 100 != 0) || y % 400 == 0
}

pub open spec fn days_in_year(y: int) -> int {
    if is_leap(y) { 366 } else { 365 }
}

/// Length of month `m` (1 = January) in year `y`.
pub open spec fn month_len(y: int, m: int) -> int {
    if m == 2 {
        if is_leap(y) { 29 } else { 28 }
    } else if m == 4 || m == 6 || m == 9 || m == 11 {
        30
    } else {
        31
    }
}

/// Days from 1970-01-01 to January 1st of year `y` (negative before 1970).
pub open spec fn days_before_year(y: int) -> int
    decreases (if y >= 1970 { y - 1970 } else { 1970 - y }),
{
    if y == 1970 {
        0
    } else if y > 1970 {
        days_before_year(y - 1) + days_in_year(y - 1)
    } else {
        days_before_year(y + 1) - days_in_year(y)
    }
}

/// Days from January 1st of year `y` to the first day of month `m`.
pub open spec fn days_before_month(y: int, m: int) -> int
    decreases m,
{
    if m <= 1 {
        0
    } else {
        days_before_month(y, m - 1) + month_len(y, m - 1)
    }
}

/// Days from 1970-01-01 to the civil date `y`-`m`-`d`. A day number past
/// the end of its month simply runs on into the following month.
pub open spec fn days_from_civil_spec(y: int, m: int, d: int) -> int {
    days_before_year(y) + days_before_month(y, m) + d - 1
}

/// Number of leap years among 1..=y (a signed count for y < 0).
spec fn leaps_through(y: int) -> int {
    y / 4 - y / 100 + y / 400
}

proof fn lemma_leaps_step(y: int)
    ensures
        leaps_through(y) - leaps_through(y - 1) == (if is_leap(y) { 1int } else { 0int }),
{
    assert((y / 4 - (y - 1) / 4) == (if y % 4 == 0 { 1int } else { 0int })) by (nonlinear_arith);
    assert((y / 100 - (y - 1) / 100) == (if y % 100 == 0 { 1int } else { 0int })) by (nonlinear_arith);
    assert((y / 400 - (y - 1) / 400) == (if y % 400 == 0 { 1int } else { 0int })) by (nonlinear_arith);
    assert(y % 400 == 0 ==> y % 100 == 0 && y % 4 == 0) by (nonlinear_arith);
    assert(y % 100 == 0 ==> y % 4 == 0) by (nonlinear_arith);
}

proof fn lemma_days_before_year_closed(y: int)
    ensures
        days_before_year(y) == 365 * (y - 1970) + leaps_through(y - 1) - 477,
    decreases (if y >= 1970 { y - 1970 } else { 1970 - y }),
{
    if y == 1970 {
        assert(leaps_through(1969) == 477);
    } else if y > 1970 {
        lemma_days_before_year_closed(y - 1);
        lemma_leaps_step(y - 1);
    } else {
        lemma_days_before_year_closed(y + 1);
        lemma_leaps_step(y);
    }
}

/// Splitting a year into 400-year eras: the day count of full eras plus the
/// day count inside the era equals the direct count.
proof fn lemma_era_split(yp: int, era: int, yoe: int)
    requires
        yp == 400 * era + yoe,
        0 <= yoe < 400,
    ensures
        146097 * era + 365 * yoe + yoe / 4 - yoe / 100 == 365 * yp + leaps_through(yp),
{
    assert(yp / 4 == 100 * era + yoe / 4) by (nonlinear_arith)
        requires yp == 400 * era + yoe, 0 <= yoe < 400;
    assert(yp / 100 == 4 * era + yoe / 100) by (nonlinear_arith)
        requires yp == 400 * era + yoe, 0 <= yoe < 400;
    assert(yp / 400 == era) by (nonlinear_arith)
        requires yp == 400 * era + yoe, 0 <= yoe < 400;
}

proof fn lemma_month_table(y: int, m: int)
    requires
        1 <= m <= 12,
    ensures
        m >= 3 ==> days_before_month(y, m) == 59 + (if is_leap(y) { 1int } else { 0int }) + (153 * (m - 3) + 2) / 5,
        m == 1 ==> days_before_month(y, m) == 0,
        m == 2 ==> days_before_month(y, m) == 31,
{
    reveal_with_fuel(days_before_month, 13);
}

/// The era/day-of-era computation below agrees with the direct day count.
proof fn lemma_era_method(y: int, m: int, d: int, yp: int, era: int, yoe: int, mi: int)
    requires
        1 <= m <= 12,
        yp == (if m <= 2 { y - 1 } else { y }),
        era == yp / 400,
        yoe == yp - era * 400,
        mi == (m + 9) % 12,
    ensures
        0 <= yoe < 400,
        era * 146097 + (yoe * 365 + yoe / 4 - yoe / 100 + ((153 * mi + 2) / 5 + d - 1)) - 719468
            == days_from_civil_spec(y, m, d),
{
    lemma_era_split(yp, era, yoe);
    lemma_days_before_year_closed(y);
    lemma_month_table(y, m);
    lemma_leaps_step(y);
}

/// Days since 1970-01-01 for a proleptic Gregorian date, by the
/// era/day-of-era method (years shifted so that they start in March).
pub fn days_from_civil(y: i64, m: u32, d: u32) -> (r: i64)
    requires
        -1000 <= y <= 10000,
        1 <= m <= 12,
        1 <= d <= 31,
    ensures
        r == days_from_civil_spec(y as int, m as int, d as int),
{
    let ghost y0 = y as int;
    let y = if m <= 2 { y - 1 } else { y };
    let era: i64 = (if y >= 0 { y } else { y - 399 }) / 400;
    assert(era == y / 400);
    assert(-3 <= era <= 25);
    let year_of_era = y - era * 400;
    let month_index: i64 = (m as i64 + 9) % 12;
    proof {
        lemma_era_method(y0, m as int, d as int, y as int, era as int, year_of_era as int, month_index as int);
    }
    let day_of_year = (153 * month_index + 2) / 5 + d as i64 - 1;
    let day_of_era = year_of_era * 365 + year_of_era / 4 - year_of_era / 100 + day_of_year;
    era * 146097 + day_of_era - 719468
}

/// Day numbers of the dates a four-character year can name stay small.
pub proof fn lemma_days_range(y: int, m: int, d: int)
    requires
        -1000 <= y <= 10000,
        1 <= m <= 12,
        1 <= d <= 31,
    ensures
        -1_000_000 * 1000 < days_from_civil_spec(y, m, d) < 1_000_000 * 1000,
{
    lemma_days_before_year_closed(y);
    lemma_month_table(y, m);
}

pub open spec fn valid_date(y: int, m: int, d: int) -> bool {
    1 <= m <= 12 && 1 <= d <= month_len(y, m)
}

proof fn lemma_year_starts_increase(a: int, b: int)
    requires
        a < b,
    ensures
        days_before_year(a) + days_in_year(a) <= days_before_year(b),
    decreases b - a,
{
    lemma_days_before_year_closed(a);
    lemma_days_before_year_closed(a + 1);
    lemma_leaps_step(a);
    if a + 1 < b {
        lemma_year_starts_increase(a + 1, b);
        lemma_days_before_year_closed(b);
    }
}

proof fn lemma_month_starts_increase(y: int, a: int, b: int)
    requires
        1 <= a < b <= 13,
    ensures
        days_before_month(y, a) + month_len(y, a) <= days_before_month(y, b),
    decreases b - a,
{
    if a + 1 < b {
        lemma_month_starts_increase(y, a + 1, b);
    }
}

/// Day numbers follow calendar order: of two valid dates, the earlier one
/// has the smaller day number.
pub proof fn lemma_days_strictly_increasing(y1: int, m1: int, d1: int, y2: int, m2: int, d2: int)
    requires
        valid_date(y1, m1, d1),
        valid_date(y2, m2, d2),
        y1 < y2 || (y1 == y2 && m1 < m2) || (y1 == y2 && m1 == m2 && d1 < d2),
    ensures
        days_from_civil_spec(y1, m1, d1) < days_from_civil_spec(y2, m2, d2),
{
    lemma_month_starts_increase(y1, m1, 13);
    reveal_with_fuel(days_before_month, 13);
    if y1 < y2 {
        lemma_year_starts_increase(y1, y2);
        lemma_month_table(y2, m2);
        lemma_month_table(y1, 12);
        assert(days_before_month(y1, 13) == days_in_year(y1));
    } else if m1 < m2 {
        lemma_month_starts_increase(y1, m1, m2);
        lemma_month_table(y1, m2);
    }
}

/// Seconds since the epoch of a UTC civil date and time of day.
pub open spec fn civil_seconds(y: int, m: int, d: int, h: int, mi: int, sec: int) -> int {
    days_from_civil_spec(y, m, d) * 86400 + h * 3600 + mi * 60 + sec
}

/// Instants follow calendar order: of two valid UTC dates and times of day
/// (seconds below 60), the earlier one has fewer seconds since the epoch.
pub proof fn lemma_civil_seconds_order(
    y1: int, m1: int, d1: int, h1: int, mi1: int, s1: int,
    y2: int, m2: int, d2: int, h2: int, mi2: int, s2: int,
)
    requires
        valid_date(y1, m1, d1),
        valid_date(y2, m2, d2),
        0 <= h1 < 24 && 0 <= mi1 < 60 && 0 <= s1 < 60,
        0 <= h2 < 24 && 0 <= mi2 < 60 && 0 <= s2 < 60,
        (y1, m1, d1) != (y2, m2, d2) ==> (y1 < y2 || (y1 == y2 && m1 < m2) || (y1 == y2 && m1 == m2 && d1 < d2)),
        (y1, m1, d1) == (y2, m2, d2) ==> (h1 < h2 || (h1 == h2 && mi1 < mi2) || (h1 == h2 && mi1 == mi2 && s1 < s2)),
    ensures
        civil_seconds(y1, m1, d1, h1, mi1, s1) < civil_seconds(y2, m2, d2, h2, mi2, s2),
{
    if (y1, m1, d1) != (y2, m2, d2) {
        lemma_days_strictly_increasing(y1, m1, d1, y2, m2, d2);
        let a = days_from_civil_spec(y1, m1, d1);
        let b = days_from_civil_spec(y2, m2, d2);
        assert(a * 86400 + 86400 <= b * 86400) by (nonlinear_arith)
            requires a < b;
    }
}

/// Day numbers count the calendar's days one by one from 1970-01-01,
/// day 0: the next day of the month, the first of the next month, or
/// January 1st of the next year is always exactly one day later.
pub proof fn lemma_days_count_up(y: int, m: int, d: int)
    requires
        valid_date(y, m, d),
    ensures
        days_from_civil_spec(1970, 1, 1) == 0,
        d < month_len(y, m) ==> days_from_civil_spec(y, m, d + 1) == days_from_civil_spec(y, m, d) + 1,
        d == month_len(y, m) && m < 12 ==> days_from_civil_spec(y, m + 1, 1) == days_from_civil_spec(y, m, d) + 1,
        d == month_len(y, m) && m == 12 ==> days_from_civil_spec(y + 1, 1, 1) == days_from_civil_spec(y, m, d) + 1,
{
    reveal_with_fuel(days_before_month, 13);
    lemma_days_before_year_closed(y);
    lemma_days_before_year_closed(y + 1);
    lemma_leaps_step(y);
    lemma_month_table(y, 12);
}

/// February has 29 days exactly in leap years, and a year's months add up
/// to its length.
pub proof fn lemma_year_length(y: int)
    ensures
        month_len(y, 2) == (if is_leap(y) { 29int } else { 28int }),
        days_before_month(y, 13) == days_in_year(y),
{
    reveal_with_fuel(days_before_month, 14);
}

} // verus!
