//! The civil calendar: which day of which month of which year a day number
//! is. Day 0 is 1 January 1970; the calendar is the Gregorian one, carried
//! backwards and forwards without end.

use vstd::prelude::*;

verus! {

/// Whether year `y` has a 29 February.
pub open spec fn is_leap_year(y: int) -> bool {
    y % 4 == 0 && (y % 100 != 0 || y % 400 == 0)
}

/// The number of days of month `m` in year `y`.
pub open spec fn days_in_month(y: int, m: int) -> int {
    if m == 2 {
        if is_leap_year(y) {
            29
        } else {
            28
        }
    } else if m == 4 || m == 6 || m == 9 || m == 11 {
        30
    } else {
        31
    }
}

/// Whether day `d` of month `m` of year `y` is a date of the calendar.
pub open spec fn is_date(y: int, m: int, d: int) -> bool {
    1 <= m <= 12 && 1 <= d <= days_in_month(y, m)
}

/// The number of leap years from year 1 up to, and without, year `y`; for
/// `y` below 1 the count is negative.
pub open spec fn leap_years_before(y: int) -> int {
    (y - 1) / 4 - (y - 1) / 100 + (y - 1) / 400
}

/// The number of days from 1 January 1970 to 1 January of year `y`.
pub open spec fn days_before_year(y: int) -> int {
    365 * (y - 1970) + leap_years_before(y) - leap_years_before(1970)
}

/// The number of days of year `y` in front of its month `m`.
pub open spec fn days_before_month(y: int, m: int) -> int
    decreases m,
{
    if m <= 1 {
        0
    } else {
        days_before_month(y, m - 1) + days_in_month(y, m - 1)
    }
}

/// The day number of day `d` of month `m` of year `y`.
pub open spec fn days_from_civil(y: int, m: int, d: int) -> int {
    days_before_year(y) + days_before_month(y, m) + d - 1
}

/// The date with day number `days`.
pub open spec fn date_of_day(days: int) -> (int, int, int) {
    choose|date: (int, int, int)|
        is_date(date.0, date.1, date.2) && days_from_civil(date.0, date.1, date.2) == days
}

/// The days in front of each month, written out.
pub proof fn lemma_days_before_month(y: int, m: int)
    requires
        1 <= m <= 13,
    ensures
        days_before_month(y, m) == (if m == 1 {
            0int
        } else if m == 2 {
            31
        } else if m == 3 {
            59
        } else if m == 4 {
            90
        } else if m == 5 {
            120
        } else if m == 6 {
            151
        } else if m == 7 {
            181
        } else if m == 8 {
            212
        } else if m == 9 {
            243
        } else if m == 10 {
            273
        } else if m == 11 {
            304
        } else if m == 12 {
            334
        } else {
            365
        }) + if m > 2 && is_leap_year(y) {
            1int
        } else {
            0
        },
{
    reveal_with_fuel(days_before_month, 14);
}

/// A year has 365 days, and one more if it is a leap year.
pub proof fn lemma_year_length(y: int)
    ensures
        days_before_year(y + 1) == days_before_year(y) + 365 + if is_leap_year(y) {
            1int
        } else {
            0
        },
        days_before_month(y, 13) == 365 + if is_leap_year(y) {
            1int
        } else {
            0
        },
{
    lemma_days_before_month(y, 13);
}

/// Later years begin later, by at least 365 days for each year.
pub proof fn lemma_years_in_order(y1: int, y2: int)
    requires
        y1 <= y2,
    ensures
        days_before_year(y2) - days_before_year(y1) >= 365 * (y2 - y1),
    decreases y2 - y1,
{
    if y1 < y2 {
        lemma_years_in_order(y1, y2 - 1);
        lemma_year_length(y2 - 1);
    }
}

/// Within a year, later months begin later, and none begins before the one
/// in front of it has ended.
pub proof fn lemma_months_in_order(y: int, m1: int, m2: int)
    requires
        1 <= m1 < m2 <= 13,
    ensures
        days_before_month(y, m1) + days_in_month(y, m1) <= days_before_month(y, m2),
{
    lemma_days_before_month(y, m1);
    lemma_days_before_month(y, m2);
}

/// A date's day number lies within its year.
pub proof fn lemma_day_within_year(y: int, m: int, d: int)
    requires
        is_date(y, m, d),
    ensures
        days_before_year(y) <= days_from_civil(y, m, d) < days_before_year(y + 1),
{
    lemma_days_before_month(y, m);
    lemma_year_length(y);
}

/// No two dates share a day number.
pub proof fn lemma_days_from_civil_injective(y1: int, m1: int, d1: int, y2: int, m2: int, d2: int)
    requires
        is_date(y1, m1, d1),
        is_date(y2, m2, d2),
        days_from_civil(y1, m1, d1) == days_from_civil(y2, m2, d2),
    ensures
        y1 == y2,
        m1 == m2,
        d1 == d2,
{
    lemma_day_within_year(y1, m1, d1);
    lemma_day_within_year(y2, m2, d2);
    if y1 < y2 {
        lemma_years_in_order(y1 + 1, y2);
    } else if y2 < y1 {
        lemma_years_in_order(y2 + 1, y1);
    } else if m1 < m2 {
        lemma_months_in_order(y1, m1, m2);
    } else if m2 < m1 {
        lemma_months_in_order(y1, m2, m1);
    }
}

/// A date is the date of its day number.
pub proof fn lemma_date_of_day(y: int, m: int, d: int)
    requires
        is_date(y, m, d),
    ensures
        date_of_day(days_from_civil(y, m, d)) == (y, m, d),
{
    let days = days_from_civil(y, m, d);
    let found = date_of_day(days);
    let witness = (y, m, d);
    assert(is_date(witness.0, witness.1, witness.2) && days_from_civil(
        witness.0,
        witness.1,
        witness.2,
    ) == days);
    lemma_days_from_civil_injective(y, m, d, found.0, found.1, found.2);
}

/// The year within its 400-year era that holds day `doe` of the era, where
/// years begin on 1 March.
pub open spec fn year_of_era(doe: int) -> int {
    (doe - doe / 1460 + doe / 36524 - doe / 146096) / 365
}

/// The number of days of an era in front of its year `yoe`.
pub open spec fn days_before_year_of_era(yoe: int) -> int {
    365 * yoe + yoe / 4 - yoe / 100
}

/// Each day of an era lies in the year that `year_of_era` gives, and the
/// 366th day of a year exists only where the year ends with a 29 February.
pub proof fn lemma_year_of_era(doe: int)
    requires
        0 <= doe <= 146096,
    ensures
        0 <= year_of_era(doe) <= 399,
        0 <= doe - days_before_year_of_era(year_of_era(doe)) <= 365,
        doe - days_before_year_of_era(year_of_era(doe)) == 365 ==> year_of_era(doe) % 4 == 3 && (
        year_of_era(doe) % 100 != 99 || year_of_era(doe) == 399),
{
}

/// The number of days from 1 January 1970 to 1 March of year `400 * era +
/// yoe`.
pub proof fn lemma_first_of_march(era: int, yoe: int)
    requires
        0 <= yoe <= 399,
    ensures
        days_from_civil(400 * era + yoe, 3, 1) == 146097 * era + days_before_year_of_era(yoe)
            - 719468,
        is_leap_year(400 * era + yoe + 1) <==> yoe % 4 == 3 && (yoe % 100 != 99 || yoe == 399),
{
    let y = 400 * era + yoe;
    lemma_days_before_month(y, 3);
    assert(y / 4 == 100 * era + yoe / 4);
    assert(y / 100 == 4 * era + yoe / 100);
    assert(y / 400 == era);
    assert(leap_years_before(y + 1) == leap_years_before(y) + if is_leap_year(y) {
        1int
    } else {
        0
    });
}

/// A day of a year that begins on 1 March, as month and day: the month that
/// `(5 * doy + 2) / 153` counts from March, and the day within it.
pub proof fn lemma_month_of_year(y: int, doy: int)
    requires
        0 <= doy <= 365,
        doy == 365 ==> is_leap_year(y + 1),
    ensures
        ({
            let mp = (5 * doy + 2) / 153;
            let d = doy - (153 * mp + 2) / 5 + 1;
            let m = if mp < 10 {
                mp + 3
            } else {
                mp - 9
            };
            let year = if m <= 2 {
                y + 1
            } else {
                y
            };
            &&& 0 <= mp <= 11
            &&& is_date(year, m, d)
            &&& days_from_civil(year, m, d) == days_from_civil(y, 3, 1) + doy
        }),
{
    let mp = (5 * doy + 2) / 153;
    let m = if mp < 10 {
        mp + 3
    } else {
        mp - 9
    };
    let year = if m <= 2 {
        y + 1
    } else {
        y
    };
    lemma_days_before_month(y, 3);
    lemma_days_before_month(year, m);
    lemma_year_length(y);
}

/// The most days, in either direction from day 0, that `civil_from_days`
/// takes.
pub const DAY_LIMIT: i128 = 0x1_0000_0000_0000_0000_0000_0000_0000;

/// The date with day number `days`.
pub fn civil_from_days(days: i128) -> (date: (i128, u32, u32))
    requires
        -DAY_LIMIT <= days <= DAY_LIMIT,
    ensures
        is_date(date.0 as int, date.1 as int, date.2 as int),
        days_from_civil(date.0 as int, date.1 as int, date.2 as int) == days,
        (date.0 as int, date.1 as int, date.2 as int) == date_of_day(days as int),
{
    let a = days + 719468;
    let era = (if a >= 0 {
        a
    } else {
        a - 146096
    }) / 146097;
    let doe = a - era * 146097;
    let yoe = (doe - doe / 1460 + doe / 36524 - doe / 146096) / 365;
    let doy = doe - (365 * yoe + yoe / 4 - yoe / 100);
    proof {
        assert(era == (a as int) / 146097);
        lemma_year_of_era(doe as int);
        lemma_first_of_march(era as int, yoe as int);
        lemma_month_of_year(400 * era + yoe, doy as int);
    }
    let mp = (5 * doy + 2) / 153;
    let d = doy - (153 * mp + 2) / 5 + 1;
    let m = if mp < 10 {
        mp + 3
    } else {
        mp - 9
    };
    let y = yoe + era * 400 + if m <= 2 {
        1
    } else {
        0
    };
    proof {
        lemma_date_of_day(y as int, m as int, d as int);
    }
    (y, m as u32, d as u32)
}

} // verus!
