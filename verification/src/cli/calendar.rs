//! Days and dates of the Gregorian calendar.

use vstd::prelude::*;

verus! {

/// A leap year.
pub open spec fn is_leap(year: int) -> bool {
    year % 4 == 0 && (year % 100 != 0 || year % 400 == 0)
}

/// How many days a month has.
pub open spec fn days_in_month(year: int, month: int) -> int {
    if month == 2 {
        if is_leap(year) {
            29
        } else {
            28
        }
    } else if month == 4 || month == 6 || month == 9 || month == 11 {
        30
    } else {
        31
    }
}

/// How many days lie between the first of January of year 1 and that of a year.
pub open spec fn days_before_year(year: int) -> int {
    365 * (year - 1) + (year - 1) / 4 - (year - 1) / 100 + (year - 1) / 400
}

/// How many days of a year lie before a month.
pub open spec fn days_before_month(year: int, month: int) -> int
    decreases month,
{
    if month <= 1 {
        0
    } else {
        days_before_month(year, month - 1) + days_in_month(year, month - 1)
    }
}

/// A date that exists.
pub open spec fn is_date(year: int, month: int, day: int) -> bool {
    1 <= month <= 12 && 1 <= day <= days_in_month(year, month)
}

/// How many days a date lies after the first of January 1970.
pub open spec fn day_number(year: int, month: int, day: int) -> int {
    days_before_year(year) + days_before_month(year, month) + day - 1 - 719162
}

pub proof fn lemma_days_before_month(year: int)
    ensures
        days_before_month(year, 1) == 0,
        days_before_month(year, 2) == 31,
        ({
            let leap: int = if is_leap(year) {
                1
            } else {
                0
            };
            &&& days_before_month(year, 3) == 59 + leap
            &&& days_before_month(year, 4) == 90 + leap
            &&& days_before_month(year, 5) == 120 + leap
            &&& days_before_month(year, 6) == 151 + leap
            &&& days_before_month(year, 7) == 181 + leap
            &&& days_before_month(year, 8) == 212 + leap
            &&& days_before_month(year, 9) == 243 + leap
            &&& days_before_month(year, 10) == 273 + leap
            &&& days_before_month(year, 11) == 304 + leap
            &&& days_before_month(year, 12) == 334 + leap
        }),
{
    reveal_with_fuel(days_before_month, 13);
}

proof fn lemma_next_year(year: int)
    ensures
        days_before_year(year + 1) == days_before_year(year) + if is_leap(year) {
            366int
        } else {
            365int
        },
{
    let y = year - 1;
    assert(year / 4 == y / 4 + if year % 4 == 0 { 1int } else { 0int });
    assert(year / 100 == y / 100 + if year % 100 == 0 { 1int } else { 0int });
    assert(year / 400 == y / 400 + if year % 400 == 0 { 1int } else { 0int });
    assert(year % 400 == 0 ==> year % 100 == 0);
    assert(year % 100 == 0 ==> year % 4 == 0);
}

/// Within 400 years that begin with a first of March: the year that a day falls
/// in, and where that year begins.
proof fn lemma_year_of_era(doe: int)
    requires
        0 <= doe <= 146096,
    ensures
        ({
            let yoe = (doe - doe / 1460 + doe / 36524 - doe / 146096) / 365;
            let start = 365 * yoe + yoe / 4 - yoe / 100;
            &&& 0 <= yoe <= 399
            &&& start <= doe <= start + 365
            &&& doe == start + 365 ==> yoe % 4 == 3 && (yoe % 100 != 99 || yoe == 399)
        }),
{
    let century = doe / 36524;
    let cycle = (doe - 36524 * century) / 1461;
    let rest = doe - 36524 * century - 1461 * cycle;
    let yoe = (doe - doe / 1460 + doe / 36524 - doe / 146096) / 365;
    assert(0 <= century <= 4);
    assert(0 <= cycle <= 24);
    assert(0 <= rest <= 1460);
    if doe < 146096 {
        assert(century <= 3);
        let extra: int = if 24 * century + cycle + rest >= 1460 {
            1
        } else {
            0
        };
        assert(doe / 1460 == 25 * century + cycle + extra);
        let k: int = if rest >= 1095 {
            3
        } else {
            rest / 365
        };
        assert((rest - extra) / 365 == k);
        assert(yoe == 100 * century + 4 * cycle + k);
        assert(yoe / 4 == 25 * century + cycle);
        assert(yoe / 100 == century);
    }
}

/// Within a year that begins with a first of March: the month and the day of it.
/// Months are counted from March.
proof fn lemma_month_of_year(doy: int)
    requires
        0 <= doy <= 365,
    ensures
        ({
            let mp = (5 * doy + 2) / 153;
            let before = (153 * mp + 2) / 5;
            &&& 0 <= mp <= 11
            &&& 0 <= doy - before <= 30
            &&& mp == 1 || mp == 3 || mp == 6 || mp == 8 ==> doy - before <= 29
            &&& mp == 11 ==> doy - before <= 28 && (doy - before == 28 ==> doy == 365)
        }),
{
    let mp = (5 * doy + 2) / 153;
    assert(mp == 0 || mp == 1 || mp == 2 || mp == 3 || mp == 4 || mp == 5 || mp == 6 || mp == 7
        || mp == 8 || mp == 9 || mp == 10 || mp == 11);
}

/// A year that begins with a first of March: its days, and whether it ends with
/// a leap day.
proof fn lemma_march_year(era: int, yoe: int)
    requires
        0 <= yoe <= 399,
    ensures
        ({
            let y = yoe + era * 400;
            &&& days_before_year(y + 1) == era * 146097 + 365 * yoe + yoe / 4 - yoe / 100
            &&& yoe % 4 == 3 && (yoe % 100 != 99 || yoe == 399) ==> is_leap(y + 1)
        }),
{
    let y = yoe + era * 400;
    assert(y / 4 == yoe / 4 + 100 * era);
    assert(y / 100 == yoe / 100 + 4 * era);
    assert(y / 400 == era);
    assert(yoe % 4 == 3 ==> (y + 1) % 4 == 0);
    assert(yoe % 100 != 99 ==> (y + 1) % 100 != 0);
    assert(yoe == 399 ==> (y + 1) % 400 == 0);
}

/// The date of a day of a year that begins with a first of March.
proof fn lemma_march_date(y: int, doy: int)
    requires
        0 <= doy <= 365,
        doy == 365 ==> is_leap(y + 1),
    ensures
        ({
            let mp = (5 * doy + 2) / 153;
            let d = doy - (153 * mp + 2) / 5 + 1;
            let m = if mp < 10 {
                mp + 3
            } else {
                mp - 9
            };
            let year = if m <= 2 {
                y + 1
            } else {
                y
            };
            &&& is_date(year, m, d)
            &&& day_number(year, m, d) == days_before_year(y + 1) + doy - 719468
        }),
{
    lemma_month_of_year(doy);
    lemma_next_year(y);
    lemma_days_before_month(y);
    lemma_days_before_month(y + 1);
    let mp = (5 * doy + 2) / 153;
    assert(mp == 0 || mp == 1 || mp == 2 || mp == 3 || mp == 4 || mp == 5 || mp == 6 || mp == 7
        || mp == 8 || mp == 9 || mp == 10 || mp == 11);
}

/// The date of a day, given by how many days it lies after the first of January
/// 1970: year, month and day.
pub fn days_to_ymd(days: i64) -> (r: (i64, i64, i64))
    requires
        days <= i64::MAX - 719468,
    ensures
        is_date(r.0 as int, r.1 as int, r.2 as int),
        day_number(r.0 as int, r.1 as int, r.2 as int) == days,
{
    let shifted: i64 = days + 719468;
    let era: i64 = if shifted >= 0 {
        shifted / 146097
    } else {
        -((-(shifted + 1)) / 146097) - 1
    };
    let doe: i64 = shifted - era * 146097;
    assert(0 <= doe <= 146096);
    proof {
        lemma_year_of_era(doe as int);
    }
    let yoe: i64 = (doe - doe / 1460 + doe / 36524 - doe / 146096) / 365;
    let y: i64 = yoe + era * 400;
    let doy: i64 = doe - (365 * yoe + yoe / 4 - yoe / 100);
    proof {
        lemma_march_year(era as int, yoe as int);
        lemma_month_of_year(doy as int);
        lemma_march_date(y as int, doy as int);
    }
    let mp: i64 = (5 * doy + 2) / 153;
    let d: i64 = doy - (153 * mp + 2) / 5 + 1;
    let m: i64 = if mp < 10 {
        mp + 3
    } else {
        mp - 9
    };
    let year: i64 = if m <= 2 {
        y + 1
    } else {
        y
    };
    (year, m, d)
}

proof fn lemma_years_in_order(a: int, b: int)
    requires
        a <= b,
    ensures
        days_before_year(a) <= days_before_year(b),
    decreases b - a,
{
    if a < b {
        lemma_years_in_order(a, b - 1);
        lemma_next_year(b - 1);
    }
}

proof fn lemma_months_in_order(year: int, a: int, b: int)
    requires
        1 <= a <= b,
    ensures
        days_before_month(year, a) <= days_before_month(year, b),
    decreases b - a,
{
    if a < b {
        lemma_months_in_order(year, a, b - 1);
    }
}

proof fn lemma_date_in_year(year: int, month: int, day: int)
    requires
        is_date(year, month, day),
    ensures
        days_before_year(year) <= day_number(year, month, day) + 719162 < days_before_year(
            year + 1,
        ),
{
    lemma_next_year(year);
    lemma_days_before_month(year);
    lemma_months_in_order(year, 1, month);
    lemma_months_in_order(year, month, 12);
    if month < 12 {
        lemma_months_in_order(year, month + 1, 12);
    }
}

/// No two dates are the same day, so a day has no more than one date.
pub proof fn law_one_date_per_day(y1: int, m1: int, d1: int, y2: int, m2: int, d2: int)
    requires
        is_date(y1, m1, d1),
        is_date(y2, m2, d2),
        day_number(y1, m1, d1) == day_number(y2, m2, d2),
    ensures
        y1 == y2 && m1 == m2 && d1 == d2,
{
    lemma_date_in_year(y1, m1, d1);
    lemma_date_in_year(y2, m2, d2);
    if y1 < y2 {
        lemma_years_in_order(y1 + 1, y2);
    } else if y2 < y1 {
        lemma_years_in_order(y2 + 1, y1);
    } else if m1 < m2 {
        lemma_months_in_order(y1, m1 + 1, m2);
    } else if m2 < m1 {
        lemma_months_in_order(y1, m2 + 1, m1);
    }
}

} // verus!
