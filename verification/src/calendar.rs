//! The Gregorian calendar, and the date of a day counted from 1970-01-01.

use vstd::prelude::*;

verus! {

/// Whether the year has a 29 February.
pub open spec fn is_leap(year: int) -> bool {
    year % 4 == 0 && (year % 100 != 0 || year % 400 == 0)
}

/// Number of days of the year.
pub open spec fn year_len(year: int) -> int {
    if is_leap(year) {
        366
    } else {
        365
    }
}

/// Number of days of the month.
pub open spec fn month_len(year: int, month: int) -> int {
    if month == 2 {
        if is_leap(year) {
            29
        } else {
            28
        }
    } else if month == 4 || month == 6 || month == 9 || month == 11 {
        30
    } else {
        31
    }
}

/// Number of days of the year before the month begins.
pub open spec fn days_before_month(year: int, month: int) -> int
    decreases month,
{
    if month <= 1 {
        0
    } else {
        days_before_month(year, month - 1) + month_len(year, month - 1)
    }
}

/// Number of days from 1970-01-01 to the first day of the year. Every year
/// counts 365 days, and one more for each leap day since.
pub open spec fn days_before_year(year: int) -> int {
    365 * (year - 1970) + ((year - 1) / 4 - 492) - ((year - 1) / 100 - 19) + ((year - 1) / 400 - 4)
}

/// Whether there is such a date.
pub open spec fn is_date(year: int, month: int, day: int) -> bool {
    1 <= month <= 12 && 1 <= day <= month_len(year, month)
}

/// Number of days from 1970-01-01 to the date.
pub open spec fn day_number(year: int, month: int, day: int) -> int {
    days_before_year(year) + days_before_month(year, month) + day - 1
}

/// A date.
#[derive(Debug, Clone, Copy, PartialEq, Eq, Structural)]
pub struct Date {
    pub year: u64,
    pub month: u8,
    pub day: u8,
}

/// 1970-01-01 is day 0, and each year begins as many days after the one before
/// as that one has.
pub proof fn law_years_add_up(year: int)
    ensures
        days_before_year(1970) == 0,
        days_before_year(year + 1) == days_before_year(year) + year_len(year),
{
    let y = year;
    assert(y / 4 == (y - 1) / 4 + if y % 4 == 0 {
        1int
    } else {
        0int
    });
    assert(y / 100 == (y - 1) / 100 + if y % 100 == 0 {
        1int
    } else {
        0int
    });
    assert(y / 400 == (y - 1) / 400 + if y % 400 == 0 {
        1int
    } else {
        0int
    });
    assert(y % 400 == 0 ==> y % 100 == 0);
    assert(y % 100 == 0 ==> y % 4 == 0);
}

/// The months of a year add up to the year.
pub proof fn law_months_add_up(year: int)
    ensures
        days_before_month(year, 12) + month_len(year, 12) == year_len(year),
        days_before_month(year, 1) == 0,
        days_before_month(year, 2) == 31,
        days_before_month(year, 3) == year_len(year) - 306,
        days_before_month(year, 4) == year_len(year) - 275,
        days_before_month(year, 5) == year_len(year) - 245,
        days_before_month(year, 6) == year_len(year) - 214,
        days_before_month(year, 7) == year_len(year) - 184,
        days_before_month(year, 8) == year_len(year) - 153,
        days_before_month(year, 9) == year_len(year) - 122,
        days_before_month(year, 10) == year_len(year) - 92,
        days_before_month(year, 11) == year_len(year) - 61,
        days_before_month(year, 12) == year_len(year) - 31,
{
    reveal_with_fuel(days_before_month, 13);
}

/// Later years begin later.
proof fn lemma_years_increase(a: int, b: int)
    requires
        a < b,
    ensures
        days_before_year(a) + year_len(a) <= days_before_year(b),
    decreases b - a,
{
    law_years_add_up(a);
    if a + 1 < b {
        lemma_years_increase(a + 1, b);
    }
}

/// A day has one date only.
pub proof fn law_date_unique(y1: int, m1: int, d1: int, y2: int, m2: int, d2: int)
    requires
        is_date(y1, m1, d1),
        is_date(y2, m2, d2),
        day_number(y1, m1, d1) == day_number(y2, m2, d2),
    ensures
        y1 == y2 && m1 == m2 && d1 == d2,
{
    law_months_add_up(y1);
    law_months_add_up(y2);
    if y1 < y2 {
        lemma_years_increase(y1, y2);
    } else if y2 < y1 {
        lemma_years_increase(y2, y1);
    }
}

proof fn lemma_centuries(a: int, b: int, c: int)
    requires
        a >= 0,
        b == (4 * a + 3) / 146097,
        c == a - (146097 * b) / 4,
    ensures
        b >= 0,
        0 <= c <= 36524,
        (146097 * b) / 4 == 36524 * b + b / 4,
        c == 36524 ==> b % 4 == 3,
{
    let q = b / 4;
    let r = b % 4;
    assert(b == 4 * q + r);
    assert(146097 * b == 4 * (36524 * b + q) + r);
    assert((146097 * b) / 4 == 36524 * b + q);
}

proof fn lemma_years(c: int, d: int, e: int)
    requires
        0 <= c <= 36524,
        d == (4 * c + 3) / 1461,
        e == c - (1461 * d) / 4,
    ensures
        0 <= d <= 99,
        0 <= e <= 365,
        (1461 * d) / 4 == 365 * d + d / 4,
        e == 365 ==> d % 4 == 3,
        e == 365 && d == 99 ==> c == 36524,
{
    let q = d / 4;
    let r = d % 4;
    assert(d == 4 * q + r);
    assert(1461 * d == 4 * (365 * d + q) + r);
    assert((1461 * d) / 4 == 365 * d + q);
}

proof fn lemma_months(e: int, m: int, day: int)
    requires
        0 <= e <= 365,
        m == (5 * e + 2) / 153,
        day == e - (153 * m + 2) / 5 + 1,
    ensures
        0 <= m <= 11,
        1 <= day <= 31,
        day <= (if m == 11 {
            29
        } else if m == 1 || m == 3 || m == 6 || m == 8 {
            30
        } else {
            31int
        }),
        day == 29 && m == 11 ==> e == 365,
{
    assert(m == 0 || m == 1 || m == 2 || m == 3 || m == 4 || m == 5 || m == 6 || m == 7 || m == 8
        || m == 9 || m == 10 || m == 11);
}

/// The first year is not before 1969 of the March calendar.
proof fn lemma_not_before_epoch(a: int, b: int, c: int, d: int)
    requires
        a >= 2_472_632,
        b == (4 * a + 3) / 146097,
        c == a - (36524 * b + b / 4),
        d == (4 * c + 3) / 1461,
        c >= 0,
    ensures
        100 * b + d >= 4800 + 1969,
{
    assert(b >= 67);
    if b == 67 {
        assert(c >= 25508);
        assert(d >= 69);
    }
}

/// A day of the March calendar is a date of the calendar.
proof fn lemma_date(b: int, d: int, e: int, m: int, day: int, year: int, month: int)
    requires
        b >= 0,
        0 <= d <= 99,
        0 <= e <= 365,
        e == 365 ==> d % 4 == 3,
        e == 365 && d == 99 ==> b % 4 == 3,
        m == (5 * e + 2) / 153,
        day == e - (153 * m + 2) / 5 + 1,
        year == 100 * b + d - 4800 + m / 10,
        month == m + 3 - 12 * (m / 10),
    ensures
        is_date(year, month, day),
        day_number(year, month, day) == 36524 * b + b / 4 + 365 * d + d / 4 + e - 2_440_588
            - 32_044,
{
    let y0 = 100 * b + d - 4800;
    lemma_months(e, m, day);
    lemma_march_years(y0, b, d);
    law_months_add_up(y0);
    law_months_add_up(y0 + 1);
    law_years_add_up(y0);
    if e == 365 {
        assert((y0 + 1) % 4 == 0);
        if d == 99 {
            assert((y0 + 1) % 400 == 0);
        } else {
            assert((y0 + 1) % 100 != 0);
        }
    }
    if m == 11 && day == 29 {
        assert(is_leap(y0 + 1));
    }
    assert(m == 0 || m == 1 || m == 2 || m == 3 || m == 4 || m == 5 || m == 6 || m == 7 || m == 8
        || m == 9 || m == 10 || m == 11);
}

/// The date of the day `days` after 1970-01-01.
pub fn date_of(days: u64) -> (date: Date)
    requires
        days <= 0x0100_0000_0000_0000,
    ensures
        is_date(date.year as int, date.month as int, date.day as int),
        day_number(date.year as int, date.month as int, date.day as int) == days,
        date.year >= 1970,
{
    // Years are taken to begin in March, so that the leap day comes last.
    let jdn: u64 = days + 2_440_588;
    let a: u64 = jdn + 32_044;
    let b: u64 = (4 * a + 3) / 146_097;
    proof { lemma_centuries(a as int, b as int, a - (146097 * b) / 4); }
    let c: u64 = a - (146_097 * b) / 4;
    let d: u64 = (4 * c + 3) / 1461;
    proof { lemma_years(c as int, d as int, c - (1461 * d) / 4); }
    let e: u64 = c - (1461 * d) / 4;
    let m: u64 = (5 * e + 2) / 153;
    proof {
        lemma_months(e as int, m as int, e - (153 * m + 2) / 5 + 1);
        lemma_not_before_epoch(a as int, b as int, c as int, d as int);
    }
    let day: u8 = (e - (153 * m + 2) / 5 + 1) as u8;
    let month: u8 = (m + 3 - 12 * (m / 10)) as u8;
    let year: u64 = 100 * b + d - 4800 + m / 10;
    proof {
        lemma_date(
            b as int,
            d as int,
            e as int,
            m as int,
            day as int,
            year as int,
            month as int,
        );
        if year < 1970 {
            law_months_add_up(1969);
        }
    }
    Date { year, month, day }
}

/// Where the March calendar's count of years and the calendar's agree.
proof fn lemma_march_years(y0: int, b: int, d: int)
    requires
        b >= 0,
        0 <= d <= 99,
        y0 == 100 * b + d - 4800,
    ensures
        36524 * b + b / 4 + 365 * d + d / 4 == days_before_year(y0) + year_len(y0) - 306 + 2_440_588
            + 32_044,
{
    let y = 100 * b + d;
    assert(y / 4 == 25 * b + d / 4);
    assert(y / 100 == b);
    assert(y / 400 == b / 4);
    law_years_add_up(y0);
    assert((y0 + 1 - 1) / 4 == y / 4 - 1200);
    assert((y0 + 1 - 1) / 100 == y / 100 - 48);
    assert((y0 + 1 - 1) / 400 == y / 400 - 12);
}

/// The lengths of the months: April, June, September and November have 30 days,
/// February 28, or 29 in a year that 4 divides, but for the centuries that 400
/// does not divide, and all others 31.
pub proof fn law_month_lengths(year: int)
    ensures
        month_len(year, 1) == 31 && month_len(year, 3) == 31 && month_len(year, 5) == 31,
        month_len(year, 7) == 31 && month_len(year, 8) == 31 && month_len(year, 10) == 31,
        month_len(year, 12) == 31 && month_len(year, 4) == 30 && month_len(year, 6) == 30,
        month_len(year, 9) == 30 && month_len(year, 11) == 30,
        year % 400 == 0 ==> month_len(year, 2) == 29,
        year % 100 == 0 && year % 400 != 0 ==> month_len(year, 2) == 28,
        year % 4 == 0 && year % 100 != 0 ==> month_len(year, 2) == 29,
        year % 4 != 0 ==> month_len(year, 2) == 28,
{
}

/// The dates are numbered one after the other from 1970-01-01: each day counts
/// one more than the day before, across months and years.
pub proof fn law_days_count_up(year: int, month: int, day: int)
    requires
        is_date(year, month, day),
    ensures
        day_number(1970, 1, 1) == 0,
        day < month_len(year, month) ==> is_date(year, month, day + 1) && day_number(
            year,
            month,
            day + 1,
        ) == day_number(year, month, day) + 1,
        day == month_len(year, month) && month < 12 ==> is_date(year, month + 1, 1) && day_number(
            year,
            month + 1,
            1,
        ) == day_number(year, month, day) + 1,
        day == month_len(year, month) && month == 12 ==> is_date(year + 1, 1, 1) && day_number(
            year + 1,
            1,
            1,
        ) == day_number(year, month, day) + 1,
{
    law_years_add_up(1970);
    law_years_add_up(year);
    law_months_add_up(year);
    law_months_add_up(year + 1);
    law_months_add_up(1970);
}

} // verus!
