//! The date and time of a count of seconds since the beginning of 1970.

use crate::text::{
    decimal, digits_value, padded, padded_writes_the_number, put_decimal, put_padded,
};
use vstd::arithmetic::power::pow;
use vstd::prelude::*;
use vstd::string::StringExecFns;

verus! {

/// Whether `y` is a leap year.
pub open spec fn leap(y: int) -> bool {
    y % 4 == 0 && (y % 100 != 0 || y % 400 == 0)
}

/// The days of the year `y`.
pub open spec fn year_len(y: int) -> int {
    if leap(y) {
        366
    } else {
        365
    }
}

/// The days of the month `m` (from 0 on) of the year `y`.
pub open spec fn month_len(y: int, m: int) -> int {
    if m == 1 {
        if leap(y) {
            29
        } else {
            28
        }
    } else if m == 3 || m == 5 || m == 8 || m == 10 {
        30
    } else {
        31
    }
}

/// The days from the beginning of 1970 to that of the year `y`.
pub open spec fn days_before_year(y: int) -> int
    decreases y - 1970,
{
    if y <= 1970 {
        0
    } else {
        days_before_year(y - 1) + year_len(y - 1)
    }
}

/// The days from the beginning of the year `y` to that of its month `m` (from 0 on).
pub open spec fn days_before_month(y: int, m: int) -> int
    decreases m,
{
    if m <= 0 {
        0
    } else {
        days_before_month(y, m - 1) + month_len(y, m - 1)
    }
}

/// A date: the month and the day count from 0.
pub struct Date {
    pub year: int,
    pub month: int,
    pub day: int,
}

/// Whether `d` is the date that many days after the beginning of 1970.
pub open spec fn is_date(days: int, d: Date) -> bool {
    &&& d.year >= 1970
    &&& 0 <= d.month < 12
    &&& 0 <= d.day < month_len(d.year, d.month)
    &&& days == days_before_year(d.year) + days_before_month(d.year, d.month) + d.day
}

/// `n` in decimal, with zeros in front where it has fewer than four digits.
pub open spec fn four_digits(n: nat) -> Seq<char> {
    if n < 10000 {
        padded(n, 4)
    } else {
        decimal(n)
    }
}

/// The date and the seconds of a day as `YYYYMMDD_HHMMSS`.
pub open spec fn stamp(d: Date, second: int) -> Seq<char> {
    four_digits(d.year as nat) + padded((d.month + 1) as nat, 2) + padded((d.day + 1) as nat, 2)
        + "_"@ + padded((second / 3600) as nat, 2) + padded((second % 3600 / 60) as nat, 2)
        + padded((second % 60) as nat, 2)
}

proof fn year_starts_grow(a: int, b: int)
    requires
        1970 <= a <= b,
    ensures
        days_before_year(a) + 365 * (b - a) <= days_before_year(b),
    decreases b - a,
{
    if a < b {
        year_starts_grow(a, b - 1);
    }
}

proof fn month_starts_grow(y: int, a: int, b: int)
    requires
        0 <= a <= b,
    ensures
        days_before_month(y, a) <= days_before_month(y, b),
    decreases b - a,
{
    if a < b {
        month_starts_grow(y, a, b - 1);
    }
}

proof fn months_fill_the_year(y: int)
    ensures
        days_before_month(y, 12) == year_len(y),
{
    reveal_with_fuel(days_before_month, 13);
}

/// Every day has one date only.
pub proof fn date_is_unique(days: int, a: Date, b: Date)
    requires
        is_date(days, a),
        is_date(days, b),
    ensures
        a == b,
{
    months_fill_the_year(a.year);
    months_fill_the_year(b.year);
    month_starts_grow(a.year, a.month + 1, 12);
    month_starts_grow(b.year, b.month + 1, 12);
    month_starts_grow(a.year, 0, a.month);
    month_starts_grow(b.year, 0, b.month);
    if a.year < b.year {
        year_starts_grow(a.year + 1, b.year);
    } else if b.year < a.year {
        year_starts_grow(b.year + 1, a.year);
    } else if a.month < b.month {
        month_starts_grow(a.year, a.month + 1, b.month);
    } else if b.month < a.month {
        month_starts_grow(a.year, b.month + 1, a.month);
    }
}

/// The days before a year: 365 for each year since 1970 and one for each leap year among them. Of
/// the years from 1 to `n` every fourth is a leap year, but not every hundredth, and yet every four
/// hundredth.
pub proof fn years_have_their_leap_days(y: int)
    requires
        y >= 1970,
    ensures
        days_before_year(y) == 365 * (y - 1970) + ((y - 1) / 4 - (y - 1) / 100 + (y - 1) / 400) - (1969int
            / 4 - 1969int / 100 + 1969int / 400),
    decreases y,
{
    if y > 1970 {
        years_have_their_leap_days(y - 1);
        let p = y - 1;
        assert(p / 4 - (p - 1) / 4 == (if p % 4 == 0 {
            1int
        } else {
            0
        }));
        assert(p / 100 - (p - 1) / 100 == (if p % 100 == 0 {
            1int
        } else {
            0
        }));
        assert(p / 400 - (p - 1) / 400 == (if p % 400 == 0 {
            1int
        } else {
            0
        }));
    }
}

/// The days before a month, by the rule that the lengths of the months follow: with the months
/// counted from 1, `275 * m / 9 - 30`, less one day from March on in a leap year and two in others.
pub proof fn months_follow_their_rule(y: int, m: int)
    requires
        1 <= m <= 12,
    ensures
        days_before_month(y, m - 1) == 275 * m / 9 - 30 - (if m < 3 {
            0int
        } else if year_len(y) == 366 {
            1
        } else {
            2
        }),
        days_before_month(y, 12) == year_len(y),
{
    reveal_with_fuel(days_before_month, 13);
}

/// The stamp of a time gives it back: the first eight characters write year, month and day, and
/// the last six the hours, minutes and seconds that have passed of the day.
pub proof fn stamp_reads_back(d: Date, second: int)
    requires
        1970 <= d.year < 10000,
        0 <= d.month < 12,
        0 <= d.day < 31,
        0 <= second < 86400,
    ensures
        ({
            let s = stamp(d, second);
            let (h, m, t) = (
                digits_value(s.subrange(9, 11)),
                digits_value(s.subrange(11, 13)),
                digits_value(s.subrange(13, 15)),
            );
            &&& s.len() == 15
            &&& digits_value(s.subrange(0, 4)) == d.year
            &&& digits_value(s.subrange(4, 6)) == d.month + 1
            &&& digits_value(s.subrange(6, 8)) == d.day + 1
            &&& s[8] == '_'
            &&& h * 3600 + m * 60 + t == second
            &&& 0 <= m < 60
            &&& 0 <= t < 60
        }),
{
    assert(pow(10, 2) == 100 && pow(10, 4) == 10000) by {
        reveal_with_fuel(pow, 5);
    }
    reveal_strlit("_");
    let (h, m, t) = ((second / 3600) as nat, (second % 3600 / 60) as nat, (second % 60) as nat);
    padded_writes_the_number(d.year as nat, 4);
    padded_writes_the_number((d.month + 1) as nat, 2);
    padded_writes_the_number((d.day + 1) as nat, 2);
    padded_writes_the_number(h, 2);
    padded_writes_the_number(m, 2);
    padded_writes_the_number(t, 2);
    let s = stamp(d, second);
    assert(s.subrange(0, 4) =~= padded(d.year as nat, 4));
    assert(s.subrange(4, 6) =~= padded((d.month + 1) as nat, 2));
    assert(s.subrange(6, 8) =~= padded((d.day + 1) as nat, 2));
    assert(s.subrange(9, 11) =~= padded(h, 2));
    assert(s.subrange(11, 13) =~= padded(m, 2));
    assert(s.subrange(13, 15) =~= padded(t, 2));
    assert(second % 3600 % 60 == second % 60);
}

fn is_leap(y: u64) -> (r: bool)
    ensures
        r == leap(y as int),
{
    y % 4 == 0 && (y % 100 != 0 || y % 400 == 0)
}

fn month_days(y: u64, m: u64) -> (r: u64)
    ensures
        r == month_len(y as int, m as int),
{
    if m == 1 {
        if is_leap(y) {
            29
        } else {
            28
        }
    } else if m == 3 || m == 5 || m == 8 || m == 10 {
        30
    } else {
        31
    }
}

/// The date and time of `now`, in seconds since the beginning of 1970, as `YYYYMMDD_HHMMSS`.
pub fn chrono_timestamp(now: u64) -> (r: String)
    ensures
        exists|d: Date|
            is_date(now as int / 86400, d) && r@ == #[trigger] stamp(d, now as int % 86400),
{
    let days: u64 = now / 86400;
    let time_of_day: u64 = now % 86400;

    let mut y: u64 = 1970;
    let mut remaining_days: u64 = days;
    loop
        invariant_except_break
            remaining_days <= days,
        invariant
            days <= 0xFFFF_FFFF_FFFF,
            1970 <= y <= 1970 + days,
            days == days_before_year(y as int) + remaining_days,
        ensures
            remaining_days < year_len(y as int),
        decreases remaining_days,
    {
        let days_in_year: u64 = if is_leap(y) {
            366
        } else {
            365
        };
        if remaining_days < days_in_year {
            break;
        }
        proof {
            year_starts_grow(1970, y as int);
        }
        remaining_days = remaining_days - days_in_year;
        y = y + 1;
    }
    let ghost in_year = remaining_days as int;
    let mut m: u64 = 0;
    proof {
        months_fill_the_year(y as int);
    }
    while m < 12 && remaining_days >= month_days(y, m)
        invariant
            m <= 12,
            in_year == days_before_month(y as int, m as int) + remaining_days,
            in_year < days_before_month(y as int, 12),
        decreases 12 - m,
    {
        remaining_days = remaining_days - month_days(y, m);
        m = m + 1;
    }
    let ghost d = Date { year: y as int, month: m as int, day: remaining_days as int };
    let mut r = String::new();
    if y < 10000 {
        put_padded(&mut r, y, 4);
    } else {
        put_decimal(&mut r, y);
    }
    put_padded(&mut r, m + 1, 2);
    put_padded(&mut r, remaining_days + 1, 2);
    r.append("_");
    put_padded(&mut r, time_of_day / 3600, 2);
    put_padded(&mut r, (time_of_day % 3600) / 60, 2);
    put_padded(&mut r, time_of_day % 60, 2);
    assert(r@ =~= stamp(d, now as int % 86400));
    assert(is_date(now as int / 86400, d));
    r
}

} // verus!
