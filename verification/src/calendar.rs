//! The proleptic Gregorian calendar: months, leap years, month lengths,
//! and the conversion from a day count since the Unix epoch to a civil date.

use vstd::prelude::*;

verus! {

/// A calendar month.
#[derive(Clone, Copy, Debug, PartialEq, Eq, Hash, Structural)]
pub enum Month {
    January,
    February,
    March,
    April,
    May,
    June,
    July,
    August,
    September,
    October,
    November,
    December,
}

/// The number of a month, `1..=12`.
pub open spec fn month_num(m: Month) -> int {
    match m {
        Month::January => 1,
        Month::February => 2,
        Month::March => 3,
        Month::April => 4,
        Month::May => 5,
        Month::June => 6,
        Month::July => 7,
        Month::August => 8,
        Month::September => 9,
        Month::October => 10,
        Month::November => 11,
        Month::December => 12,
    }
}

/// The English name of a month.
pub open spec fn month_name(m: Month) -> Seq<char> {
    match m {
        Month::January => "January"@,
        Month::February => "February"@,
        Month::March => "March"@,
        Month::April => "April"@,
        Month::May => "May"@,
        Month::June => "June"@,
        Month::July => "July"@,
        Month::August => "August"@,
        Month::September => "September"@,
        Month::October => "October"@,
        Month::November => "November"@,
        Month::December => "December"@,
    }
}

impl Month {
    /// The month's number, `1` for January through `12` for December.
    pub fn number(&self) -> (n: u8)
        ensures
            n as int == month_num(*self),
            1 <= n <= 12,
    {
        match self {
            Month::January => 1,
            Month::February => 2,
            Month::March => 3,
            Month::April => 4,
            Month::May => 5,
            Month::June => 6,
            Month::July => 7,
            Month::August => 8,
            Month::September => 9,
            Month::October => 10,
            Month::November => 11,
            Month::December => 12,
        }
    }

    /// The month with number `n`, for `n` in `1..=12`.
    pub fn from_number(n: u8) -> (r: Option<Month>)
        ensures
            r is Some <==> 1 <= n <= 12,
            r is Some ==> month_num(r->Some_0) == n as int,
    {
        match n {
            1 => Some(Month::January),
            2 => Some(Month::February),
            3 => Some(Month::March),
            4 => Some(Month::April),
            5 => Some(Month::May),
            6 => Some(Month::June),
            7 => Some(Month::July),
            8 => Some(Month::August),
            9 => Some(Month::September),
            10 => Some(Month::October),
            11 => Some(Month::November),
            12 => Some(Month::December),
            _ => None,
        }
    }

    /// The month's English name.
    pub fn name(&self) -> (s: &'static str)
        ensures
            s@ == month_name(*self),
    {
        match self {
            Month::January => "January",
            Month::February => "February",
            Month::March => "March",
            Month::April => "April",
            Month::May => "May",
            Month::June => "June",
            Month::July => "July",
            Month::August => "August",
            Month::September => "September",
            Month::October => "October",
            Month::November => "November",
            Month::December => "December",
        }
    }
}

/// Whether `year` is a leap year in the proleptic Gregorian calendar.
pub open spec fn spec_is_leap_year(year: int) -> bool {
    (year % 4 == 0 && year % 100 != 0) || year % 400 == 0
}

/// Executable leap-year test, matching the Gregorian rule.
pub fn is_leap_year(year: i32) -> (r: bool)
    requires
        year >= 0,
    ensures
        r == spec_is_leap_year(year as int),
{
    (year % 4 == 0 && year % 100 != 0) || year % 400 == 0
}

/// The number of days in month `m` (`1..=12`) of `year`.
pub open spec fn spec_days_in_month(year: int, m: int) -> int {
    if m == 2 {
        if spec_is_leap_year(year) {
            29
        } else {
            28
        }
    } else if m == 4 || m == 6 || m == 9 || m == 11 {
        30
    } else {
        31
    }
}

/// The number of days in `year`.
pub open spec fn spec_days_in_year(year: int) -> int {
    if spec_is_leap_year(year) {
        366
    } else {
        365
    }
}

pub(crate) fn days_in_month_number(year: i32, m: u8) -> (r: u8)
    requires
        year >= 0,
        1 <= m <= 12,
    ensures
        r as int == spec_days_in_month(year as int, m as int),
        28 <= r <= 31,
{
    if m == 2 {
        if is_leap_year(year) {
            29
        } else {
            28
        }
    } else if m == 4 || m == 6 || m == 9 || m == 11 {
        30
    } else {
        31
    }
}

/// The number of days in the given month, leap-year February included.
pub fn days_in_month(year: i32, month: Month) -> (r: u8)
    requires
        year >= 0,
    ensures
        r as int == spec_days_in_month(year as int, month_num(month)),
{
    let n = month.number();
    days_in_month_number(year, n)
}

pub(crate) fn days_in_year(year: i32) -> (r: u16)
    requires
        year >= 0,
    ensures
        r as int == spec_days_in_year(year as int),
{
    if is_leap_year(year) {
        366
    } else {
        365
    }
}

/// The number of days in the years `1970..y`.
pub open spec fn days_before_year(y: int) -> int
    decreases y - 1970,
{
    if y <= 1970 {
        0
    } else {
        days_before_year(y - 1) + spec_days_in_year(y - 1)
    }
}

/// The number of days in the months `1..m` of `year`.
pub open spec fn days_before_month(year: int, m: int) -> int
    decreases m,
{
    if m <= 1 {
        0
    } else {
        days_before_month(year, m - 1) + spec_days_in_month(year, m - 1)
    }
}

/// The number of days from 1970-01-01 to the given date.
pub open spec fn day_number(y: int, m: int, d: int) -> int {
    days_before_year(y) + days_before_month(y, m) + (d - 1)
}

/// A whole year's months sum to its day count.
pub proof fn lemma_days_before_month_13(y: int)
    ensures
        days_before_month(y, 13) == spec_days_in_year(y),
{
    reveal_with_fuel(days_before_month, 13);
}

/// Converts a day count since 1970-01-01 into the civil date
/// `(year, month number, day)` it falls on; a count past 9999-12-31 is
/// clamped to that last expressible date.
pub fn civil_from_day_number(n: u32) -> (r: (i32, u8, u8))
    ensures
        1970 <= r.0 <= 9999,
        1 <= r.1 <= 12,
        1 <= r.2 as int <= spec_days_in_month(r.0 as int, r.1 as int),
        day_number(r.0 as int, r.1 as int, r.2 as int) == n as int || (r.0 == 9999 && r.1 == 12
            && r.2 == 31),
        n as int <= day_number(9999, 12, 31) ==> day_number(
            r.0 as int,
            r.1 as int,
            r.2 as int,
        ) == n as int,
{
    let mut y: i32 = 1970;
    let mut rem: u32 = n;
    while y < 9999 && rem >= days_in_year(y) as u32
        invariant
            1970 <= y <= 9999,
            days_before_year(y as int) + rem as int == n as int,
        decreases 9999 - y,
    {
        rem = rem - days_in_year(y) as u32;
        y = y + 1;
    }
    if rem >= days_in_year(y) as u32 {
        proof {
            lemma_days_before_month_13(9999);
            assert(days_before_month(9999, 13) == days_before_month(9999, 12)
                + spec_days_in_month(9999, 12));
            assert(day_number(9999, 12, 31) < n as int);
        }
        return (9999, 12, 31);
    }
    let ghost r_after_years: int = rem as int;
    let mut m: u8 = 1;
    while rem >= days_in_month_number(y, m) as u32
        invariant
            1970 <= y <= 9999,
            1 <= m <= 12,
            days_before_month(y as int, m as int) + rem as int == r_after_years,
            r_after_years < spec_days_in_year(y as int),
            days_before_year(y as int) + r_after_years == n as int,
        decreases rem,
    {
        proof {
            lemma_days_before_month_13(y as int);
            if m == 12 {
                assert(days_before_month(y as int, 13) == days_before_month(y as int, 12)
                    + spec_days_in_month(y as int, 12));
                assert(false);
            }
        }
        rem = rem - days_in_month_number(y, m) as u32;
        m = m + 1;
    }
    let d: u8 = (rem + 1) as u8;
    (y, m, d)
}

} // verus!
