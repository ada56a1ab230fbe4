//! A validated calendar date: year, month and day whose canonical text
//! is the fixed-width `yyyymmdd` form.

use vstd::prelude::*;
use core::cmp::Ordering;

use crate::calendar::{
    civil_from_day_number, days_in_month_number, month_name, month_num, spec_days_in_month, Month,
};
use crate::canon::{
    canon_ymd, lemma_canon_ymd_order, lemma_canon_ymd_parses, parse_ymd,
};
use crate::clock::get_time;
use crate::error::ParseError;
use crate::strings::{
    dec_str, digit_to_char, lemma_num_val2, lemma_num_val4, lex_lt, num_val, push_char,
    u128_to_string,
};

verus! {

/// A calendar date: an anchor for daily statistics windows. No value
/// denotes an impossible date; construction is the only validation
/// point.
#[derive(Clone, Copy, Debug, PartialEq, Eq, Hash, Structural)]
pub struct YearMonthDay {
    year: i32,
    month: Month,
    day: u8,
}

impl YearMonthDay {
    /// The year, `0..=9999`.
    pub closed spec fn spec_year(self) -> int {
        self.year as int
    }

    /// The month.
    pub closed spec fn spec_month(self) -> Month {
        self.month
    }

    /// The month's number, `1..=12`.
    pub open spec fn spec_month_num(self) -> int {
        month_num(self.spec_month())
    }

    /// The day of the month.
    pub closed spec fn spec_day(self) -> int {
        self.day as int
    }

    /// Every value denotes a real calendar date with a four-digit year.
    #[verifier::type_invariant]
    pub open spec fn wf(self) -> bool {
        0 <= self.spec_year() <= 9999 && 1 <= self.spec_day() <= spec_days_in_month(
            self.spec_year(),
            self.spec_month_num(),
        )
    }

    /// The canonical `yyyymmdd` text of this date.
    pub open spec fn spec_canon(self) -> Seq<char> {
        canon_ymd(self.spec_year(), self.spec_month_num(), self.spec_day())
    }

    /// Strict chronological order.
    pub open spec fn spec_lt(self, other: Self) -> bool {
        self.spec_year() < other.spec_year() || (self.spec_year() == other.spec_year()
            && self.spec_month_num() < other.spec_month_num()) || (self.spec_year()
            == other.spec_year() && self.spec_month_num() == other.spec_month_num()
            && self.spec_day() < other.spec_day())
    }

    /// Builds the date, rejecting any combination that is not a real
    /// calendar date with a four-digit year.
    pub fn new(year: i32, month: Month, day: u8) -> (r: Result<YearMonthDay, ParseError>)
        ensures
            r is Ok <==> (0 <= year <= 9999 && 1 <= day as int <= spec_days_in_month(
                year as int,
                month_num(month),
            )),
            r is Ok ==> r->Ok_0.spec_year() == year as int && r->Ok_0.spec_month() == month
                && r->Ok_0.spec_day() == day as int,
            r is Err ==> r->Err_0 == ParseError::ExpectsYearMonthDay,
    {
        if 0 <= year && year <= 9999 {
            let n = month.number();
            let dim = days_in_month_number(year, n);
            if 1 <= day && day <= dim {
                return Ok(YearMonthDay { year, month, day });
            }
        }
        Err(ParseError::ExpectsYearMonthDay)
    }

    pub fn year(&self) -> (y: i32)
        ensures
            y as int == self.spec_year(),
            0 <= y <= 9999,
    {
        proof {
            use_type_invariant(self);
        }
        self.year
    }

    pub fn month(&self) -> (m: Month)
        ensures
            m == self.spec_month(),
    {
        self.month
    }

    pub fn day(&self) -> (d: u8)
        ensures
            d as int == self.spec_day(),
            1 <= d <= 31,
    {
        proof {
            use_type_invariant(self);
        }
        self.day
    }

    /// Renders the canonical `yyyymmdd` text.
    pub fn as_string(&self) -> (s: String)
        ensures
            s@ == self.spec_canon(),
    {
        proof {
            use_type_invariant(self);
            crate::canon::lemma_canon4_split(self.year as int);
            crate::canon::lemma_canon2_split(month_num(self.month));
            crate::canon::lemma_canon2_split(self.day as int);
        }
        let y = self.year;
        let mut s = String::new();
        let c0 = digit_to_char((y / 1000) as u8);
        let c1 = digit_to_char(((y / 100) % 10) as u8);
        let c2 = digit_to_char(((y / 10) % 10) as u8);
        let c3 = digit_to_char((y % 10) as u8);
        push_char(&mut s, c0);
        push_char(&mut s, c1);
        push_char(&mut s, c2);
        push_char(&mut s, c3);
        let mn = self.month.number();
        push_char(&mut s, digit_to_char(mn / 10));
        push_char(&mut s, digit_to_char(mn % 10));
        let d = self.day;
        push_char(&mut s, digit_to_char(d / 10));
        push_char(&mut s, digit_to_char(d % 10));
        proof {
            assert(s@ =~= self.spec_canon());
        }
        s
    }

    /// Parses the canonical `yyyymmdd` form: exactly eight digits
    /// denoting a real calendar date; anything else is rejected.
    pub fn parse(s: &str) -> (r: Result<YearMonthDay, ParseError>)
        ensures
            r is Ok <==> parse_ymd(s@) is Some,
            r is Ok ==> r->Ok_0.spec_year() == parse_ymd(s@)->Some_0.0
                && r->Ok_0.spec_month_num() == parse_ymd(s@)->Some_0.1 && r->Ok_0.spec_day()
                == parse_ymd(s@)->Some_0.2,
            r is Err ==> r->Err_0 == ParseError::ExpectsYearMonthDay,
    {
        if s.unicode_len() != 8 {
            return Err(ParseError::ExpectsYearMonthDay);
        }
        let c0 = s.get_char(0);
        let c1 = s.get_char(1);
        let c2 = s.get_char(2);
        let c3 = s.get_char(3);
        let c4 = s.get_char(4);
        let c5 = s.get_char(5);
        let c6 = s.get_char(6);
        let c7 = s.get_char(7);
        let v0 = c0 as u32;
        let v1 = c1 as u32;
        let v2 = c2 as u32;
        let v3 = c3 as u32;
        let v4 = c4 as u32;
        let v5 = c5 as u32;
        let v6 = c6 as u32;
        let v7 = c7 as u32;
        if v0 < 48 || v0 > 57 || v1 < 48 || v1 > 57 || v2 < 48 || v2 > 57 || v3 < 48 || v3 > 57
            || v4 < 48 || v4 > 57 || v5 < 48 || v5 > 57 || v6 < 48 || v6 > 57 || v7 < 48 || v7
            > 57 {
            return Err(ParseError::ExpectsYearMonthDay);
        }
        let y: u32 = (v0 - 48) * 1000 + (v1 - 48) * 100 + (v2 - 48) * 10 + (v3 - 48);
        let m: u32 = (v4 - 48) * 10 + (v5 - 48);
        let d: u32 = (v6 - 48) * 10 + (v7 - 48);
        proof {
            let t4 = s@.subrange(0, 4);
            let tm = s@.subrange(4, 6);
            let td = s@.subrange(6, 8);
            lemma_num_val4(t4);
            lemma_num_val2(tm);
            lemma_num_val2(td);
            assert(t4[0] == s@[0] && t4[1] == s@[1] && t4[2] == s@[2] && t4[3] == s@[3]);
            assert(tm[0] == s@[4] && tm[1] == s@[5]);
            assert(td[0] == s@[6] && td[1] == s@[7]);
            assert(num_val(t4) == y as int);
            assert(num_val(tm) == m as int);
            assert(num_val(td) == d as int);
        }
        if m < 1 || m > 12 {
            return Err(ParseError::ExpectsYearMonthDay);
        }
        let dim = days_in_month_number(y as i32, m as u8);
        if d < 1 || d > dim as u32 {
            return Err(ParseError::ExpectsYearMonthDay);
        }
        let month = Month::from_number(m as u8).unwrap();
        Ok(YearMonthDay { year: y as i32, month, day: d as u8 })
    }

    /// Chronological comparison; agrees with the lexicographic order of
    /// the canonical texts, as `lemma_ordering_consistent` states.
    pub fn compare(&self, other: &YearMonthDay) -> (r: Ordering)
        ensures
            r == Ordering::Less <==> self.spec_lt(*other),
            r == Ordering::Greater <==> other.spec_lt(*self),
            r == Ordering::Equal <==> (self.spec_year() == other.spec_year()
                && self.spec_month_num() == other.spec_month_num() && self.spec_day()
                == other.spec_day()),
    {
        if self.year < other.year {
            Ordering::Less
        } else if self.year > other.year {
            Ordering::Greater
        } else {
            let a = self.month.number();
            let b = other.month.number();
            if a < b {
                Ordering::Less
            } else if a > b {
                Ordering::Greater
            } else if self.day < other.day {
                Ordering::Less
            } else if self.day > other.day {
                Ordering::Greater
            } else {
                Ordering::Equal
            }
        }
    }

    /// The first day of the month the clock falls in right now.
    pub fn first_day_current_month() -> (r: YearMonthDay)
        ensures
            r.spec_day() == 1,
            1970 <= r.spec_year() <= 9999,
    {
        let t = get_time();
        let (y, m, _d) = Self::current_civil(t);
        let month = Month::from_number(m).unwrap();
        YearMonthDay { year: y, month, day: 1 }
    }

    /// The last day of the month the clock falls in right now; its day
    /// is the month's length, leap-year February included.
    pub fn last_day_current_month() -> (r: YearMonthDay)
        ensures
            r.spec_day() == spec_days_in_month(r.spec_year(), r.spec_month_num()),
            1970 <= r.spec_year() <= 9999,
    {
        let t = get_time();
        let (y, m, _d) = Self::current_civil(t);
        let dim = days_in_month_number(y, m);
        let month = Month::from_number(m).unwrap();
        YearMonthDay { year: y, month, day: dim }
    }

    /// The date the clock falls on right now.
    pub fn today() -> (r: YearMonthDay)
        ensures
            1970 <= r.spec_year() <= 9999,
    {
        let t = get_time();
        let (y, m, d) = Self::current_civil(t);
        let month = Month::from_number(m).unwrap();
        YearMonthDay { year: y, month, day: d }
    }

    fn current_civil(t: u128) -> (r: (i32, u8, u8))
        ensures
            1970 <= r.0 <= 9999,
            1 <= r.1 <= 12,
            1 <= r.2 as int <= spec_days_in_month(r.0 as int, r.1 as int),
    {
        let days_wide = t / 86400000;
        let days: u32 = if days_wide > 0xFFFF_FFFF {
            0xFFFF_FFFF
        } else {
            days_wide as u32
        };
        civil_from_day_number(days)
    }

    /// The human-oriented rendering: day, month name, year.
    pub open spec fn spec_pretty(self) -> Seq<char> {
        dec_str(self.spec_day() as nat) + seq![' '] + month_name(self.spec_month()) + seq![' ']
            + dec_str(self.spec_year() as nat)
    }

    /// A human-oriented rendering: day, month name, year.
    pub fn as_pretty_string(&self) -> (s: String)
        ensures
            s@ == self.spec_pretty(),
    {
        proof {
            use_type_invariant(self);
        }
        let mut s = u128_to_string(self.day as u128);
        push_char(&mut s, ' ');
        s.append(self.month.name());
        push_char(&mut s, ' ');
        let ys = u128_to_string(self.year as u128);
        s.append(ys.as_str());
        proof {
            assert(s@ =~= dec_str(self.spec_day() as nat) + seq![' '] + month_name(
                self.spec_month(),
            ) + seq![' '] + dec_str(self.spec_year() as nat));
        }
        s
    }

    /// Chronological order of two dates agrees with the lexicographic
    /// order of their canonical texts.
    pub proof fn lemma_ordering_consistent(a: YearMonthDay, b: YearMonthDay)
        requires
            a.wf(),
            b.wf(),
        ensures
            a.spec_lt(b) <==> lex_lt(a.spec_canon(), b.spec_canon()),
    {
        lemma_canon_ymd_order(
            a.spec_year(),
            a.spec_month_num(),
            a.spec_day(),
            b.spec_year(),
            b.spec_month_num(),
            b.spec_day(),
        );
    }

    /// Parsing the canonical text of any valid date gives back exactly
    /// its year, month and day.
    pub proof fn lemma_round_trip(a: YearMonthDay)
        requires
            a.wf(),
        ensures
            parse_ymd(a.spec_canon()) == Some((a.spec_year(), a.spec_month_num(), a.spec_day())),
    {
        lemma_canon_ymd_parses(a.spec_year(), a.spec_month_num(), a.spec_day());
    }
}

} // verus!
