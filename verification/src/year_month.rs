//! A validated calendar month: a year and month whose canonical text is
//! the fixed-width `yyyymm` form.

use vstd::prelude::*;
use core::cmp::Ordering;

use crate::calendar::{civil_from_day_number, month_name, month_num, Month};
use crate::canon::{canon_ym, lemma_canon_ym_order, lemma_canon_ym_parses, parse_ym};
use crate::clock::get_time;
use crate::error::ParseError;
use crate::strings::{
    dec_str, digit_to_char, lemma_num_val2, lemma_num_val4, lex_lt, num_val, push_char,
    u128_to_string,
};

verus! {

/// A calendar month: an anchor for monthly statistics windows. No value
/// denotes an impossible month; construction is the only validation
/// point.
#[derive(Clone, Copy, Debug, PartialEq, Eq, Hash, Structural)]
pub struct YearMonth {
    year: i32,
    month: Month,
}

impl YearMonth {
    /// The year, `0..=9999`.
    pub closed spec fn spec_year(self) -> int {
        self.year as int
    }

    /// The month.
    pub closed spec fn spec_month(self) -> Month {
        self.month
    }

    /// The month's number, `1..=12`.
    pub open spec fn spec_month_num(self) -> int {
        month_num(self.spec_month())
    }

    /// Every value holds a year the canonical four-digit form can write.
    #[verifier::type_invariant]
    pub open spec fn wf(self) -> bool {
        0 <= self.spec_year() <= 9999
    }

    /// The canonical `yyyymm` text of this month.
    pub open spec fn spec_canon(self) -> Seq<char> {
        canon_ym(self.spec_year(), self.spec_month_num())
    }

    /// Strict chronological order.
    pub open spec fn spec_lt(self, other: Self) -> bool {
        self.spec_year() < other.spec_year() || (self.spec_year() == other.spec_year()
            && self.spec_month_num() < other.spec_month_num())
    }

    /// Builds the month, rejecting years the canonical form cannot write.
    pub fn new(year: i32, month: Month) -> (r: Result<YearMonth, ParseError>)
        ensures
            r is Ok <==> 0 <= year <= 9999,
            r is Ok ==> r->Ok_0.spec_year() == year as int && r->Ok_0.spec_month() == month,
            r is Err ==> r->Err_0 == ParseError::ExpectsYearMonth,
    {
        if 0 <= year && year <= 9999 {
            Ok(YearMonth { year, month })
        } else {
            Err(ParseError::ExpectsYearMonth)
        }
    }

    pub fn year(&self) -> (y: i32)
        ensures
            y as int == self.spec_year(),
            0 <= y <= 9999,
    {
        proof {
            use_type_invariant(self);
        }
        self.year
    }

    pub fn month(&self) -> (m: Month)
        ensures
            m == self.spec_month(),
    {
        self.month
    }

    /// Renders the canonical `yyyymm` text.
    pub fn as_string(&self) -> (s: String)
        ensures
            s@ == self.spec_canon(),
    {
        proof {
            use_type_invariant(self);
            crate::canon::lemma_canon2_split(month_num(self.month));
            crate::canon::lemma_canon4_split(self.year as int);
        }
        let y = self.year;
        let mut s = String::new();
        let c0 = digit_to_char((y / 1000) as u8);
        let c1 = digit_to_char(((y / 100) % 10) as u8);
        let c2 = digit_to_char(((y / 10) % 10) as u8);
        let c3 = digit_to_char((y % 10) as u8);
        push_char(&mut s, c0);
        push_char(&mut s, c1);
        push_char(&mut s, c2);
        push_char(&mut s, c3);
        let mn = self.month.number();
        let c4 = digit_to_char(mn / 10);
        let c5 = digit_to_char(mn % 10);
        push_char(&mut s, c4);
        push_char(&mut s, c5);
        proof {
            assert(s@ =~= self.spec_canon());
        }
        s
    }

    /// Parses the canonical `yyyymm` form: exactly six digits denoting a
    /// real month; anything else is rejected.
    pub fn parse(s: &str) -> (r: Result<YearMonth, ParseError>)
        ensures
            r is Ok <==> parse_ym(s@) is Some,
            r is Ok ==> r->Ok_0.spec_year() == parse_ym(s@)->Some_0.0
                && r->Ok_0.spec_month_num() == parse_ym(s@)->Some_0.1,
            r is Err ==> r->Err_0 == ParseError::ExpectsYearMonth,
    {
        if s.unicode_len() != 6 {
            return Err(ParseError::ExpectsYearMonth);
        }
        let c0 = s.get_char(0);
        let c1 = s.get_char(1);
        let c2 = s.get_char(2);
        let c3 = s.get_char(3);
        let c4 = s.get_char(4);
        let c5 = s.get_char(5);
        let v0 = c0 as u32;
        let v1 = c1 as u32;
        let v2 = c2 as u32;
        let v3 = c3 as u32;
        let v4 = c4 as u32;
        let v5 = c5 as u32;
        if v0 < 48 || v0 > 57 || v1 < 48 || v1 > 57 || v2 < 48 || v2 > 57 || v3 < 48 || v3 > 57
            || v4 < 48 || v4 > 57 || v5 < 48 || v5 > 57 {
            return Err(ParseError::ExpectsYearMonth);
        }
        let y: u32 = (v0 - 48) * 1000 + (v1 - 48) * 100 + (v2 - 48) * 10 + (v3 - 48);
        let m: u32 = (v4 - 48) * 10 + (v5 - 48);
        proof {
            let t4 = s@.subrange(0, 4);
            let t2 = s@.subrange(4, 6);
            lemma_num_val4(t4);
            lemma_num_val2(t2);
            assert(t4[0] == s@[0] && t4[1] == s@[1] && t4[2] == s@[2] && t4[3] == s@[3]);
            assert(t2[0] == s@[4] && t2[1] == s@[5]);
            assert(num_val(t4) == y as int);
            assert(num_val(t2) == m as int);
        }
        if m < 1 || m > 12 {
            return Err(ParseError::ExpectsYearMonth);
        }
        let month = Month::from_number(m as u8).unwrap();
        Ok(YearMonth { year: y as i32, month })
    }

    /// Chronological comparison; agrees with the lexicographic order of
    /// the canonical texts, as `lemma_ordering_consistent` states.
    pub fn compare(&self, other: &YearMonth) -> (r: Ordering)
        ensures
            r == Ordering::Less <==> self.spec_lt(*other),
            r == Ordering::Greater <==> other.spec_lt(*self),
            r == Ordering::Equal <==> (self.spec_year() == other.spec_year()
                && self.spec_month_num() == other.spec_month_num()),
    {
        if self.year < other.year {
            Ordering::Less
        } else if self.year > other.year {
            Ordering::Greater
        } else {
            let a = self.month.number();
            let b = other.month.number();
            if a < b {
                Ordering::Less
            } else if a > b {
                Ordering::Greater
            } else {
                Ordering::Equal
            }
        }
    }

    /// The month the clock falls in right now (UTC day arithmetic).
    pub fn current_month() -> (r: YearMonth)
        ensures
            1970 <= r.spec_year() <= 9999,
    {
        let t = get_time();
        let days_wide = t / 86400000;
        let days: u32 = if days_wide > 0xFFFF_FFFF {
            0xFFFF_FFFF
        } else {
            days_wide as u32
        };
        let (y, m, _d) = civil_from_day_number(days);
        let month = Month::from_number(m).unwrap();
        YearMonth { year: y, month }
    }

    /// The human-oriented rendering: the year, a space, the month's name.
    pub open spec fn spec_pretty(self) -> Seq<char> {
        dec_str(self.spec_year() as nat) + seq![' '] + month_name(self.spec_month())
    }

    /// A human-oriented rendering: the year, a space, the month's name.
    pub fn as_pretty_string(&self) -> (s: String)
        ensures
            s@ == self.spec_pretty(),
    {
        proof {
            use_type_invariant(self);
        }
        let mut s = u128_to_string(self.year as u128);
        push_char(&mut s, ' ');
        s.append(self.month.name());
        proof {
            assert(s@ =~= dec_str(self.spec_year() as nat) + seq![' '] + month_name(
                self.spec_month(),
            ));
        }
        s
    }

    /// Chronological order of two months agrees with the lexicographic
    /// order of their canonical texts.
    pub proof fn lemma_ordering_consistent(a: YearMonth, b: YearMonth)
        requires
            a.wf(),
            b.wf(),
        ensures
            a.spec_lt(b) <==> lex_lt(a.spec_canon(), b.spec_canon()),
    {
        lemma_canon_ym_order(a.spec_year(), a.spec_month_num(), b.spec_year(), b.spec_month_num());
    }

    /// Parsing the canonical text of any valid month gives back exactly
    /// its year and month.
    pub proof fn lemma_round_trip(a: YearMonth)
        requires
            a.wf(),
        ensures
            parse_ym(a.spec_canon()) == Some((a.spec_year(), a.spec_month_num())),
    {
        lemma_canon_ym_parses(a.spec_year(), a.spec_month_num());
    }
}

} // verus!
