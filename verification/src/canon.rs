//! The fixed-width canonical text of calendar periods: `yyyymm` for a
//! month, `yyyymmdd` for a day, with proofs that parsing and rendering
//! are mutually inverse and that the text orders chronologically.

use vstd::prelude::*;
use vstd::arithmetic::div_mod::{
    lemma_div_denominator, lemma_fundamental_div_mod, lemma_fundamental_div_mod_converse,
    lemma_mod_pos_bound,
};

use crate::calendar::spec_days_in_month;
use crate::strings::{
    all_digits, digit_char, digit_val, lemma_char_digit_char, lemma_digit_char_val,
    lemma_lex_num, lemma_num_val2, lemma_num_val4, lemma_num_val6, lemma_num_val8, lex_lt, num_val,
};

verus! {

/// Two zero-padded decimal digits of `x`.
pub open spec fn canon2(x: int) -> Seq<char> {
    seq![digit_char(x / 10 % 10), digit_char(x % 10)]
}

/// Four zero-padded decimal digits of `x`.
pub open spec fn canon4(x: int) -> Seq<char> {
    seq![
        digit_char(x / 1000 % 10),
        digit_char(x / 100 % 10),
        digit_char(x / 10 % 10),
        digit_char(x % 10),
    ]
}

/// The canonical `yyyymm` form.
pub open spec fn canon_ym(y: int, m: int) -> Seq<char> {
    canon4(y) + canon2(m)
}

/// The canonical `yyyymmdd` form.
pub open spec fn canon_ymd(y: int, m: int, d: int) -> Seq<char> {
    canon4(y) + canon2(m) + canon2(d)
}

/// The year and month denoted by a canonical `yyyymm` string, if the
/// string has exactly that form and the month is real.
pub open spec fn parse_ym(s: Seq<char>) -> Option<(int, int)> {
    if s.len() == 6 && all_digits(s) {
        let y = num_val(s.subrange(0, 4));
        let m = num_val(s.subrange(4, 6));
        if 1 <= m <= 12 {
            Some((y, m))
        } else {
            None
        }
    } else {
        None
    }
}

/// The date denoted by a canonical `yyyymmdd` string, if the string has
/// exactly that form and the date is a real calendar date.
pub open spec fn parse_ymd(s: Seq<char>) -> Option<(int, int, int)> {
    if s.len() == 8 && all_digits(s) {
        let y = num_val(s.subrange(0, 4));
        let m = num_val(s.subrange(4, 6));
        let d = num_val(s.subrange(6, 8));
        if 1 <= m <= 12 && 1 <= d <= spec_days_in_month(y, m) {
            Some((y, m, d))
        } else {
            None
        }
    } else {
        None
    }
}

/// Splits `x` in `0..=99` into its two decimal digits.
proof fn lemma_split2(x: int)
    requires
        0 <= x <= 99,
    ensures
        x == (x / 10 % 10) * 10 + x % 10,
        0 <= x / 10 % 10 <= 9,
        0 <= x % 10 <= 9,
        x / 10 % 10 == x / 10,
{
    lemma_fundamental_div_mod(x, 10);
    lemma_mod_pos_bound(x, 10);
    lemma_mod_pos_bound(x / 10, 10);
    lemma_fundamental_div_mod(x / 10, 10);
}

/// Splits `x` in `0..=9999` into its four decimal digits.
proof fn lemma_split4(x: int)
    requires
        0 <= x <= 9999,
    ensures
        x == (x / 1000 % 10) * 1000 + (x / 100 % 10) * 100 + (x / 10 % 10) * 10 + x % 10,
        0 <= x / 1000 % 10 <= 9,
        0 <= x / 100 % 10 <= 9,
        0 <= x / 10 % 10 <= 9,
        0 <= x % 10 <= 9,
        x / 1000 % 10 == x / 1000,
{
    lemma_fundamental_div_mod(x, 10);
    lemma_mod_pos_bound(x, 10);
    lemma_div_denominator(x, 10, 10);
    lemma_fundamental_div_mod(x / 10, 10);
    lemma_mod_pos_bound(x / 10, 10);
    lemma_div_denominator(x, 100, 10);
    lemma_fundamental_div_mod(x / 100, 10);
    lemma_mod_pos_bound(x / 100, 10);
    lemma_fundamental_div_mod(x / 1000, 10);
    lemma_mod_pos_bound(x / 1000, 10);
}

/// The digit positions of a two-digit value, for callers that compute
/// them with machine arithmetic.
pub proof fn lemma_canon2_split(x: int)
    requires
        0 <= x <= 99,
    ensures
        0 <= x / 10 <= 9,
        x / 10 % 10 == x / 10,
        0 <= x % 10 <= 9,
{
    lemma_split2(x);
}

/// The digit positions of a four-digit value, for callers that compute
/// them with machine arithmetic.
pub proof fn lemma_canon4_split(x: int)
    requires
        0 <= x <= 9999,
    ensures
        0 <= x / 1000 <= 9,
        x / 1000 % 10 == x / 1000,
        0 <= x / 100 % 10 <= 9,
        0 <= x / 10 % 10 <= 9,
        0 <= x % 10 <= 9,
{
    lemma_split4(x);
}

/// `canon2` renders exactly the digits of a two-digit value.
pub proof fn lemma_canon2(x: int)
    requires
        0 <= x <= 99,
    ensures
        canon2(x).len() == 2,
        all_digits(canon2(x)),
        num_val(canon2(x)) == x,
{
    lemma_split2(x);
    lemma_digit_char_val(x / 10 % 10);
    lemma_digit_char_val(x % 10);
    lemma_num_val2(canon2(x));
}

/// `canon4` renders exactly the digits of a four-digit value.
pub proof fn lemma_canon4(x: int)
    requires
        0 <= x <= 9999,
    ensures
        canon4(x).len() == 4,
        all_digits(canon4(x)),
        num_val(canon4(x)) == x,
{
    lemma_split4(x);
    lemma_digit_char_val(x / 1000 % 10);
    lemma_digit_char_val(x / 100 % 10);
    lemma_digit_char_val(x / 10 % 10);
    lemma_digit_char_val(x % 10);
    lemma_num_val4(canon4(x));
}

/// A two-character digit string is recovered from its value.
pub proof fn lemma_parse2(t: Seq<char>)
    requires
        t.len() == 2,
        all_digits(t),
    ensures
        0 <= num_val(t) <= 99,
        canon2(num_val(t)) =~= t,
{
    let d0 = digit_val(t[0]);
    let d1 = digit_val(t[1]);
    lemma_char_digit_char(t[0]);
    lemma_char_digit_char(t[1]);
    lemma_num_val2(t);
    let x = num_val(t);
    lemma_fundamental_div_mod_converse(x, 10, d0, d1);
    lemma_fundamental_div_mod_converse(d0, 10, 0, d0);
}

/// A four-character digit string is recovered from its value.
pub proof fn lemma_parse4(t: Seq<char>)
    requires
        t.len() == 4,
        all_digits(t),
    ensures
        0 <= num_val(t) <= 9999,
        canon4(num_val(t)) =~= t,
{
    let d0 = digit_val(t[0]);
    let d1 = digit_val(t[1]);
    let d2 = digit_val(t[2]);
    let d3 = digit_val(t[3]);
    lemma_char_digit_char(t[0]);
    lemma_char_digit_char(t[1]);
    lemma_char_digit_char(t[2]);
    lemma_char_digit_char(t[3]);
    lemma_num_val4(t);
    let x = num_val(t);
    lemma_fundamental_div_mod_converse(x, 10, d0 * 100 + d1 * 10 + d2, d3);
    lemma_fundamental_div_mod_converse(x, 100, d0 * 10 + d1, d2 * 10 + d3);
    lemma_fundamental_div_mod_converse(x, 1000, d0, d1 * 100 + d2 * 10 + d3);
    lemma_fundamental_div_mod_converse(x / 10, 10, d0 * 10 + d1, d2);
    lemma_fundamental_div_mod_converse(x / 100, 10, d0, d1);
    lemma_fundamental_div_mod_converse(d0, 10, 0, d0);
}

/// Rendering a valid year and month parses back to the same pair.
pub proof fn lemma_canon_ym_parses(y: int, m: int)
    requires
        0 <= y <= 9999,
        1 <= m <= 12,
    ensures
        parse_ym(canon_ym(y, m)) == Some((y, m)),
{
    let s = canon_ym(y, m);
    lemma_canon4(y);
    lemma_canon2(m);
    assert(s.subrange(0, 4) =~= canon4(y));
    assert(s.subrange(4, 6) =~= canon2(m));
}

/// Parsing a canonical `yyyymm` string and rendering the result gives
/// back the same string.
pub proof fn lemma_parse_ym_canon(s: Seq<char>)
    requires
        parse_ym(s) is Some,
    ensures
        0 <= parse_ym(s)->Some_0.0 <= 9999,
        1 <= parse_ym(s)->Some_0.1 <= 12,
        canon_ym(parse_ym(s)->Some_0.0, parse_ym(s)->Some_0.1) =~= s,
{
    let t4 = s.subrange(0, 4);
    let t2 = s.subrange(4, 6);
    lemma_parse4(t4);
    lemma_parse2(t2);
    assert(canon_ym(num_val(t4), num_val(t2)) =~= s);
}

/// Rendering a valid date parses back to the same triple.
pub proof fn lemma_canon_ymd_parses(y: int, m: int, d: int)
    requires
        0 <= y <= 9999,
        1 <= m <= 12,
        1 <= d <= spec_days_in_month(y, m),
    ensures
        parse_ymd(canon_ymd(y, m, d)) == Some((y, m, d)),
{
    let s = canon_ymd(y, m, d);
    lemma_canon4(y);
    lemma_canon2(m);
    lemma_canon2(d);
    assert(s.subrange(0, 4) =~= canon4(y));
    assert(s.subrange(4, 6) =~= canon2(m));
    assert(s.subrange(6, 8) =~= canon2(d));
}

/// Parsing a canonical `yyyymmdd` string and rendering the result gives
/// back the same string.
pub proof fn lemma_parse_ymd_canon(s: Seq<char>)
    requires
        parse_ymd(s) is Some,
    ensures
        0 <= parse_ymd(s)->Some_0.0 <= 9999,
        1 <= parse_ymd(s)->Some_0.1 <= 12,
        1 <= parse_ymd(s)->Some_0.2 <= spec_days_in_month(
            parse_ymd(s)->Some_0.0,
            parse_ymd(s)->Some_0.1,
        ),
        canon_ymd(parse_ymd(s)->Some_0.0, parse_ymd(s)->Some_0.1, parse_ymd(s)->Some_0.2) =~= s,
{
    let t4 = s.subrange(0, 4);
    let tm = s.subrange(4, 6);
    let td = s.subrange(6, 8);
    lemma_parse4(t4);
    lemma_parse2(tm);
    lemma_parse2(td);
    assert(canon_ymd(num_val(t4), num_val(tm), num_val(td)) =~= s);
}

/// The numeric reading of a canonical `yyyymm` string.
pub proof fn lemma_canon_ym_num(y: int, m: int)
    requires
        0 <= y <= 9999,
        0 <= m <= 99,
    ensures
        num_val(canon_ym(y, m)) == y * 100 + m,
{
    let s = canon_ym(y, m);
    lemma_split4(y);
    lemma_split2(m);
    let a = y / 1000 % 10;
    let b = y / 100 % 10;
    let c = y / 10 % 10;
    let e = y % 10;
    let f = m / 10 % 10;
    let g = m % 10;
    lemma_digit_char_val(a);
    lemma_digit_char_val(b);
    lemma_digit_char_val(c);
    lemma_digit_char_val(e);
    lemma_digit_char_val(f);
    lemma_digit_char_val(g);
    lemma_num_val6(s);
    assert(num_val(s) == a * 100000 + b * 10000 + c * 1000 + e * 100 + f * 10 + g);
    assert((a * 1000 + b * 100 + c * 10 + e) * 100 == a * 100000 + b * 10000 + c * 1000 + e * 100)
        by (nonlinear_arith);
}

/// The numeric reading of a canonical `yyyymmdd` string.
pub proof fn lemma_canon_ymd_num(y: int, m: int, d: int)
    requires
        0 <= y <= 9999,
        0 <= m <= 99,
        0 <= d <= 99,
    ensures
        num_val(canon_ymd(y, m, d)) == y * 10000 + m * 100 + d,
{
    let s = canon_ymd(y, m, d);
    lemma_split4(y);
    lemma_split2(m);
    lemma_split2(d);
    let a = y / 1000 % 10;
    let b = y / 100 % 10;
    let c = y / 10 % 10;
    let e = y % 10;
    let f = m / 10 % 10;
    let g = m % 10;
    let h = d / 10 % 10;
    let i = d % 10;
    lemma_digit_char_val(a);
    lemma_digit_char_val(b);
    lemma_digit_char_val(c);
    lemma_digit_char_val(e);
    lemma_digit_char_val(f);
    lemma_digit_char_val(g);
    lemma_digit_char_val(h);
    lemma_digit_char_val(i);
    lemma_num_val8(s);
    assert(num_val(s) == a * 10000000 + b * 1000000 + c * 100000 + e * 10000 + f * 1000 + g * 100
        + h * 10 + i);
    assert((a * 1000 + b * 100 + c * 10 + e) * 10000 == a * 10000000 + b * 1000000 + c * 100000 + e
        * 10000) by (nonlinear_arith);
    assert((f * 10 + g) * 100 == f * 1000 + g * 100) by (nonlinear_arith);
}

/// Canonical `yyyymm` strings order lexicographically exactly as the
/// periods they denote order chronologically.
pub proof fn lemma_canon_ym_order(y1: int, m1: int, y2: int, m2: int)
    requires
        0 <= y1 <= 9999,
        1 <= m1 <= 12,
        0 <= y2 <= 9999,
        1 <= m2 <= 12,
    ensures
        lex_lt(canon_ym(y1, m1), canon_ym(y2, m2)) <==> (y1 < y2 || (y1 == y2 && m1 < m2)),
{
    lemma_canon4(y1);
    lemma_canon2(m1);
    lemma_canon4(y2);
    lemma_canon2(m2);
    lemma_canon_ym_num(y1, m1);
    lemma_canon_ym_num(y2, m2);
    lemma_lex_num(canon_ym(y1, m1), canon_ym(y2, m2));
}

/// Canonical `yyyymmdd` strings order lexicographically exactly as the
/// dates they denote order chronologically.
pub proof fn lemma_canon_ymd_order(y1: int, m1: int, d1: int, y2: int, m2: int, d2: int)
    requires
        0 <= y1 <= 9999,
        1 <= m1 <= 12,
        1 <= d1 <= 31,
        0 <= y2 <= 9999,
        1 <= m2 <= 12,
        1 <= d2 <= 31,
    ensures
        lex_lt(canon_ymd(y1, m1, d1), canon_ymd(y2, m2, d2)) <==> (y1 < y2 || (y1 == y2 && m1
            < m2) || (y1 == y2 && m1 == m2 && d1 < d2)),
{
    lemma_canon4(y1);
    lemma_canon2(m1);
    lemma_canon2(d1);
    lemma_canon4(y2);
    lemma_canon2(m2);
    lemma_canon2(d2);
    lemma_canon_ymd_num(y1, m1, d1);
    lemma_canon_ymd_num(y2, m2, d2);
    lemma_lex_num(canon_ymd(y1, m1, d1), canon_ymd(y2, m2, d2));
}

} // verus!
