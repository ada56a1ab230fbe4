//! Decimal digits, decimal rendering of integers, and the lexicographic
//! order on character sequences.

use vstd::prelude::*;

verus! {

/// Relies on std's `String::push`: appends exactly one character.
#[verifier::external_body]
pub(crate) fn push_char(s: &mut String, c: char)
    ensures
        final(s)@ == old(s)@.push(c),
{
    s.push(c);
}

/// The decimal digit character for a value in `0..=9`.
pub open spec fn digit_char(d: int) -> char {
    if d == 0 {
        '0'
    } else if d == 1 {
        '1'
    } else if d == 2 {
        '2'
    } else if d == 3 {
        '3'
    } else if d == 4 {
        '4'
    } else if d == 5 {
        '5'
    } else if d == 6 {
        '6'
    } else if d == 7 {
        '7'
    } else if d == 8 {
        '8'
    } else {
        '9'
    }
}

/// Whether `c` is a decimal digit character.
pub open spec fn is_digit(c: char) -> bool {
    '0' as int <= c as int && c as int <= '9' as int
}

/// The numeric value of a digit character.
pub open spec fn digit_val(c: char) -> int {
    c as int - '0' as int
}

/// Every digit in `0..=9` maps to a digit character and back to itself.
pub proof fn lemma_digit_char_val(d: int)
    requires
        0 <= d <= 9,
    ensures
        is_digit(digit_char(d)),
        digit_val(digit_char(d)) == d,
{
}

/// A digit character is recovered from its numeric value.
pub proof fn lemma_char_digit_char(c: char)
    requires
        is_digit(c),
    ensures
        0 <= digit_val(c) <= 9,
        digit_char(digit_val(c)) == c,
{
    assert(digit_char(digit_val(c)) as int == c as int);
}

/// The decimal rendering of a non-negative integer, most significant
/// digit first, with no leading zeros (a lone zero for 0).
pub open spec fn dec_str(n: nat) -> Seq<char>
    decreases n,
{
    if n < 10 {
        seq![digit_char(n as int)]
    } else {
        dec_str(n / 10).push(digit_char((n % 10) as int))
    }
}

/// The decimal rendering of a signed integer: a minus sign before the
/// digits when the value is negative.
pub open spec fn dec_str_signed(n: int) -> Seq<char> {
    if n < 0 {
        seq!['-'] + dec_str((-n) as nat)
    } else {
        dec_str(n as nat)
    }
}

/// Executable digit-to-character conversion.
pub fn digit_to_char(d: u8) -> (c: char)
    requires
        d < 10,
    ensures
        c == digit_char(d as int),
{
    match d {
        0 => '0',
        1 => '1',
        2 => '2',
        3 => '3',
        4 => '4',
        5 => '5',
        6 => '6',
        7 => '7',
        8 => '8',
        _ => '9',
    }
}

/// Renders `n` in decimal, as `dec_str` describes.
pub fn u128_to_string(n: u128) -> (s: String)
    ensures
        s@ == dec_str(n as nat),
    decreases n,
{
    if n < 10 {
        let mut s = String::new();
        let c = digit_to_char(n as u8);
        push_char(&mut s, c);
        proof {
            assert(s@ =~= dec_str(n as nat));
        }
        s
    } else {
        let mut s = u128_to_string(n / 10);
        let c = digit_to_char((n % 10) as u8);
        push_char(&mut s, c);
        proof {
            assert(s@ =~= dec_str(n as nat));
        }
        s
    }
}

/// Renders `n` in decimal.
pub fn u32_to_string(n: u32) -> (s: String)
    ensures
        s@ == dec_str(n as nat),
{
    u128_to_string(n as u128)
}

/// Renders `n` in decimal, with a minus sign when negative.
pub fn i32_to_string(n: i32) -> (s: String)
    ensures
        s@ == dec_str_signed(n as int),
{
    if n < 0 {
        let mut s = String::new();
        push_char(&mut s, '-');
        let mag: u128 = (-(n as i64)) as u128;
        let digits = u128_to_string(mag);
        s.append(digits.as_str());
        proof {
            assert(s@ =~= dec_str_signed(n as int));
        }
        s
    } else {
        u128_to_string(n as u128)
    }
}

/// `n` space characters.
pub open spec fn spaces(n: int) -> Seq<char>
    decreases n,
{
    if n <= 0 {
        Seq::empty()
    } else {
        spaces(n - 1).push(' ')
    }
}

/// Appends `n` spaces.
pub fn push_spaces(s: &mut String, n: usize)
    ensures
        final(s)@ == old(s)@ + spaces(n as int),
{
    let mut j: usize = 0;
    proof {
        assert(s@ =~= old(s)@ + spaces(0));
    }
    while j < n
        invariant
            j <= n,
            s@ == old(s)@ + spaces(j as int),
        decreases n - j,
    {
        push_char(s, ' ');
        proof {
            assert(s@ =~= old(s)@ + spaces(j + 1));
        }
        j = j + 1;
    }
}

/// `10^n`.
pub open spec fn pow10(n: nat) -> int
    decreases n,
{
    if n == 0 {
        1
    } else {
        10 * pow10((n - 1) as nat)
    }
}

pub proof fn lemma_pow10_pos(n: nat)
    ensures
        pow10(n) >= 1,
    decreases n,
{
    if n > 0 {
        lemma_pow10_pos((n - 1) as nat);
    }
}

/// Whether every character of `s` is a decimal digit.
pub open spec fn all_digits(s: Seq<char>) -> bool {
    forall|i: int| 0 <= i < s.len() ==> is_digit(#[trigger] s[i])
}

/// The numeric value of a sequence of digit characters, read in base 10.
pub open spec fn num_val(s: Seq<char>) -> int
    decreases s.len(),
{
    if s.len() == 0 {
        0
    } else {
        digit_val(s[0]) * pow10((s.len() - 1) as nat) + num_val(s.drop_first())
    }
}

/// A digit string of length `n` denotes a value below `10^n`.
pub proof fn lemma_num_val_bound(s: Seq<char>)
    requires
        all_digits(s),
    ensures
        0 <= num_val(s) < pow10(s.len()),
    decreases s.len(),
{
    if s.len() == 0 {
    } else {
        let p = pow10((s.len() - 1) as nat);
        lemma_pow10_pos((s.len() - 1) as nat);
        lemma_num_val_bound(s.drop_first());
        let d = digit_val(s[0]);
        assert(0 <= d <= 9);
        assert(d * p <= 9 * p && 0 <= d * p) by (nonlinear_arith)
            requires
                0 <= d <= 9,
                p >= 1,
        ;
    }
}

/// `num_val` of a two-character string, written out by position.
pub proof fn lemma_num_val2(s: Seq<char>)
    requires
        s.len() == 2,
    ensures
        num_val(s) == digit_val(s[0]) * 10 + digit_val(s[1]),
{
    let s1 = s.drop_first();
    assert(s1[0] == s[1]);
    assert(pow10(0) == 1);
    assert(pow10(1) == 10 * pow10(0));
    assert(s1.drop_first().len() == 0);
    assert(num_val(s1.drop_first()) == 0);
    assert(num_val(s1) == digit_val(s1[0]) * pow10(0) + num_val(s1.drop_first()));
    assert(num_val(s) == digit_val(s[0]) * pow10(1) + num_val(s1));
}

/// `num_val` of a four-character string, written out by position.
pub proof fn lemma_num_val4(s: Seq<char>)
    requires
        s.len() == 4,
    ensures
        num_val(s) == digit_val(s[0]) * 1000 + digit_val(s[1]) * 100 + digit_val(s[2]) * 10
            + digit_val(s[3]),
{
    reveal_with_fuel(pow10, 5);
    reveal_with_fuel(num_val, 5);
    let s1 = s.drop_first();
    let s2 = s1.drop_first();
    assert(s1[0] == s[1] && s1[1] == s[2] && s1[2] == s[3]);
    assert(s2[0] == s[2] && s2[1] == s[3]);
    lemma_num_val2(s2);
}

/// `num_val` of a six-character string, written out by position.
pub proof fn lemma_num_val6(s: Seq<char>)
    requires
        s.len() == 6,
    ensures
        num_val(s) == digit_val(s[0]) * 100000 + digit_val(s[1]) * 10000 + digit_val(s[2]) * 1000
            + digit_val(s[3]) * 100 + digit_val(s[4]) * 10 + digit_val(s[5]),
{
    reveal_with_fuel(pow10, 7);
    reveal_with_fuel(num_val, 7);
    let s1 = s.drop_first();
    let s2 = s1.drop_first();
    assert(s1[0] == s[1] && s1[1] == s[2] && s1[2] == s[3] && s1[3] == s[4] && s1[4] == s[5]);
    assert(s2[0] == s[2] && s2[1] == s[3] && s2[2] == s[4] && s2[3] == s[5]);
    lemma_num_val4(s2);
}

/// `num_val` of an eight-character string, written out by position.
pub proof fn lemma_num_val8(s: Seq<char>)
    requires
        s.len() == 8,
    ensures
        num_val(s) == digit_val(s[0]) * 10000000 + digit_val(s[1]) * 1000000 + digit_val(s[2])
            * 100000 + digit_val(s[3]) * 10000 + digit_val(s[4]) * 1000 + digit_val(s[5]) * 100
            + digit_val(s[6]) * 10 + digit_val(s[7]),
{
    reveal_with_fuel(pow10, 9);
    reveal_with_fuel(num_val, 9);
    let s1 = s.drop_first();
    let s2 = s1.drop_first();
    assert(forall|i: int| 0 <= i < 7 ==> s1[i] == s[i + 1]);
    assert(forall|i: int| 0 <= i < 6 ==> s2[i] == s[i + 2]);
    lemma_num_val6(s2);
}

/// Strict lexicographic order on character sequences, by code point.
pub open spec fn lex_lt(a: Seq<char>, b: Seq<char>) -> bool
    decreases a.len(),
{
    if b.len() == 0 {
        false
    } else if a.len() == 0 {
        true
    } else if (a[0] as int) < (b[0] as int) {
        true
    } else if a[0] == b[0] {
        lex_lt(a.drop_first(), b.drop_first())
    } else {
        false
    }
}

/// Of two character sequences, exactly one of `lex_lt(a, b)`, `a == b`,
/// `lex_lt(b, a)` holds.
pub proof fn lemma_lex_trichotomy(a: Seq<char>, b: Seq<char>)
    ensures
        lex_lt(a, b) ==> !(a == b) && !lex_lt(b, a),
        lex_lt(b, a) ==> !(a == b) && !lex_lt(a, b),
        !lex_lt(a, b) && !lex_lt(b, a) ==> a == b,
    decreases a.len(),
{
    if a.len() == 0 && b.len() == 0 {
        assert(a =~= b);
    } else if a.len() == 0 || b.len() == 0 {
    } else {
        lemma_lex_trichotomy(a.drop_first(), b.drop_first());
        if !lex_lt(a, b) && !lex_lt(b, a) {
            assert(a[0] == b[0]);
            assert(a.drop_first() == b.drop_first());
            assert forall|i: int| 0 <= i < a.len() implies a[i] == b[i] by {
                if i > 0 {
                    assert(a[i] == a.drop_first()[i - 1]);
                    assert(b[i] == b.drop_first()[i - 1]);
                }
            }
            assert(a =~= b);
        }
        if a == b {
            assert(a.drop_first() =~= b.drop_first());
        }
    }
}

/// The lexicographic order is transitive.
pub proof fn lemma_lex_lt_trans(a: Seq<char>, b: Seq<char>, c: Seq<char>)
    requires
        lex_lt(a, b),
        lex_lt(b, c),
    ensures
        lex_lt(a, c),
    decreases a.len(),
{
    if a.len() == 0 {
    } else {
        if (a[0] as int) < (c[0] as int) {
        } else {
            lemma_lex_lt_trans(a.drop_first(), b.drop_first(), c.drop_first());
        }
    }
}

/// A string orders before another when they agree up to a position where
/// the first holds the smaller character.
pub proof fn lemma_lex_lt_at(a: Seq<char>, b: Seq<char>, i: int)
    requires
        0 <= i < a.len(),
        i < b.len(),
        forall|j: int| 0 <= j < i ==> a[j] == b[j],
        (a[i] as int) < (b[i] as int),
    ensures
        lex_lt(a, b),
    decreases i,
{
    if i > 0 {
        lemma_lex_lt_at(a.drop_first(), b.drop_first(), i - 1);
    }
}

/// A proper prefix orders before the longer string.
pub proof fn lemma_lex_lt_prefix(a: Seq<char>, b: Seq<char>)
    requires
        a.len() < b.len(),
        forall|j: int| 0 <= j < a.len() ==> a[j] == b[j],
    ensures
        lex_lt(a, b),
    decreases a.len(),
{
    if a.len() > 0 && !((a[0] as int) < (b[0] as int)) {
        lemma_lex_lt_prefix(a.drop_first(), b.drop_first());
    }
}

/// Three-way comparison of strings in the lexicographic order.
pub fn str_compare(a: &str, b: &str) -> (r: core::cmp::Ordering)
    ensures
        r == core::cmp::Ordering::Less <==> lex_lt(a@, b@),
        r == core::cmp::Ordering::Greater <==> lex_lt(b@, a@),
        r == core::cmp::Ordering::Equal <==> a@ == b@,
{
    let la = a.unicode_len();
    let lb = b.unicode_len();
    let mut i: usize = 0;
    while i < la && i < lb
        invariant
            i <= la,
            i <= lb,
            la == a@.len(),
            lb == b@.len(),
            forall|j: int| 0 <= j < i ==> a@[j] == b@[j],
        decreases la - i,
    {
        let ca = a.get_char(i);
        let cb = b.get_char(i);
        let va = ca as u32;
        let vb = cb as u32;
        if va < vb {
            proof {
                lemma_lex_lt_at(a@, b@, i as int);
                lemma_lex_trichotomy(a@, b@);
            }
            return core::cmp::Ordering::Less;
        }
        if va > vb {
            proof {
                lemma_lex_lt_at(b@, a@, i as int);
                lemma_lex_trichotomy(a@, b@);
            }
            return core::cmp::Ordering::Greater;
        }
        proof {
            assert(ca == cb);
        }
        i = i + 1;
    }
    if la < lb {
        proof {
            lemma_lex_lt_prefix(a@, b@);
            lemma_lex_trichotomy(a@, b@);
        }
        core::cmp::Ordering::Less
    } else if lb < la {
        proof {
            lemma_lex_lt_prefix(b@, a@);
            lemma_lex_trichotomy(a@, b@);
        }
        core::cmp::Ordering::Greater
    } else {
        proof {
            assert(a@ =~= b@);
            lemma_lex_trichotomy(a@, b@);
        }
        core::cmp::Ordering::Equal
    }
}

/// On equal-length digit strings, the lexicographic order is the numeric
/// order of the values they denote.
pub proof fn lemma_lex_num(a: Seq<char>, b: Seq<char>)
    requires
        a.len() == b.len(),
        all_digits(a),
        all_digits(b),
    ensures
        lex_lt(a, b) <==> num_val(a) < num_val(b),
    decreases a.len(),
{
    if a.len() == 0 {
    } else {
        let p = pow10((a.len() - 1) as nat);
        let da = digit_val(a[0]);
        let db = digit_val(b[0]);
        lemma_pow10_pos((a.len() - 1) as nat);
        lemma_num_val_bound(a.drop_first());
        lemma_num_val_bound(b.drop_first());
        lemma_lex_num(a.drop_first(), b.drop_first());
        if da < db {
            assert(da * p + p <= db * p) by (nonlinear_arith)
                requires
                    da < db,
                    p >= 1,
            ;
        } else if da > db {
            assert(db * p + p <= da * p) by (nonlinear_arith)
                requires
                    db < da,
                    p >= 1,
            ;
        } else {
            assert(a[0] == b[0]);
        }
    }
}

} // verus!
