use crate::date::{valid_date, Date};
use vstd::arithmetic::div_mod::{
    lemma_div_decreases, lemma_div_denominator, lemma_fundamental_div_mod,
};
use vstd::prelude::*;
use vstd::string::StringExecFns;

verus! {

pub open spec fn digit_char(d: int) -> char {
    if d == 0 {
        '0'
    } else if d == 1 {
        '1'
    } else if d == 2 {
        '2'
    } else if d == 3 {
        '3'
    } else if d == 4 {
        '4'
    } else if d == 5 {
        '5'
    } else if d == 6 {
        '6'
    } else if d == 7 {
        '7'
    } else if d == 8 {
        '8'
    } else {
        '9'
    }
}

/// Decimal digits of `n`, most significant first, without leading zeros.
pub open spec fn dec_digits(n: nat) -> Seq<char>
    decreases n,
{
    if n < 10 {
        seq![digit_char(n as int)]
    } else {
        dec_digits(n / 10) + seq![digit_char((n % 10) as int)]
    }
}

/// Decimal rendering of a signed integer: a leading `-` for negatives, then
/// the digits.
pub open spec fn dec_int(n: int) -> Seq<char> {
    if n < 0 {
        "-"@ + dec_digits((-n) as nat)
    } else {
        dec_digits(n as nat)
    }
}

/// Two decimal digits, zero padded: the low two digits of `n`.
pub open spec fn pad2(n: int) -> Seq<char> {
    seq![digit_char(n / 10 % 10), digit_char(n % 10)]
}

/// Four decimal digits, zero padded: the low four digits of `n`.
pub open spec fn pad4(n: int) -> Seq<char> {
    seq![
        digit_char(n / 1000 % 10),
        digit_char(n / 100 % 10),
        digit_char(n / 10 % 10),
        digit_char(n % 10),
    ]
}

/// `YYYY-MM-DD`.
pub open spec fn date_chars(d: Date) -> Seq<char> {
    pad4(d.year as int) + "-"@ + pad2(d.month as int) + "-"@ + pad2(d.day as int)
}

pub open spec fn is_digit_char(c: char) -> bool {
    c == '0' || c == '1' || c == '2' || c == '3' || c == '4' || c == '5' || c == '6' || c == '7'
        || c == '8' || c == '9'
}

pub open spec fn digits_only(s: Seq<char>) -> bool {
    forall|i: int| 0 <= i < s.len() ==> is_digit_char(#[trigger] s[i])
}

pub proof fn lemma_dec_digits_shape(n: nat)
    ensures
        dec_digits(n).len() >= 1,
        digits_only(dec_digits(n)),
        n >= 10 ==> dec_digits(n).len() >= 2,
    decreases n,
{
    if n >= 10 {
        lemma_div_decreases(n as int, 10);
        lemma_dec_digits_shape(n / 10);
    }
}

/// Distinct numbers render as distinct digit strings.
pub proof fn lemma_dec_digits_injective(m: nat, n: nat)
    requires
        dec_digits(m) == dec_digits(n),
    ensures
        m == n,
    decreases m,
{
    lemma_dec_digits_shape(m);
    lemma_dec_digits_shape(n);
    if m < 10 && n < 10 {
        assert(dec_digits(m)[0] == digit_char(m as int));
        assert(dec_digits(n)[0] == digit_char(n as int));
    } else if m < 10 {
        assert(dec_digits(m).len() == 1);
    } else if n < 10 {
        assert(dec_digits(n).len() == 1);
    } else {
        lemma_div_decreases(m as int, 10);
        lemma_div_decreases(n as int, 10);
        assert(dec_digits(m).last() == digit_char((m % 10) as int));
        assert(dec_digits(n).last() == digit_char((n % 10) as int));
        assert(m % 10 == n % 10);
        assert(dec_digits(m).drop_last() =~= dec_digits(m / 10));
        assert(dec_digits(n).drop_last() =~= dec_digits(n / 10));
        lemma_dec_digits_injective(m / 10, n / 10);
        lemma_fundamental_div_mod(m as int, 10);
        lemma_fundamental_div_mod(n as int, 10);
    }
}

/// Distinct integers render as distinct decimal strings.
pub proof fn lemma_dec_int_injective(m: int, n: int)
    requires
        dec_int(m) == dec_int(n),
    ensures
        m == n,
{
    reveal_strlit("-");
    lemma_dec_digits_shape(if m < 0 {
        (-m) as nat
    } else {
        m as nat
    });
    lemma_dec_digits_shape(if n < 0 {
        (-n) as nat
    } else {
        n as nat
    });
    if m < 0 && n < 0 {
        assert(dec_int(m).skip(1) =~= dec_digits((-m) as nat));
        assert(dec_int(n).skip(1) =~= dec_digits((-n) as nat));
        lemma_dec_digits_injective((-m) as nat, (-n) as nat);
    } else if m < 0 {
        assert(dec_int(m)[0] == '-');
        assert(is_digit_char(dec_int(n)[0]));
        assert(false);
    } else if n < 0 {
        assert(dec_int(n)[0] == '-');
        assert(is_digit_char(dec_int(m)[0]));
        assert(false);
    } else {
        lemma_dec_digits_injective(m as nat, n as nat);
    }
}

proof fn lemma_four_digits(y: int)
    requires
        0 <= y <= 9999,
    ensures
        y == (y / 1000 % 10) * 1000 + (y / 100 % 10) * 100 + (y / 10 % 10) * 10 + y % 10,
{
    lemma_fundamental_div_mod(y, 10);
    lemma_fundamental_div_mod(y / 10, 10);
    lemma_fundamental_div_mod(y / 100, 10);
    lemma_div_denominator(y, 10, 10);
    lemma_div_denominator(y, 100, 10);
    assert(y / 1000 <= 9) by {
        vstd::arithmetic::div_mod::lemma_div_is_ordered(y, 9999, 1000);
    }
}

proof fn lemma_two_digits(m: int)
    requires
        0 <= m <= 99,
    ensures
        m == (m / 10 % 10) * 10 + m % 10,
{
    lemma_fundamental_div_mod(m, 10);
    assert(m / 10 <= 9) by {
        vstd::arithmetic::div_mod::lemma_div_is_ordered(m, 99, 10);
    }
}

/// Distinct valid dates render as distinct `YYYY-MM-DD` strings.
pub proof fn lemma_date_chars_injective(d1: Date, d2: Date)
    requires
        valid_date(d1),
        valid_date(d2),
        date_chars(d1) == date_chars(d2),
    ensures
        d1 == d2,
{
    reveal_strlit("-");
    let s1 = date_chars(d1);
    let s2 = date_chars(d2);
    assert(s1[0] == digit_char(d1.year as int / 1000 % 10));
    assert(s1[1] == digit_char(d1.year as int / 100 % 10));
    assert(s1[2] == digit_char(d1.year as int / 10 % 10));
    assert(s1[3] == digit_char(d1.year as int % 10));
    assert(s1[5] == digit_char(d1.month as int / 10 % 10));
    assert(s1[6] == digit_char(d1.month as int % 10));
    assert(s1[8] == digit_char(d1.day as int / 10 % 10));
    assert(s1[9] == digit_char(d1.day as int % 10));
    assert(s2[0] == digit_char(d2.year as int / 1000 % 10));
    assert(s2[1] == digit_char(d2.year as int / 100 % 10));
    assert(s2[2] == digit_char(d2.year as int / 10 % 10));
    assert(s2[3] == digit_char(d2.year as int % 10));
    assert(s2[5] == digit_char(d2.month as int / 10 % 10));
    assert(s2[6] == digit_char(d2.month as int % 10));
    assert(s2[8] == digit_char(d2.day as int / 10 % 10));
    assert(s2[9] == digit_char(d2.day as int % 10));
    lemma_four_digits(d1.year as int);
    lemma_four_digits(d2.year as int);
    lemma_two_digits(d1.month as int);
    lemma_two_digits(d2.month as int);
    lemma_two_digits(d1.day as int);
    lemma_two_digits(d2.day as int);
}

/// The rendered date holds digits and `-` alone.
pub proof fn lemma_date_chars_contents(d: Date)
    ensures
        date_chars(d).len() == 10,
        forall|i: int|
            0 <= i < 10 ==> (is_digit_char(#[trigger] date_chars(d)[i]) || date_chars(d)[i] == '-'),
{
    reveal_strlit("-");
}

/// The rendered integer holds digits and a leading `-` alone.
pub proof fn lemma_dec_int_contents(n: int)
    ensures
        forall|i: int|
            0 <= i < dec_int(n).len() ==> (is_digit_char(#[trigger] dec_int(n)[i]) || dec_int(
                n,
            )[i] == '-'),
{
    reveal_strlit("-");
    if n < 0 {
        lemma_dec_digits_shape((-n) as nat);
    } else {
        lemma_dec_digits_shape(n as nat);
    }
}

fn digit_str(d: u64) -> (r: &'static str)
    requires
        d < 10,
    ensures
        r@ == seq![digit_char(d as int)],
{
    let r: &'static str = match d {
        0 => "0",
        1 => "1",
        2 => "2",
        3 => "3",
        4 => "4",
        5 => "5",
        6 => "6",
        7 => "7",
        8 => "8",
        _ => "9",
    };
    proof {
        reveal_strlit("0");
        reveal_strlit("1");
        reveal_strlit("2");
        reveal_strlit("3");
        reveal_strlit("4");
        reveal_strlit("5");
        reveal_strlit("6");
        reveal_strlit("7");
        reveal_strlit("8");
        reveal_strlit("9");
        assert(r@ =~= seq![digit_char(d as int)]);
    }
    r
}

/// Append the decimal digits of `n`.
pub fn push_u64_digits(out: &mut String, n: u64)
    ensures
        final(out)@ == old(out)@ + dec_digits(n as nat),
    decreases n,
{
    if n < 10 {
        out.append(digit_str(n));
    } else {
        proof {
            lemma_div_decreases(n as int, 10);
        }
        push_u64_digits(out, n / 10);
        out.append(digit_str(n % 10));
        proof {
            assert(out@ =~= old(out)@ + dec_digits(n as nat));
        }
    }
}

/// Append the decimal rendering of `n`.
pub fn push_i32_dec(out: &mut String, n: i32)
    ensures
        final(out)@ == old(out)@ + dec_int(n as int),
{
    if n < 0 {
        out.append("-");
        let m: u64 = (-(n as i64)) as u64;
        push_u64_digits(out, m);
        proof {
            assert(out@ =~= old(out)@ + dec_int(n as int));
        }
    } else {
        push_u64_digits(out, n as u64);
    }
}

/// Append `d` as `YYYY-MM-DD`.
pub fn push_date(out: &mut String, d: Date)
    requires
        valid_date(d),
    ensures
        final(out)@ == old(out)@ + date_chars(d),
{
    let y: u64 = d.year as u64;
    out.append(digit_str(y / 1000));
    out.append(digit_str(y / 100 % 10));
    out.append(digit_str(y / 10 % 10));
    out.append(digit_str(y % 10));
    out.append("-");
    let m: u64 = d.month as u64;
    out.append(digit_str(m / 10));
    out.append(digit_str(m % 10));
    out.append("-");
    let day: u64 = d.day as u64;
    out.append(digit_str(day / 10));
    out.append(digit_str(day % 10));
    proof {
        assert(out@ =~= old(out)@ + date_chars(d));
    }
}

} // verus!
