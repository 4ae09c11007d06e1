//! Decimal text: rendering numbers the way the panel shows them.
//!
//! Temperatures travel through the system in tenths of a degree so that the
//! display math stays exact; these functions turn such values, and plain
//! integers, into the digit strings the panel draws, and state precisely
//! which characters come out.

use vstd::prelude::*;
use vstd::string::StringExecFns;

verus! {

/// The digit character for a value below ten.
pub open spec fn spec_digit_char(d: nat) -> char {
    if d == 0 {
        '0'
    } else if d == 1 {
        '1'
    } else if d == 2 {
        '2'
    } else if d == 3 {
        '3'
    } else if d == 4 {
        '4'
    } else if d == 5 {
        '5'
    } else if d == 6 {
        '6'
    } else if d == 7 {
        '7'
    } else if d == 8 {
        '8'
    } else {
        '9'
    }
}

/// Decimal digits of `n`, most significant first, with no leading zeros
/// (a lone zero for `n == 0`).
pub open spec fn spec_digits_of(n: nat) -> Seq<char>
    decreases n,
{
    if n < 10 {
        seq![spec_digit_char(n)]
    } else {
        spec_digits_of(n / 10) + seq![spec_digit_char(n % 10)]
    }
}

/// Decimal text of a signed value: a minus sign before the digits when
/// negative.
pub open spec fn spec_int_text(n: int) -> Seq<char> {
    if n < 0 {
        seq!['-'] + spec_digits_of((-n) as nat)
    } else {
        spec_digits_of(n as nat)
    }
}

/// Two-digit text of `n`, zero-padded below ten, as clock digits are shown.
pub open spec fn spec_two_digit_text(n: nat) -> Seq<char> {
    if n < 10 {
        seq!['0'] + spec_digits_of(n)
    } else {
        spec_digits_of(n)
    }
}

/// A single digit as a borrowed string.
pub fn digit_str(d: u8) -> (r: &'static str)
    requires
        d < 10,
    ensures
        r@ == seq![spec_digit_char(d as nat)],
{
    proof {
        reveal_strlit("0");
        reveal_strlit("1");
        reveal_strlit("2");
        reveal_strlit("3");
        reveal_strlit("4");
        reveal_strlit("5");
        reveal_strlit("6");
        reveal_strlit("7");
        reveal_strlit("8");
        reveal_strlit("9");
    }
    let r = match d {
        0 => "0",
        1 => "1",
        2 => "2",
        3 => "3",
        4 => "4",
        5 => "5",
        6 => "6",
        7 => "7",
        8 => "8",
        _ => "9",
    };
    proof {
        assert(r@ =~= seq![spec_digit_char(d as nat)]);
    }
    r
}

/// Renders `n` in decimal.
pub fn format_u64(n: u64) -> (r: String)
    ensures
        r@ == spec_digits_of(n as nat),
    decreases n,
{
    if n < 10 {
        let mut s = String::new();
        s.append(digit_str(n as u8));
        proof {
            assert(s@ =~= spec_digits_of(n as nat));
        }
        s
    } else {
        let mut s = format_u64(n / 10);
        s.append(digit_str((n % 10) as u8));
        proof {
            assert(s@ =~= spec_digits_of(n as nat));
        }
        s
    }
}

/// Renders a signed value in decimal, minus sign included.
pub fn format_i64(n: i64) -> (r: String)
    requires
        n > i64::MIN,
    ensures
        r@ == spec_int_text(n as int),
{
    if n < 0 {
        proof {
            reveal_strlit("-");
        }
        let mut s = String::from_str("-");
        let digits = format_u64((-n) as u64);
        s.append(digits.as_str());
        proof {
            assert(s@ =~= spec_int_text(n as int));
        }
        s
    } else {
        format_u64(n as u64)
    }
}

/// Renders `n` as at least two digits, zero-padded, as the clock shows
/// hours and minutes.
pub fn format_two_digits(n: u8) -> (r: String)
    ensures
        r@ == spec_two_digit_text(n as nat),
{
    if n < 10 {
        proof {
            reveal_strlit("0");
        }
        let mut s = String::from_str("0");
        let d = digit_str(n);
        s.append(d);
        proof {
            assert("0"@ =~= seq!['0']);
            assert(s@ =~= spec_two_digit_text(n as nat));
        }
        s
    } else {
        format_u64(n as u64)
    }
}

/// Compares two pieces of text character by character.
pub fn str_eq(a: &str, b: &str) -> (r: bool)
    ensures
        r == (a@ == b@),
{
    let n = a.unicode_len();
    let m = b.unicode_len();
    if n != m {
        return false;
    }
    let mut i: usize = 0;
    while i < n
        invariant
            0 <= i <= n == a@.len() == b@.len(),
            forall|j: int| 0 <= j < i ==> a@[j] == b@[j],
        decreases n - i,
    {
        if a.get_char(i) != b.get_char(i) {
            return false;
        }
        i = i + 1;
    }
    proof {
        assert(a@ =~= b@);
    }
    true
}

/// The value of `t` tenths rounded down to a whole unit, as the forecast
/// panel shows daily extremes.
pub open spec fn spec_floor_tenths(t: int) -> int {
    t / 10
}

/// The value of `t` tenths rounded to the nearest whole unit, halves away
/// from zero, as the indoor readings are shown.
pub open spec fn spec_round_tenths(t: int) -> int {
    if t >= 0 {
        (t + 5) / 10
    } else {
        -((-t + 5) / 10)
    }
}

/// The value of `h` hundredths rounded to the nearest whole unit, halves
/// away from zero.
pub open spec fn spec_round_hundredths(h: int) -> int {
    if h >= 0 {
        (h + 50) / 100
    } else {
        -((-h + 50) / 100)
    }
}

/// Rounds a tenths value down to whole units.
pub fn floor_tenths(t: i32) -> (r: i32)
    requires
        i32::MIN < t,
    ensures
        r == spec_floor_tenths(t as int),
{
    if t >= 0 {
        (t as u32 / 10) as i32
    } else {
        let m: u32 = (-t) as u32;
        let q: u32 = (m + 9) / 10;
        proof {
            assert(-((m + 9) as int / 10) == (t as int) / 10) by (nonlinear_arith)
                requires
                    m == -(t as int) && t < 0,
            ;
        }
        -(q as i32)
    }
}

/// Rounds a tenths value to the nearest whole unit, halves away from zero.
pub fn round_tenths(t: i32) -> (r: i32)
    requires
        i32::MIN + 5 < t,
    ensures
        r == spec_round_tenths(t as int),
{
    if t >= 0 {
        ((t as u32 + 5) / 10) as i32
    } else {
        let m: u32 = (-t) as u32;
        let q: u32 = (m + 5) / 10;
        -(q as i32)
    }
}

/// Rounds a hundredths value to the nearest whole unit, halves away from
/// zero.
pub fn round_hundredths(h: i32) -> (r: i32)
    requires
        i32::MIN + 50 < h,
    ensures
        r == spec_round_hundredths(h as int),
{
    if h >= 0 {
        ((h as u32 + 50) / 100) as i32
    } else {
        let m: u32 = (-h) as u32;
        let q: u32 = (m + 50) / 100;
        -(q as i32)
    }
}

/// Rounds a tenths value to the nearest whole unit, halves away from zero.
pub fn round_tenths_i64(t: i64) -> (r: i64)
    requires
        i64::MIN + 5 < t,
    ensures
        r == spec_round_tenths(t as int),
{
    if t >= 0 {
        ((t as u64 + 5) / 10) as i64
    } else {
        let m: u64 = (-t) as u64;
        let q: u64 = (m + 5) / 10;
        -(q as i64)
    }
}

/// Rounds a hundredths value to the nearest whole unit, halves away from
/// zero.
pub fn round_hundredths_i64(h: i64) -> (r: i64)
    requires
        i64::MIN + 50 < h,
    ensures
        r == spec_round_hundredths(h as int),
{
    if h >= 0 {
        ((h as u64 + 50) / 100) as i64
    } else {
        let m: u64 = (-h) as u64;
        let q: u64 = (m + 50) / 100;
        -(q as i64)
    }
}

/// How a tenths value is shown as a plain number: the fractional digit
/// appears only when it is not zero, matching how the device has always
/// printed whole readings without a trailing `.0`.
pub open spec fn spec_tenths_text(t: int) -> Seq<char> {
    if t % 10 == 0 {
        spec_int_text(t / 10)
    } else if t >= 0 {
        spec_digits_of((t / 10) as nat) + seq!['.'] + seq![spec_digit_char((t % 10) as nat)]
    } else {
        seq!['-'] + spec_digits_of(((-t) / 10) as nat) + seq!['.'] + seq![
            spec_digit_char(((-t) % 10) as nat),
        ]
    }
}

/// Renders a tenths value for the panel: whole numbers without a decimal
/// point, others with one fractional digit.
pub fn format_tenths(t: i32) -> (r: String)
    requires
        i32::MIN < t,
    ensures
        r@ == spec_tenths_text(t as int),
{
    proof {
        reveal_strlit("-");
        reveal_strlit(".");
    }
    if t >= 0 {
        let whole: u32 = t as u32 / 10;
        let frac: u32 = t as u32 % 10;
        if frac == 0 {
            let r = format_u64(whole as u64);
            proof {
                assert(r@ =~= spec_tenths_text(t as int));
            }
            r
        } else {
            let mut s = format_u64(whole as u64);
            s.append(".");
            s.append(digit_str(frac as u8));
            proof {
                assert(s@ =~= spec_tenths_text(t as int));
            }
            s
        }
    } else {
        let m: u32 = (-t) as u32;
        let whole: u32 = m / 10;
        let frac: u32 = m % 10;
        proof {
            assert((t as int) % 10 == 0 <==> frac == 0) by (nonlinear_arith)
                requires
                    m == -(t as int) && t < 0 && frac == m as int % 10,
            ;
            assert((t as int) / 10 == -((m as int + 9) / 10)) by (nonlinear_arith)
                requires
                    m == -(t as int) && t < 0,
            ;
        }
        if frac == 0 {
            let mut s = String::from_str("-");
            let digits = format_u64(whole as u64);
            s.append(digits.as_str());
            proof {
                assert((m as int + 9) / 10 == whole) by (nonlinear_arith)
                    requires
                        whole == m as int / 10 && m as int % 10 == 0 && m > 0,
                ;
                assert(s@ =~= spec_tenths_text(t as int));
            }
            s
        } else {
            let mut s = String::from_str("-");
            let digits = format_u64(whole as u64);
            s.append(digits.as_str());
            s.append(".");
            s.append(digit_str(frac as u8));
            proof {
                assert(s@ =~= spec_tenths_text(t as int));
            }
            s
        }
    }
}

} // verus!
