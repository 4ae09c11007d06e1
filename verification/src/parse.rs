//! Parsing the fixed text layouts the external services send.
//!
//! The forecast and time services emit dates and timestamps in fixed
//! ISO-8601-like layouts (`YYYY-MM-DD`, `YYYY-MM-DDTHH:MM`, and
//! `YYYY-MM-DDTHH:MM:SS` followed by fraction and zone).  Malformed input is
//! a typed error, never a crash; each parser says exactly which inputs it
//! accepts and what the fields of the result are.

use vstd::prelude::*;
use crate::datetime::{DateTime, DayOfWeek, day_of_week_from_index, spec_day_of_week_from_index};

verus! {

/// Why a piece of service text was rejected.
#[derive(Clone, Copy, Debug, PartialEq, Eq, Structural)]
pub enum ParseError {
    /// The text ends before the layout does.
    TooShort,
    /// The text is long enough but a character breaks the layout.
    BadSyntax,
}

/// Whether `c` is a decimal digit.
pub open spec fn spec_is_digit(c: char) -> bool {
    48 <= c as int <= 57
}

/// The value of a digit character.
pub open spec fn spec_digit_val(c: char) -> nat {
    (c as int - 48) as nat
}

/// Whether every character of `s` is a decimal digit.
pub open spec fn spec_all_digits(s: Seq<char>) -> bool {
    forall|i: int| 0 <= i < s.len() ==> spec_is_digit(#[trigger] s[i])
}

/// The number a run of digit characters denotes, most significant first.
pub open spec fn spec_digits_val(s: Seq<char>) -> nat
    decreases s.len(),
{
    if s.len() == 0 {
        0
    } else {
        spec_digits_val(s.drop_last()) * 10 + spec_digit_val(s.last())
    }
}

/// Ten to the power `n`.
pub open spec fn pow10(n: nat) -> nat
    decreases n,
{
    if n == 0 {
        1
    } else {
        10 * pow10((n - 1) as nat)
    }
}

proof fn lemma_pow10_increases(a: nat, b: nat)
    requires
        a <= b,
    ensures
        pow10(a) <= pow10(b),
    decreases b,
{
    if a < b {
        lemma_pow10_increases(a, (b - 1) as nat);
    }
}

proof fn lemma_digits_val_bound(s: Seq<char>)
    requires
        spec_all_digits(s),
    ensures
        spec_digits_val(s) < pow10(s.len()),
    decreases s.len(),
{
    if s.len() > 0 {
        assert(spec_all_digits(s.drop_last()));
        lemma_digits_val_bound(s.drop_last());
    }
}

/// Reads the digit run `s[from..to]` as a number.  Fails exactly when a
/// character in that range is not a digit.
pub fn parse_decimal(s: &str, from: usize, to: usize) -> (r: Result<u32, ParseError>)
    requires
        from <= to <= s@.len(),
        to - from <= 9,
    ensures
        r is Ok <==> spec_all_digits(s@.subrange(from as int, to as int)),
        r matches Ok(v) ==> v == spec_digits_val(s@.subrange(from as int, to as int)),
        r matches Ok(v) ==> v < pow10((to - from) as nat),
        r matches Err(e) ==> e == ParseError::BadSyntax,
{
    let ghost run = s@.subrange(from as int, to as int);
    let mut acc: u32 = 0;
    let mut i: usize = from;
    while i < to
        invariant
            from <= i <= to <= s@.len(),
            to - from <= 9,
            run == s@.subrange(from as int, to as int),
            spec_all_digits(s@.subrange(from as int, i as int)),
            acc == spec_digits_val(s@.subrange(from as int, i as int)),
            acc < pow10((i - from) as nat),
        decreases to - i,
    {
        let c = s.get_char(i);
        let v = c as u32;
        if v < 48 || v > 57 {
            proof {
                assert(run[i - from] == s@[i as int]);
            }
            return Err(ParseError::BadSyntax);
        }
        let d: u32 = v - 48;
        proof {
            lemma_pow10_increases((i - from) as nat, 8);
            assert(pow10(8) == 100000000) by {
                assert(pow10(0) == 1);
                assert(pow10(1) == 10);
                assert(pow10(2) == 100);
                assert(pow10(3) == 1000);
                assert(pow10(4) == 10000);
                assert(pow10(5) == 100000);
                assert(pow10(6) == 1000000);
                assert(pow10(7) == 10000000);
            }
        }
        let next: u32 = acc * 10 + d;
        proof {
            let pre = s@.subrange(from as int, i as int);
            let post = s@.subrange(from as int, i + 1int);
            assert(post.drop_last() =~= pre);
            assert(post.last() == s@[i as int]);
            assert(forall|j: int| 0 <= j < post.len() ==> post[j] == s@[from + j]);
        }
        acc = next;
        i = i + 1;
    }
    proof {
        assert(s@.subrange(from as int, i as int) =~= run);
    }
    Ok(acc)
}

/// The date layout `YYYY-MM-DD`.
pub open spec fn spec_date_shape(s: Seq<char>) -> bool {
    &&& s.len() == 10
    &&& spec_all_digits(s.subrange(0, 4))
    &&& s[4] == '-'
    &&& spec_all_digits(s.subrange(5, 7))
    &&& s[7] == '-'
    &&& spec_all_digits(s.subrange(8, 10))
}

/// The year a date layout denotes.
pub open spec fn spec_date_year(s: Seq<char>) -> nat {
    spec_digits_val(s.subrange(0, 4))
}

/// The month a date layout denotes.
pub open spec fn spec_date_month(s: Seq<char>) -> nat {
    spec_digits_val(s.subrange(5, 7))
}

/// The day a date layout denotes.
pub open spec fn spec_date_day(s: Seq<char>) -> nat {
    spec_digits_val(s.subrange(8, 10))
}

/// Reads a date written `YYYY-MM-DD` into a timestamp whose time-of-day
/// fields are zero and whose day of week defaults to Sunday, which is all
/// the forecast strip needs of it.
pub fn format_date(date: &str) -> (r: Result<DateTime, ParseError>)
    ensures
        r is Ok <==> spec_date_shape(date@),
        r == Err::<DateTime, ParseError>(ParseError::TooShort) <==> date@.len() < 10,
        r matches Ok(dt) ==> {
            &&& dt.year == spec_date_year(date@)
            &&& dt.month == spec_date_month(date@)
            &&& dt.day == spec_date_day(date@)
            &&& dt.day_of_week == DayOfWeek::Sunday
            &&& dt.hour == 0
            &&& dt.minute == 0
            &&& dt.second == 0
        },
{
    let n = date.unicode_len();
    if n < 10 {
        return Err(ParseError::TooShort);
    }
    if n > 10 {
        return Err(ParseError::BadSyntax);
    }
    if date.get_char(4) != '-' || date.get_char(7) != '-' {
        return Err(ParseError::BadSyntax);
    }
    let year = match parse_decimal(date, 0, 4) {
        Ok(v) => v,
        Err(_) => { return Err(ParseError::BadSyntax) },
    };
    let month = match parse_decimal(date, 5, 7) {
        Ok(v) => v,
        Err(_) => { return Err(ParseError::BadSyntax) },
    };
    let day = match parse_decimal(date, 8, 10) {
        Ok(v) => v,
        Err(_) => { return Err(ParseError::BadSyntax) },
    };
    proof {
        assert(pow10(4) == 10000) by {
            assert(pow10(0) == 1);
            assert(pow10(1) == 10);
            assert(pow10(2) == 100);
            assert(pow10(3) == 1000);
        }
        assert(pow10(2) == 100) by {
            assert(pow10(0) == 1);
            assert(pow10(1) == 10);
        }
    }
    Ok(DateTime {
        year: year as u16,
        month: month as u8,
        day: day as u8,
        day_of_week: DayOfWeek::Sunday,
        hour: 0,
        minute: 0,
        second: 0,
    })
}

/// The short timestamp layout `YYYY-MM-DDTHH:MM`, as sunrise and sunset
/// are sent.
pub open spec fn spec_short_datetime_shape(s: Seq<char>) -> bool {
    &&& s.len() == 16
    &&& spec_date_shape(s.subrange(0, 10))
    &&& s[10] == 'T'
    &&& spec_all_digits(s.subrange(11, 13))
    &&& s[13] == ':'
    &&& spec_all_digits(s.subrange(14, 16))
}

/// The hour a short or long timestamp layout denotes.
pub open spec fn spec_datetime_hour(s: Seq<char>) -> nat {
    spec_digits_val(s.subrange(11, 13))
}

/// The minute a short or long timestamp layout denotes.
pub open spec fn spec_datetime_minute(s: Seq<char>) -> nat {
    spec_digits_val(s.subrange(14, 16))
}

/// Reads a timestamp written `YYYY-MM-DDTHH:MM`.  The layout carries no
/// seconds and no day of week; those default to zero and Sunday.
pub fn format_short_datetime(short_datetime: &str) -> (r: Result<DateTime, ParseError>)
    ensures
        r is Ok <==> spec_short_datetime_shape(short_datetime@),
        r == Err::<DateTime, ParseError>(ParseError::TooShort) <==> short_datetime@.len() < 16,
        r matches Ok(dt) ==> {
            &&& dt.year == spec_date_year(short_datetime@.subrange(0, 10))
            &&& dt.month == spec_date_month(short_datetime@.subrange(0, 10))
            &&& dt.day == spec_date_day(short_datetime@.subrange(0, 10))
            &&& dt.hour == spec_datetime_hour(short_datetime@)
            &&& dt.minute == spec_datetime_minute(short_datetime@)
            &&& dt.second == 0
            &&& dt.day_of_week == DayOfWeek::Sunday
        },
{
    let n = short_datetime.unicode_len();
    if n < 16 {
        return Err(ParseError::TooShort);
    }
    if n > 16 {
        return Err(ParseError::BadSyntax);
    }
    parse_datetime_prefix(short_datetime, false)
}

/// The long timestamp layout `YYYY-MM-DDTHH:MM:SS` followed by a fraction
/// and zone offset, as the time service sends the current moment.  Only the
/// first nineteen characters are constrained; the tail may be anything.
pub open spec fn spec_long_datetime_shape(s: Seq<char>) -> bool {
    &&& s.len() >= 19
    &&& spec_date_shape(s.subrange(0, 10))
    &&& s[10] == 'T'
    &&& spec_all_digits(s.subrange(11, 13))
    &&& s[13] == ':'
    &&& spec_all_digits(s.subrange(14, 16))
    &&& s[16] == ':'
    &&& spec_all_digits(s.subrange(17, 19))
}

/// The whole second a long timestamp layout denotes.
pub open spec fn spec_datetime_second(s: Seq<char>) -> nat {
    spec_digits_val(s.subrange(17, 19))
}

/// Reads the time service's timestamp, `YYYY-MM-DDTHH:MM:SS` with a
/// fraction and zone offset after it, which are ignored.  The service
/// numbers days of week from zero at Sunday; an out-of-range number falls
/// back to Sunday, and so does an absent one.
pub fn format_long_datetime(datetime: &str, numeric_day_of_the_week: Option<u8>) -> (r: Result<
    DateTime,
    ParseError,
>)
    ensures
        r is Ok <==> spec_long_datetime_shape(datetime@),
        r == Err::<DateTime, ParseError>(ParseError::TooShort) <==> datetime@.len() < 19,
        r matches Ok(dt) ==> {
            &&& dt.year == spec_date_year(datetime@.subrange(0, 10))
            &&& dt.month == spec_date_month(datetime@.subrange(0, 10))
            &&& dt.day == spec_date_day(datetime@.subrange(0, 10))
            &&& dt.hour == spec_datetime_hour(datetime@)
            &&& dt.minute == spec_datetime_minute(datetime@)
            &&& dt.second == spec_datetime_second(datetime@)
            &&& dt.day_of_week == match numeric_day_of_the_week {
                Some(n) => spec_day_of_week_from_index(n),
                None => DayOfWeek::Sunday,
            }
        },
{
    let n = datetime.unicode_len();
    if n < 19 {
        return Err(ParseError::TooShort);
    }
    let base = match parse_datetime_prefix(datetime, true) {
        Ok(dt) => dt,
        Err(_) => { return Err(ParseError::BadSyntax) },
    };
    let dow = match numeric_day_of_the_week {
        Some(n) => day_of_week_from_index(n),
        None => DayOfWeek::Sunday,
    };
    Ok(DateTime { day_of_week: dow, ..base })
}

/// Shared scan of `YYYY-MM-DDTHH:MM`, extended by `:SS` when `with_seconds`
/// is set.  Callers have already checked the length.
fn parse_datetime_prefix(s: &str, with_seconds: bool) -> (r: Result<DateTime, ParseError>)
    requires
        !with_seconds ==> s@.len() == 16,
        with_seconds ==> s@.len() >= 19,
    ensures
        !with_seconds ==> (r is Ok <==> spec_short_datetime_shape(s@)),
        with_seconds ==> (r is Ok <==> spec_long_datetime_shape(s@)),
        r matches Ok(dt) ==> {
            &&& dt.year == spec_date_year(s@.subrange(0, 10))
            &&& dt.month == spec_date_month(s@.subrange(0, 10))
            &&& dt.day == spec_date_day(s@.subrange(0, 10))
            &&& dt.hour == spec_datetime_hour(s@)
            &&& dt.minute == spec_datetime_minute(s@)
            &&& dt.second == (if with_seconds {
                spec_datetime_second(s@)
            } else {
                0
            })
            &&& dt.day_of_week == DayOfWeek::Sunday
        },
        r matches Err(e) ==> e == ParseError::BadSyntax,
{
    let ghost date_part = s@.subrange(0, 10);
    if s.get_char(4) != '-' || s.get_char(7) != '-' || s.get_char(10) != 'T' || s.get_char(13)
        != ':' {
        proof {
            assert(date_part[4] == s@[4] && date_part[7] == s@[7]);
        }
        return Err(ParseError::BadSyntax);
    }
    let year = match parse_decimal(s, 0, 4) {
        Ok(v) => v,
        Err(_) => {
            proof {
                assert(s@.subrange(0int, 4int) =~= date_part.subrange(0, 4));
            }
            return Err(ParseError::BadSyntax);
        },
    };
    let month = match parse_decimal(s, 5, 7) {
        Ok(v) => v,
        Err(_) => {
            proof {
                assert(s@.subrange(5int, 7int) =~= date_part.subrange(5, 7));
            }
            return Err(ParseError::BadSyntax);
        },
    };
    let day = match parse_decimal(s, 8, 10) {
        Ok(v) => v,
        Err(_) => {
            proof {
                assert(s@.subrange(8int, 10int) =~= date_part.subrange(8, 10));
            }
            return Err(ParseError::BadSyntax);
        },
    };
    let hour = match parse_decimal(s, 11, 13) {
        Ok(v) => v,
        Err(_) => { return Err(ParseError::BadSyntax) },
    };
    let minute = match parse_decimal(s, 14, 16) {
        Ok(v) => v,
        Err(_) => { return Err(ParseError::BadSyntax) },
    };
    let second: u32 = if with_seconds {
        if s.get_char(16) != ':' {
            return Err(ParseError::BadSyntax);
        }
        match parse_decimal(s, 17, 19) {
            Ok(v) => v,
            Err(_) => { return Err(ParseError::BadSyntax) },
        }
    } else {
        0
    };
    proof {
        assert(pow10(4) == 10000) by {
            assert(pow10(0) == 1);
            assert(pow10(1) == 10);
            assert(pow10(2) == 100);
            assert(pow10(3) == 1000);
        }
        assert(pow10(2) == 100) by {
            assert(pow10(0) == 1);
            assert(pow10(1) == 10);
        }
        assert(s@.subrange(0int, 4int) =~= date_part.subrange(0, 4));
        assert(s@.subrange(5int, 7int) =~= date_part.subrange(5, 7));
        assert(s@.subrange(8int, 10int) =~= date_part.subrange(8, 10));
        assert(date_part[4] == s@[4] && date_part[7] == s@[7]);
    }
    Ok(DateTime {
        year: year as u16,
        month: month as u8,
        day: day as u8,
        day_of_week: DayOfWeek::Sunday,
        hour: hour as u8,
        minute: minute as u8,
        second: second as u8,
    })
}

/// Hands back the time-of-day text after the first `T` of a short
/// timestamp, as the forecast strip shows sunrise and sunset.  Fails
/// exactly when no `T` occurs.
pub fn return_str_time(short_datetime: &str) -> (r: Result<&str, ParseError>)
    ensures
        r is Ok <==> exists|i: int| 0 <= i < short_datetime@.len() && short_datetime@[i] == 'T',
        r matches Ok(t) ==> exists|i: int|
            {
                &&& 0 <= i < short_datetime@.len()
                &&& short_datetime@[i] == 'T'
                &&& (forall|j: int| 0 <= j < i ==> short_datetime@[j] != 'T')
                &&& t@ == short_datetime@.subrange(i + 1, short_datetime@.len() as int)
            },
        r matches Err(e) ==> e == ParseError::BadSyntax,
{
    let n = short_datetime.unicode_len();
    let mut i: usize = 0;
    while i < n
        invariant
            0 <= i <= n == short_datetime@.len(),
            forall|j: int| 0 <= j < i ==> short_datetime@[j] != 'T',
        decreases n - i,
    {
        if short_datetime.get_char(i) == 'T' {
            let t = short_datetime.substring_char(i + 1, n);
            return Ok(t);
        }
        i = i + 1;
    }
    Err(ParseError::BadSyntax)
}

} // verus!
