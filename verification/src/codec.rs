//! The wire format of the two decoded service answers.
//!
//! The forecast and time services answer in compact JSON.  The decoder
//! here reads the members the device uses by name, wherever they stand in
//! their object and whatever else the service sends around them — the
//! position, zone and unit members the device never reads are passed over
//! whole — and it checks at this boundary that the daily arrays agree in
//! length and span five to seven days.  A member the device reads must
//! hold exactly a value of the expected kind: strings without escapes,
//! numbers without leading zeros, temperatures at the services' tenths
//! resolution.  Malformed text is a typed error, never a crash.
//!
//! Every parser is specified against a mathematical parser over character
//! sequences: what it accepts and what it produces is stated exactly, and
//! the display subset can be re-encoded and decoded without losing a field.

use vstd::prelude::*;
use vstd::string::StringExecFns;
use crate::parse::{pow10, spec_digits_val, spec_is_digit};
use crate::response_models::{
    Current, CurrentUnits, CurrentUnitsView, CurrentView, Daily, DailyUnits, DailyUnitsView,
    DailyView, ForecastResponse, ForecastResponseView, TimeApiResponse, TimeApiResponseView,
};

verus! {

/// Why a service answer was not decoded.
#[derive(Clone, Copy, Debug, PartialEq, Eq, Structural)]
pub enum DecodeError {
    /// A bracket, key, separator or value is not where the layout puts it.
    ExpectedToken,
    /// A number has a leading zero, is out of range, or is missing its
    /// fractional digit.
    InvalidNumber,
    /// The daily arrays do not agree on a five-to-seven-day span.
    WrongDayCount,
}

/// The message logged for a decode failure.
pub open spec fn spec_decode_error_message(e: DecodeError) -> Seq<char> {
    match e {
        DecodeError::ExpectedToken => "Deserialization error: ExpectedToken"@,
        DecodeError::InvalidNumber => "Deserialization error: InvalidNumber"@,
        DecodeError::WrongDayCount => "Deserialization error: WrongDayCount"@,
    }
}

/// The message logged for a decode failure, one per error kind.
pub fn decode_error_message(e: DecodeError) -> (r: &'static str)
    ensures
        r@ == spec_decode_error_message(e),
{
    match e {
        DecodeError::ExpectedToken => "Deserialization error: ExpectedToken",
        DecodeError::InvalidNumber => "Deserialization error: InvalidNumber",
        DecodeError::WrongDayCount => "Deserialization error: WrongDayCount",
    }
}

// ---- The mathematical parsers -------------------------------------------
//
// Each one consumes a prefix of its argument and yields the value read and
// the number of characters consumed, or nothing when the layout does not
// match.

/// Consumes `lit` itself.
pub open spec fn spec_parse_lit(s: Seq<char>, lit: Seq<char>) -> Option<nat> {
    if lit.len() <= s.len() && s.take(lit.len() as int) == lit {
        Some(lit.len())
    } else {
        None
    }
}

/// How many decimal digits `s` starts with.
pub open spec fn spec_scan_digits(s: Seq<char>) -> nat
    decreases s.len(),
{
    if s.len() > 0 && spec_is_digit(s[0]) {
        (1 + spec_scan_digits(s.skip(1))) as nat
    } else {
        0
    }
}

proof fn lemma_scan_digits_le(s: Seq<char>)
    ensures
        spec_scan_digits(s) <= s.len(),
        forall|j: int| 0 <= j < spec_scan_digits(s) ==> spec_is_digit(#[trigger] s[j]),
    decreases s.len(),
{
    if s.len() > 0 && spec_is_digit(s[0]) {
        lemma_scan_digits_le(s.skip(1));
        assert forall|j: int| 0 <= j < spec_scan_digits(s) implies spec_is_digit(
            #[trigger] s[j],
        ) by {
            if j > 0 {
                assert(spec_is_digit(s.skip(1)[j - 1]));
            }
        }
    }
}

/// Consumes an unsigned decimal number without leading zeros, worth at
/// most `bound`.
pub open spec fn spec_parse_nat(s: Seq<char>, bound: nat) -> Option<(nat, nat)> {
    let k = spec_scan_digits(s);
    if k == 0 {
        None
    } else if s[0] == '0' && k > 1 {
        None
    } else {
        let v = spec_digits_val(s.take(k as int));
        if v <= bound {
            Some((v, k))
        } else {
            None
        }
    }
}

/// Consumes an optionally negated decimal number whose magnitude is at
/// most `bound`.
pub open spec fn spec_parse_int(s: Seq<char>, bound: nat) -> Option<(int, nat)> {
    if s.len() > 0 && s[0] == '-' {
        match spec_parse_nat(s.skip(1), bound) {
            Some((v, k)) => Some((-(v as int), (k + 1) as nat)),
            None => None,
        }
    } else {
        match spec_parse_nat(s, bound) {
            Some((v, k)) => Some((v as int, k)),
            None => None,
        }
    }
}

/// The largest whole part a tenths value may carry.
pub open spec fn spec_tenths_whole_bound() -> nat {
    214748363
}

/// Consumes a temperature written with exactly one fractional digit,
/// yielding its value in tenths.
pub open spec fn spec_parse_tenths(s: Seq<char>) -> Option<(int, nat)> {
    if s.len() > 0 && s[0] == '-' {
        match spec_parse_tenths_nat(s.skip(1)) {
            Some((v, k)) => Some((-(v as int), (k + 1) as nat)),
            None => None,
        }
    } else {
        match spec_parse_tenths_nat(s) {
            Some((v, k)) => Some((v as int, k)),
            None => None,
        }
    }
}

/// The unsigned half of a tenths number: whole digits, then an optional
/// point with at least one digit after it.  The value keeps tenths
/// resolution, which is all the service's fields carry; digits past the
/// first fractional one are consumed and dropped.
pub open spec fn spec_parse_tenths_nat(s: Seq<char>) -> Option<(nat, nat)> {
    match spec_parse_nat(s, spec_tenths_whole_bound()) {
        Some((w, k)) => {
            if k < s.len() && s[k as int] == '.' {
                let k2 = spec_scan_digits(s.skip(k as int + 1));
                if k2 >= 1 {
                    Some(
                        (
                            (w * 10 + crate::parse::spec_digit_val(s[k as int + 1])) as nat,
                            (k + 1 + k2) as nat,
                        ),
                    )
                } else {
                    None
                }
            } else {
                Some(((w * 10) as nat, k))
            }
        },
        None => None,
    }
}

/// How far into `s` the closing quote of a string body stands.
pub open spec fn spec_scan_string_content(s: Seq<char>) -> Option<nat>
    decreases s.len(),
{
    if s.len() == 0 {
        None
    } else if s[0] == '"' {
        Some(0)
    } else {
        match spec_scan_string_content(s.skip(1)) {
            Some(k) => Some((k + 1) as nat),
            None => None,
        }
    }
}

/// Consumes a quoted string without escapes, yielding its body.
pub open spec fn spec_parse_string(s: Seq<char>) -> Option<(Seq<char>, nat)> {
    if s.len() > 0 && s[0] == '"' {
        match spec_scan_string_content(s.skip(1)) {
            Some(k) => Some((s.subrange(1, 1 + k as int), (k + 2) as nat)),
            None => None,
        }
    } else {
        None
    }
}

// ---- Passing over values the device does not read ------------------------
//
// The services' answers carry many members the device never uses; those
// are passed over whole.  A value is a quoted string, a number with
// optional fraction and exponent, an object, an array, or one of the three
// word literals.

/// Absolute position just past the fractional part starting at `p`, if any.
pub open spec fn spec_skip_frac(s: Seq<char>, p: int) -> Option<int> {
    if p < s.len() && s[p] == '.' {
        let k = spec_scan_digits(s.skip(p + 1));
        if k == 0 {
            None
        } else {
            Some(p + 1 + k)
        }
    } else {
        Some(p)
    }
}

/// Absolute position just past the exponent part starting at `p`, if any.
pub open spec fn spec_skip_exp(s: Seq<char>, p: int) -> Option<int> {
    if p < s.len() && (s[p] == 'e' || s[p] == 'E') {
        let q = if p + 1 < s.len() && (s[p + 1] == '+' || s[p + 1] == '-') {
            p + 2
        } else {
            p + 1
        };
        let k = spec_scan_digits(s.skip(q));
        if k == 0 {
            None
        } else {
            Some(q + k)
        }
    } else {
        Some(p)
    }
}

/// How many characters the number at the head of `s` spans.
pub open spec fn spec_skip_number(s: Seq<char>) -> Option<nat> {
    let start: int = if s.len() > 0 && s[0] == '-' {
        1int
    } else {
        0int
    };
    let k1 = spec_scan_digits(s.skip(start));
    if k1 == 0 {
        None
    } else {
        match spec_skip_frac(s, start + k1) {
            Some(p) => match spec_skip_exp(s, p) {
                Some(q) => Some(q as nat),
                None => None,
            },
            None => None,
        }
    }
}

/// How many characters the value at the head of `s` spans.
pub open spec fn spec_skip_value(s: Seq<char>) -> Option<nat>
    decreases s.len(), 0int,
{
    if s.len() == 0 {
        None
    } else if s[0] == '"' {
        match spec_parse_string(s) {
            Some((_, c)) => Some(c),
            None => None,
        }
    } else if s[0] == '{' {
        match spec_skip_members(s.skip(1)) {
            Some(c) => Some((c + 1) as nat),
            None => None,
        }
    } else if s[0] == '[' {
        match spec_skip_elements(s.skip(1)) {
            Some(c) => Some((c + 1) as nat),
            None => None,
        }
    } else if s[0] == 't' {
        match spec_parse_lit(s, "true"@) {
            Some(c) => Some(c),
            None => None,
        }
    } else if s[0] == 'f' {
        match spec_parse_lit(s, "false"@) {
            Some(c) => Some(c),
            None => None,
        }
    } else if s[0] == 'n' {
        match spec_parse_lit(s, "null"@) {
            Some(c) => Some(c),
            None => None,
        }
    } else {
        spec_skip_number(s)
    }
}

/// How many characters the members of an object span, the closing brace
/// included, starting just past the opening brace.
pub open spec fn spec_skip_members(s: Seq<char>) -> Option<nat>
    decreases s.len(), 1int,
{
    if s.len() == 0 {
        None
    } else if s[0] == '}' {
        Some(1)
    } else {
        match spec_parse_string(s) {
            Some((_, k)) => {
                if k < s.len() && s[k as int] == ':' {
                    match spec_skip_value(s.skip(k as int + 1)) {
                        Some(v) => {
                            let p = k + 1 + v;
                            if p < s.len() && s[p as int] == ',' {
                                match spec_skip_members(s.skip(p as int + 1)) {
                                    Some(c) => Some((p + 1 + c) as nat),
                                    None => None,
                                }
                            } else if p < s.len() && s[p as int] == '}' {
                                Some((p + 1) as nat)
                            } else {
                                None
                            }
                        },
                        None => None,
                    }
                } else {
                    None
                }
            },
            None => None,
        }
    }
}

/// How many characters the elements of an array span, the closing bracket
/// included, starting just past the opening bracket.
pub open spec fn spec_skip_elements(s: Seq<char>) -> Option<nat>
    decreases s.len(), 1int,
{
    if s.len() == 0 {
        None
    } else if s[0] == ']' {
        Some(1)
    } else {
        match spec_skip_value(s) {
            Some(v) => {
                if v < s.len() && s[v as int] == ',' {
                    match spec_skip_elements(s.skip(v as int + 1)) {
                        Some(c) => Some((v + 1 + c) as nat),
                        None => None,
                    }
                } else if v < s.len() && s[v as int] == ']' {
                    Some((v + 1) as nat)
                } else {
                    None
                }
            },
            None => None,
        }
    }
}

// ---- The executable parsers ---------------------------------------------

/// Passes over the number at `i`.
#[verifier::rlimit(100)]
#[verifier::spinoff_prover]
fn skip_number_at(s: &str, i: usize) -> (r: Result<usize, DecodeError>)
    requires
        i <= s@.len(),
    ensures
        r is Ok <==> spec_skip_number(s@.skip(i as int)) is Some,
        r matches Ok(j) ==> {
            &&& spec_skip_number(s@.skip(i as int)) == Some((j - i) as nat)
            &&& i < j <= s@.len()
        },
{
    let ghost rest = s@.skip(i as int);
    let n = s.unicode_len();
    let start: usize = if i < n && s.get_char(i) == '-' {
        i + 1
    } else {
        i
    };
    proof {
        if i < n {
            assert(rest[0] == s@[i as int]);
        }
        assert(rest.skip((start - i) as int) =~= s@.skip(start as int));
    }
    let d1 = scan_digits_at(s, start);
    if d1 == start {
        return Err(DecodeError::InvalidNumber);
    }
    let mut p: usize = d1;
    let ghost p1_rel = (p - i) as int;
    proof {
        if p < n {
            assert(rest[p1_rel] == s@[p as int]);
        }
    }
    if p < n && s.get_char(p) == '.' {
        proof {
            assert(rest.skip(p1_rel + 1) =~= s@.skip(p + 1));
        }
        let f = scan_digits_at(s, p + 1);
        if f == p + 1 {
            return Err(DecodeError::InvalidNumber);
        }
        p = f;
    }
    let ghost p2_rel = (p - i) as int;
    proof {
        assert(spec_skip_frac(rest, p1_rel) == Some(p2_rel));
        if p < n {
            assert(rest[p2_rel] == s@[p as int]);
        }
    }
    if p < n && (s.get_char(p) == 'e' || s.get_char(p) == 'E') {
        let q: usize = if p + 1 < n && (s.get_char(p + 1) == '+' || s.get_char(p + 1) == '-') {
            proof {
                assert(rest[p2_rel + 1] == s@[p + 1]);
            }
            p + 2
        } else {
            proof {
                if p + 1 < n {
                    assert(rest[p2_rel + 1] == s@[p + 1]);
                }
            }
            p + 1
        };
        proof {
            assert(rest.skip((q - i) as int) =~= s@.skip(q as int));
        }
        let g = scan_digits_at(s, q);
        if g == q {
            return Err(DecodeError::InvalidNumber);
        }
        p = g;
    }
    proof {
        assert(spec_skip_exp(rest, p2_rel) == Some((p - i) as int));
    }
    Ok(p)
}

/// Passes over the value at `i`.
fn skip_value_at(s: &str, i: usize) -> (r: Result<usize, DecodeError>)
    requires
        i <= s@.len(),
    ensures
        r is Ok <==> spec_skip_value(s@.skip(i as int)) is Some,
        r matches Ok(j) ==> {
            &&& spec_skip_value(s@.skip(i as int)) == Some((j - i) as nat)
            &&& i < j <= s@.len()
        },
    decreases s@.len() - i, 0int,
{
    let ghost rest = s@.skip(i as int);
    let n = s.unicode_len();
    if i >= n {
        return Err(DecodeError::ExpectedToken);
    }
    proof {
        assert(rest[0] == s@[i as int]);
    }
    let c = s.get_char(i);
    if c == '"' {
        match parse_string_at(s, i) {
            Ok((_, j)) => Ok(j),
            Err(e) => Err(e),
        }
    } else if c == '{' {
        proof {
            assert(rest.skip(1) =~= s@.skip(i + 1));
        }
        match skip_members_at(s, i + 1) {
            Ok(j) => Ok(j),
            Err(e) => Err(e),
        }
    } else if c == '[' {
        proof {
            assert(rest.skip(1) =~= s@.skip(i + 1));
        }
        match skip_elements_at(s, i + 1) {
            Ok(j) => Ok(j),
            Err(e) => Err(e),
        }
    } else if c == 't' {
        if match_lit_at(s, i, "true") {
            proof {
                reveal_strlit("true");
                assert("true"@.len() == 4);
            }
            Ok(i + 4)
        } else {
            Err(DecodeError::ExpectedToken)
        }
    } else if c == 'f' {
        if match_lit_at(s, i, "false") {
            proof {
                reveal_strlit("false");
                assert("false"@.len() == 5);
            }
            Ok(i + 5)
        } else {
            Err(DecodeError::ExpectedToken)
        }
    } else if c == 'n' {
        if match_lit_at(s, i, "null") {
            proof {
                reveal_strlit("null");
                assert("null"@.len() == 4);
            }
            Ok(i + 4)
        } else {
            Err(DecodeError::ExpectedToken)
        }
    } else {
        skip_number_at(s, i)
    }
}

/// Passes over an object's members and closing brace, starting just past
/// the opening brace.
fn skip_members_at(s: &str, i: usize) -> (r: Result<usize, DecodeError>)
    requires
        i <= s@.len(),
    ensures
        r is Ok <==> spec_skip_members(s@.skip(i as int)) is Some,
        r matches Ok(j) ==> {
            &&& spec_skip_members(s@.skip(i as int)) == Some((j - i) as nat)
            &&& i < j <= s@.len()
        },
    decreases s@.len() - i, 1int,
{
    let ghost rest = s@.skip(i as int);
    let n = s.unicode_len();
    if i >= n {
        return Err(DecodeError::ExpectedToken);
    }
    proof {
        assert(rest[0] == s@[i as int]);
    }
    if s.get_char(i) == '}' {
        return Ok(i + 1);
    }
    let k = match parse_string_at(s, i) {
        Ok((_, k)) => k,
        Err(e) => { return Err(e) },
    };
    let ghost k_rel = (k - i) as int;
    if k >= n || s.get_char(k) != ':' {
        proof {
            if k < n {
                assert(rest[k_rel] == s@[k as int]);
            }
        }
        return Err(DecodeError::ExpectedToken);
    }
    proof {
        assert(rest[k_rel] == s@[k as int]);
        assert(rest.skip(k_rel + 1) =~= s@.skip(k + 1));
    }
    let v = match skip_value_at(s, k + 1) {
        Ok(v) => v,
        Err(e) => { return Err(e) },
    };
    let ghost p_rel = (v - i) as int;
    if v < n && s.get_char(v) == ',' {
        proof {
            assert(rest[p_rel] == s@[v as int]);
            assert(rest.skip(p_rel + 1) =~= s@.skip(v + 1));
        }
        match skip_members_at(s, v + 1) {
            Ok(j) => Ok(j),
            Err(e) => Err(e),
        }
    } else if v < n && s.get_char(v) == '}' {
        proof {
            assert(rest[p_rel] == s@[v as int]);
        }
        Ok(v + 1)
    } else {
        proof {
            if v < n {
                assert(rest[p_rel] == s@[v as int]);
            }
        }
        Err(DecodeError::ExpectedToken)
    }
}

/// Passes over an array's elements and closing bracket, starting just
/// past the opening bracket.
fn skip_elements_at(s: &str, i: usize) -> (r: Result<usize, DecodeError>)
    requires
        i <= s@.len(),
    ensures
        r is Ok <==> spec_skip_elements(s@.skip(i as int)) is Some,
        r matches Ok(j) ==> {
            &&& spec_skip_elements(s@.skip(i as int)) == Some((j - i) as nat)
            &&& i < j <= s@.len()
        },
    decreases s@.len() - i, 1int,
{
    let ghost rest = s@.skip(i as int);
    let n = s.unicode_len();
    if i >= n {
        return Err(DecodeError::ExpectedToken);
    }
    proof {
        assert(rest[0] == s@[i as int]);
    }
    if s.get_char(i) == ']' {
        return Ok(i + 1);
    }
    let v = match skip_value_at(s, i) {
        Ok(v) => v,
        Err(e) => { return Err(e) },
    };
    let ghost v_rel = (v - i) as int;
    if v < n && s.get_char(v) == ',' {
        proof {
            assert(rest[v_rel] == s@[v as int]);
            assert(rest.skip(v_rel + 1) =~= s@.skip(v + 1));
        }
        match skip_elements_at(s, v + 1) {
            Ok(j) => Ok(j),
            Err(e) => Err(e),
        }
    } else if v < n && s.get_char(v) == ']' {
        proof {
            assert(rest[v_rel] == s@[v as int]);
        }
        Ok(v + 1)
    } else {
        proof {
            if v < n {
                assert(rest[v_rel] == s@[v as int]);
            }
        }
        Err(DecodeError::ExpectedToken)
    }
}

/// Whether the literal stands at position `i`, by comparing characters.
fn match_lit_at(s: &str, i: usize, lit: &str) -> (r: bool)
    requires
        i <= s@.len(),
    ensures
        r <==> spec_parse_lit(s@.skip(i as int), lit@) is Some,
{
    let m = lit.unicode_len();
    let n = s.unicode_len();
    if m > n - i {
        return false;
    }
    let mut j: usize = 0;
    while j < m
        invariant
            0 <= j <= m == lit@.len(),
            i + m <= n == s@.len(),
            forall|q: int| 0 <= q < j ==> s@[i + q] == lit@[q],
        decreases m - j,
    {
        if s.get_char(i + j) != lit.get_char(j) {
            proof {
                assert(s@.skip(i as int)[j as int] == s@[i + j]);
                let lhs = s@.skip(i as int).take(lit@.len() as int);
                assert(lhs != lit@) by {
                    if lhs == lit@ {
                        assert(lhs[j as int] == lit@[j as int]);
                    }
                }
            }
            return false;
        }
        j = j + 1;
    }
    proof {
        assert(s@.skip(i as int).take(lit@.len() as int) =~= lit@);
    }
    true
}

/// Whether a decimal digit stands at position `j`.
fn is_digit_at(s: &str, j: usize) -> (r: bool)
    requires
        j < s@.len(),
    ensures
        r == spec_is_digit(s@[j as int]),
{
    let c = s.get_char(j) as u32;
    48 <= c && c <= 57
}

/// Index just past the digits that start at `i`.
fn scan_digits_at(s: &str, i: usize) -> (r: usize)
    requires
        i <= s@.len(),
    ensures
        r == i + spec_scan_digits(s@.skip(i as int)),
        i <= r <= s@.len(),
{
    let n = s.unicode_len();
    let mut j: usize = i;
    while j < n && is_digit_at(s, j)
        invariant
            i <= j <= n == s@.len(),
            spec_scan_digits(s@.skip(i as int)) == (j - i) + spec_scan_digits(
                s@.skip(j as int),
            ),
        decreases n - j,
    {
        proof {
            assert(s@.skip(j as int)[0] == s@[j as int]);
            assert(s@.skip(j as int).skip(1) =~= s@.skip(j + 1));
        }
        j = j + 1;
    }
    proof {
        if j < n {
            assert(s@.skip(j as int)[0] == s@[j as int]);
        }
        assert(spec_scan_digits(s@.skip(j as int)) == 0);
    }
    j
}

proof fn lemma_digits_val_lower(s: Seq<char>)
    requires
        s.len() >= 1,
        forall|j: int| 0 <= j < s.len() ==> spec_is_digit(#[trigger] s[j]),
        s[0] != '0',
    ensures
        spec_digits_val(s) >= pow10((s.len() - 1) as nat),
    decreases s.len(),
{
    if s.len() > 1 {
        assert(s.drop_last()[0] == s[0]);
        lemma_digits_val_lower(s.drop_last());
    } else {
        assert(spec_digits_val(s) == spec_digits_val(s.drop_last()) * 10
            + crate::parse::spec_digit_val(s[0]));
    }
}

proof fn lemma_pow10_19()
    ensures
        pow10(19) == 10000000000000000000,
{
    assert(pow10(0) == 1);
    assert(pow10(1) == 10);
    assert(pow10(2) == 100);
    assert(pow10(3) == 1000);
    assert(pow10(4) == 10000);
    assert(pow10(5) == 100000);
    assert(pow10(6) == 1000000);
    assert(pow10(7) == 10000000);
    assert(pow10(8) == 100000000);
    assert(pow10(9) == 1000000000);
    assert(pow10(10) == 10000000000);
    assert(pow10(11) == 100000000000);
    assert(pow10(12) == 1000000000000);
    assert(pow10(13) == 10000000000000);
    assert(pow10(14) == 100000000000000);
    assert(pow10(15) == 1000000000000000);
    assert(pow10(16) == 10000000000000000);
    assert(pow10(17) == 100000000000000000);
    assert(pow10(18) == 1000000000000000000);
}

proof fn lemma_pow10_increases(a: nat, b: nat)
    requires
        a <= b,
    ensures
        pow10(a) <= pow10(b),
    decreases b,
{
    if a < b {
        lemma_pow10_increases(a, (b - 1) as nat);
    }
}

/// Reads the unsigned number at `i`: digits without a leading zero, worth
/// at most `bound`.
fn parse_nat_at(s: &str, i: usize, bound: u64) -> (r: Result<(u64, usize), DecodeError>)
    requires
        i <= s@.len(),
        bound <= i64::MAX as u64,
    ensures
        r is Ok <==> spec_parse_nat(s@.skip(i as int), bound as nat) is Some,
        r matches Ok(p) ==> {
            &&& spec_parse_nat(s@.skip(i as int), bound as nat) matches Some(q)
            &&& p.0 == q.0
            &&& p.1 == i + q.1
            &&& i < p.1 <= s@.len()
        },
{
    let ghost rest = s@.skip(i as int);
    let end = scan_digits_at(s, i);
    proof {
        lemma_scan_digits_le(rest);
    }
    if end == i {
        return Err(DecodeError::InvalidNumber);
    }
    let ghost k = spec_scan_digits(rest);
    let ghost run = rest.take(k as int);
    proof {
        assert(run.len() == k);
        assert(forall|j: int|
            0 <= j < k ==> run[j] == rest[j] && spec_is_digit(#[trigger] rest[j]));
        assert(rest[0] == s@[i as int]);
    }
    if s.get_char(i) == '0' && end - i > 1 {
        return Err(DecodeError::InvalidNumber);
    }
    if end - i > 19 {
        proof {
            assert(run[0] == rest[0]);
            assert(run[0] != '0');
            lemma_digits_val_lower(run);
            lemma_pow10_19();
            lemma_pow10_increases(19, (k - 1) as nat);
        }
        return Err(DecodeError::InvalidNumber);
    }
    let mut acc: u64 = 0;
    let mut j: usize = i;
    while j < end
        invariant
            i <= j <= end <= s@.len(),
            end == i + k,
            k == spec_scan_digits(rest),
            rest == s@.skip(i as int),
            run == rest.take(k as int),
            k <= 19,
            forall|q: int| 0 <= q < k ==> spec_is_digit(#[trigger] run[q]),
            acc == spec_digits_val(run.take((j - i) as int)),
            acc < pow10((j - i) as nat),
        decreases end - j,
    {
        let c = s.get_char(j) as u32;
        proof {
            assert(run[(j - i) as int] == rest[(j - i) as int]);
            assert(rest[(j - i) as int] == s@[j as int]);
            assert(spec_is_digit(run[(j - i) as int]));
            lemma_pow10_increases((j - i) as nat, 18);
            lemma_pow10_19();
            assert(pow10(18) == 1000000000000000000);
        }
        let d: u64 = (c - 48) as u64;
        let next: u64 = acc * 10 + d;
        proof {
            let pre = run.take((j - i) as int);
            let post = run.take((j - i) + 1);
            assert(post.drop_last() =~= pre);
            assert(post.last() == run[(j - i) as int]);
        }
        acc = next;
        j = j + 1;
    }
    proof {
        assert(run.take(k as int) =~= run);
    }
    if acc > bound {
        return Err(DecodeError::InvalidNumber);
    }
    Ok((acc, end))
}

/// Reads the optionally negated number at `i`, magnitude at most `bound`.
fn parse_int_at(s: &str, i: usize, bound: u64) -> (r: Result<(i64, usize), DecodeError>)
    requires
        i <= s@.len(),
        bound <= i64::MAX as u64,
    ensures
        r is Ok <==> spec_parse_int(s@.skip(i as int), bound as nat) is Some,
        r matches Ok(p) ==> {
            &&& spec_parse_int(s@.skip(i as int), bound as nat) matches Some(q)
            &&& p.0 == q.0
            &&& p.1 == i + q.1
            &&& i < p.1 <= s@.len()
        },
{
    let n = s.unicode_len();
    if i < n && s.get_char(i) == '-' {
        proof {
            assert(s@.skip(i as int)[0] == s@[i as int]);
            assert(s@.skip(i as int).skip(1) =~= s@.skip(i + 1));
        }
        match parse_nat_at(s, i + 1, bound) {
            Ok((v, next)) => Ok((-(v as i64), next)),
            Err(e) => Err(e),
        }
    } else {
        proof {
            if i < n {
                assert(s@.skip(i as int)[0] == s@[i as int]);
            }
        }
        match parse_nat_at(s, i, bound) {
            Ok((v, next)) => Ok((v as i64, next)),
            Err(e) => Err(e),
        }
    }
}

/// Reads the tenths-valued temperature at `i`.
fn parse_tenths_at(s: &str, i: usize) -> (r: Result<(i32, usize), DecodeError>)
    requires
        i <= s@.len(),
    ensures
        r is Ok <==> spec_parse_tenths(s@.skip(i as int)) is Some,
        r matches Ok(p) ==> {
            &&& spec_parse_tenths(s@.skip(i as int)) matches Some(q)
            &&& p.0 == q.0
            &&& p.1 == i + q.1
            &&& i < p.1 <= s@.len()
            &&& p.0 > i32::MIN
        },
{
    let n = s.unicode_len();
    if i < n && s.get_char(i) == '-' {
        proof {
            assert(s@.skip(i as int)[0] == s@[i as int]);
            assert(s@.skip(i as int).skip(1) =~= s@.skip(i + 1));
        }
        match parse_tenths_nat_at(s, i + 1) {
            Ok((v, next)) => Ok((-(v as i32), next)),
            Err(e) => Err(e),
        }
    } else {
        proof {
            if i < n {
                assert(s@.skip(i as int)[0] == s@[i as int]);
            }
        }
        match parse_tenths_nat_at(s, i) {
            Ok((v, next)) => Ok((v as i32, next)),
            Err(e) => Err(e),
        }
    }
}

/// The unsigned half of a tenths number at `i`.
fn parse_tenths_nat_at(s: &str, i: usize) -> (r: Result<(u32, usize), DecodeError>)
    requires
        i <= s@.len(),
    ensures
        r is Ok <==> spec_parse_tenths_nat(s@.skip(i as int)) is Some,
        r matches Ok(p) ==> {
            &&& spec_parse_tenths_nat(s@.skip(i as int)) matches Some(q)
            &&& p.0 == q.0
            &&& p.1 == i + q.1
            &&& i < p.1 <= s@.len()
        },
{
    let ghost rest = s@.skip(i as int);
    let (whole, after_whole) = match parse_nat_at(s, i, 214748363) {
        Ok(p) => p,
        Err(e) => { return Err(e) },
    };
    let n = s.unicode_len();
    let ghost k = (after_whole - i) as nat;
    if after_whole >= n || s.get_char(after_whole) != '.' {
        proof {
            if after_whole < n {
                assert(rest[k as int] == s@[after_whole as int]);
            }
        }
        return Ok(((whole as u32) * 10, after_whole));
    }
    proof {
        assert(rest[k as int] == s@[after_whole as int]);
        assert(rest.skip(k as int + 1) =~= s@.skip(after_whole + 1));
    }
    let frac_end = scan_digits_at(s, after_whole + 1);
    if frac_end == after_whole + 1 {
        return Err(DecodeError::InvalidNumber);
    }
    proof {
        assert(rest[k as int + 1] == s@[after_whole + 1]);
        assert(rest.skip(k as int + 1)[0] == s@[after_whole + 1]);
    }
    let c = s.get_char(after_whole + 1) as u32;
    let d: u32 = c - 48;
    Ok(((whole as u32) * 10 + d, frac_end))
}

/// Reads the quoted string at `i`, yielding its body.
fn parse_string_at(s: &str, i: usize) -> (r: Result<(String, usize), DecodeError>)
    requires
        i <= s@.len(),
    ensures
        r is Ok <==> spec_parse_string(s@.skip(i as int)) is Some,
        r matches Ok(p) ==> {
            &&& spec_parse_string(s@.skip(i as int)) matches Some(q)
            &&& p.0@ == q.0
            &&& p.1 == i + q.1
            &&& i < p.1 <= s@.len()
        },
{
    let ghost rest = s@.skip(i as int);
    let n = s.unicode_len();
    if i >= n || s.get_char(i) != '"' {
        proof {
            if i < n {
                assert(rest[0] == s@[i as int]);
            }
        }
        return Err(DecodeError::ExpectedToken);
    }
    proof {
        assert(rest[0] == s@[i as int]);
    }
    let mut j: usize = i + 1;
    while j < n && s.get_char(j) != '"'
        invariant
            i + 1 <= j <= n == s@.len(),
            i < n,
            rest == s@.skip(i as int),
            spec_scan_string_content(s@.skip(i + 1)) matches Some(q) ==> q + i + 1 >= j,
            forall|q: int| i + 1 <= q < j ==> s@[q] != '"',
        decreases n - j,
    {
        proof {
            lemma_scan_content_step(s@, i + 1, j as int);
        }
        j = j + 1;
    }
    proof {
        lemma_scan_content_found(s@, i + 1, j as int);
    }
    if j >= n {
        proof {
            lemma_scan_content_none(s@, i + 1);
            assert(rest.skip(1) =~= s@.skip(i + 1));
        }
        return Err(DecodeError::ExpectedToken);
    }
    let body = s.substring_char(i + 1, j);
    proof {
        assert(rest.skip(1) =~= s@.skip(i + 1));
        assert(spec_scan_string_content(s@.skip(i + 1)) == Some((j - i - 1) as nat));
        assert(rest.subrange(1, 1 + (j - i - 1)) =~= s@.subrange(i + 1, j as int));
    }
    Ok((String::from_str(body), j + 1))
}

proof fn lemma_scan_content_step(v: Seq<char>, base: int, j: int)
    requires
        0 <= base <= j < v.len(),
        forall|q: int| base <= q < j ==> v[q] != '"',
        v[j] != '"',
    ensures
        spec_scan_string_content(v.skip(base)) matches Some(q) ==> q + base >= j + 1,
    decreases j - base,
{
    if base < j {
        assert(v.skip(base)[0] == v[base]);
        assert(v.skip(base).skip(1) =~= v.skip(base + 1));
        lemma_scan_content_step(v, base + 1, j);
    } else {
        assert(v.skip(base)[0] == v[base]);
        assert(v.skip(base).skip(1) =~= v.skip(base + 1));
    }
}

proof fn lemma_scan_content_found(v: Seq<char>, base: int, j: int)
    requires
        0 <= base <= j <= v.len(),
        forall|q: int| base <= q < j ==> v[q] != '"',
        j < v.len() ==> v[j] == '"',
    ensures
        j < v.len() ==> spec_scan_string_content(v.skip(base)) == Some((j - base) as nat),
    decreases j - base,
{
    if j < v.len() {
        if base < j {
            assert(v.skip(base)[0] == v[base]);
            assert(v.skip(base).skip(1) =~= v.skip(base + 1));
            lemma_scan_content_found(v, base + 1, j);
        } else {
            assert(v.skip(base)[0] == v[base]);
        }
    }
}

proof fn lemma_scan_content_none(v: Seq<char>, base: int)
    requires
        0 <= base <= v.len(),
        forall|q: int| base <= q < v.len() ==> v[q] != '"',
    ensures
        spec_scan_string_content(v.skip(base)) is None,
    decreases v.len() - base,
{
    if base < v.len() {
        assert(v.skip(base)[0] == v[base]);
        assert(v.skip(base).skip(1) =~= v.skip(base + 1));
        lemma_scan_content_none(v, base + 1);
    }
}

// ---- Finding an object's members by name ---------------------------------
//
// A member is looked up by its key, wherever it stands in the object and
// whatever stands around it; members the device does not read are passed
// over.  The first member of a given name wins.

/// Absolute position of the value of the first member named `key`,
/// scanning members from just past the opening brace.
pub open spec fn spec_find_value(s: Seq<char>, key: Seq<char>) -> Option<nat>
    decreases s.len(),
{
    if s.len() == 0 {
        None
    } else if s[0] == '}' {
        None
    } else {
        match spec_parse_string(s) {
            Some((k, c)) => {
                if c < s.len() && s[c as int] == ':' {
                    if k == key {
                        Some((c + 1) as nat)
                    } else {
                        match spec_skip_value(s.skip(c as int + 1)) {
                            Some(v) => {
                                let p = c + 1 + v;
                                if p < s.len() && s[p as int] == ',' {
                                    match spec_find_value(s.skip(p as int + 1), key) {
                                        Some(o) => Some((p + 1 + o) as nat),
                                        None => None,
                                    }
                                } else {
                                    None
                                }
                            },
                            None => None,
                        }
                    }
                } else {
                    None
                }
            },
            None => None,
        }
    }
}

/// Absolute position of the value of the member named `key` in the object
/// at the head of `s`, if the object holds one.
pub open spec fn spec_object_member(s: Seq<char>, key: Seq<char>) -> Option<nat> {
    if s.len() > 0 && s[0] == '{' {
        match spec_find_value(s.skip(1), key) {
            Some(o) => Some((1 + o) as nat),
            None => None,
        }
    } else {
        None
    }
}

/// The span of the object at the head of `s`, when one stands there.
pub open spec fn spec_object_extent(s: Seq<char>) -> Option<nat> {
    if s.len() > 0 && s[0] == '{' {
        spec_skip_value(s)
    } else {
        None
    }
}

/// Finds the value of the member named `key`, scanning members at `i`.
fn find_value_at(s: &str, i: usize, key: &str) -> (r: Result<usize, DecodeError>)
    requires
        i <= s@.len(),
    ensures
        r is Ok <==> spec_find_value(s@.skip(i as int), key@) is Some,
        r matches Ok(j) ==> {
            &&& spec_find_value(s@.skip(i as int), key@) == Some((j - i) as nat)
            &&& i < j <= s@.len()
        },
    decreases s@.len() - i,
{
    let ghost rest = s@.skip(i as int);
    let n = s.unicode_len();
    if i >= n {
        return Err(DecodeError::ExpectedToken);
    }
    proof {
        assert(rest[0] == s@[i as int]);
    }
    if s.get_char(i) == '}' {
        return Err(DecodeError::ExpectedToken);
    }
    let (k, c) = match parse_string_at(s, i) {
        Ok(p) => p,
        Err(e) => { return Err(e) },
    };
    let ghost c_rel = (c - i) as int;
    if c >= n || s.get_char(c) != ':' {
        proof {
            if c < n {
                assert(rest[c_rel] == s@[c as int]);
            }
        }
        return Err(DecodeError::ExpectedToken);
    }
    proof {
        assert(rest[c_rel] == s@[c as int]);
    }
    if crate::text::str_eq(k.as_str(), key) {
        return Ok(c + 1);
    }
    proof {
        assert(rest.skip(c_rel + 1) =~= s@.skip(c + 1));
    }
    let v = match skip_value_at(s, c + 1) {
        Ok(v) => v,
        Err(e) => { return Err(e) },
    };
    let ghost p_rel = (v - i) as int;
    if v < n && s.get_char(v) == ',' {
        proof {
            assert(rest[p_rel] == s@[v as int]);
            assert(rest.skip(p_rel + 1) =~= s@.skip(v + 1));
        }
        match find_value_at(s, v + 1, key) {
            Ok(j) => Ok(j),
            Err(e) => Err(e),
        }
    } else {
        proof {
            if v < n {
                assert(rest[p_rel] == s@[v as int]);
            }
        }
        Err(DecodeError::ExpectedToken)
    }
}

/// Finds the value of the member named `key` in the object at `i`.
fn object_member_at(s: &str, i: usize, key: &str) -> (r: Result<usize, DecodeError>)
    requires
        i <= s@.len(),
    ensures
        r is Ok <==> spec_object_member(s@.skip(i as int), key@) is Some,
        r matches Ok(j) ==> {
            &&& spec_object_member(s@.skip(i as int), key@) == Some((j - i) as nat)
            &&& i < j <= s@.len()
        },
{
    let ghost rest = s@.skip(i as int);
    let n = s.unicode_len();
    if i >= n || s.get_char(i) != '{' {
        proof {
            if i < n {
                assert(rest[0] == s@[i as int]);
            }
        }
        return Err(DecodeError::ExpectedToken);
    }
    proof {
        assert(rest[0] == s@[i as int]);
        assert(rest.skip(1) =~= s@.skip(i + 1));
    }
    match find_value_at(s, i + 1, key) {
        Ok(j) => Ok(j),
        Err(e) => Err(e),
    }
}

/// The span of the object at `i`.
fn object_extent_at(s: &str, i: usize) -> (r: Result<usize, DecodeError>)
    requires
        i <= s@.len(),
    ensures
        r is Ok <==> spec_object_extent(s@.skip(i as int)) is Some,
        r matches Ok(j) ==> {
            &&& spec_object_extent(s@.skip(i as int)) == Some((j - i) as nat)
            &&& i < j <= s@.len()
        },
{
    let ghost rest = s@.skip(i as int);
    let n = s.unicode_len();
    if i >= n || s.get_char(i) != '{' {
        proof {
            if i < n {
                assert(rest[0] == s@[i as int]);
            }
        }
        return Err(DecodeError::ExpectedToken);
    }
    proof {
        assert(rest[0] == s@[i as int]);
    }
    skip_value_at(s, i)
}

// ---- Typed members -------------------------------------------------------
//
// A member the device reads must hold exactly a value of the expected
// kind: the typed reading must span the member's whole value.

/// The member named `key`, read as a string.
pub open spec fn spec_member_string(s: Seq<char>, key: Seq<char>) -> Option<Seq<char>> {
    match spec_object_member(s, key) {
        Some(off) => match spec_parse_string(s.skip(off as int)) {
            Some((v, c)) => match spec_skip_value(s.skip(off as int)) {
                Some(sv) => if c == sv {
                    Some(v)
                } else {
                    None
                },
                None => None,
            },
            None => None,
        },
        None => None,
    }
}

/// The member named `key`, read as a tenths-valued temperature.
pub open spec fn spec_member_tenths(s: Seq<char>, key: Seq<char>) -> Option<int> {
    match spec_object_member(s, key) {
        Some(off) => match spec_parse_tenths(s.skip(off as int)) {
            Some((v, c)) => match spec_skip_value(s.skip(off as int)) {
                Some(sv) => if c == sv {
                    Some(v)
                } else {
                    None
                },
                None => None,
            },
            None => None,
        },
        None => None,
    }
}

/// The member named `key`, read as a signed whole number.
pub open spec fn spec_member_int(s: Seq<char>, key: Seq<char>) -> Option<int> {
    match spec_object_member(s, key) {
        Some(off) => match spec_parse_int(s.skip(off as int), i64::MAX as nat) {
            Some((v, c)) => match spec_skip_value(s.skip(off as int)) {
                Some(sv) => if c == sv {
                    Some(v)
                } else {
                    None
                },
                None => None,
            },
            None => None,
        },
        None => None,
    }
}

/// The member named `key`, read as a number worth at most `bound`.
pub open spec fn spec_member_nat(s: Seq<char>, key: Seq<char>, bound: nat) -> Option<nat> {
    match spec_object_member(s, key) {
        Some(off) => match spec_parse_nat(s.skip(off as int), bound) {
            Some((v, c)) => match spec_skip_value(s.skip(off as int)) {
                Some(sv) => if c == sv {
                    Some(v)
                } else {
                    None
                },
                None => None,
            },
            None => None,
        },
        None => None,
    }
}

/// The member named `key`, read as an array of `n` strings.
pub open spec fn spec_member_string_array(s: Seq<char>, key: Seq<char>, n: nat) -> Option<
    Seq<Seq<char>>,
> {
    match spec_object_member(s, key) {
        Some(off) => match spec_parse_string_array(s.skip(off as int), n) {
            Some((v, _)) => Some(v),
            None => None,
        },
        None => None,
    }
}

/// The member named `key`, read as an array of `n` tenths values.
pub open spec fn spec_member_tenths_array(s: Seq<char>, key: Seq<char>, n: nat) -> Option<
    Seq<int>,
> {
    match spec_object_member(s, key) {
        Some(off) => match spec_parse_tenths_array(s.skip(off as int), n) {
            Some((v, _)) => Some(v),
            None => None,
        },
        None => None,
    }
}

/// The member named `key`, read as an array of `n` signed whole numbers.
pub open spec fn spec_member_int_array(s: Seq<char>, key: Seq<char>, n: nat) -> Option<Seq<int>> {
    match spec_object_member(s, key) {
        Some(off) => match spec_parse_int_array(s.skip(off as int), n) {
            Some((v, _)) => Some(v),
            None => None,
        },
        None => None,
    }
}

/// The member named `key`, read as an array of `n` weather codes.
pub open spec fn spec_member_u8_array(s: Seq<char>, key: Seq<char>, n: nat) -> Option<Seq<u8>> {
    match spec_object_member(s, key) {
        Some(off) => match spec_parse_u8_array(s.skip(off as int), n) {
            Some((v, _)) => Some(v),
            None => None,
        },
        None => None,
    }
}

/// Reads the string member named `key` of the object at `i`.
fn member_string_at(s: &str, i: usize, key: &str) -> (r: Result<String, DecodeError>)
    requires
        i <= s@.len(),
    ensures
        r is Ok <==> spec_member_string(s@.skip(i as int), key@) is Some,
        r matches Ok(v) ==> spec_member_string(s@.skip(i as int), key@) == Some(v@),
{
    let off = match object_member_at(s, i, key) {
        Ok(o) => o,
        Err(e) => { return Err(e) },
    };
    proof {
        assert(s@.skip(i as int).skip((off - i) as int) =~= s@.skip(off as int));
    }
    let (v, end) = match parse_string_at(s, off) {
        Ok(p) => p,
        Err(e) => { return Err(e) },
    };
    let sv = match skip_value_at(s, off) {
        Ok(p) => p,
        Err(e) => { return Err(e) },
    };
    if end != sv {
        return Err(DecodeError::ExpectedToken);
    }
    Ok(v)
}

/// Reads the tenths member named `key` of the object at `i`.
fn member_tenths_at(s: &str, i: usize, key: &str) -> (r: Result<i32, DecodeError>)
    requires
        i <= s@.len(),
    ensures
        r is Ok <==> spec_member_tenths(s@.skip(i as int), key@) is Some,
        r matches Ok(v) ==> spec_member_tenths(s@.skip(i as int), key@) == Some(v as int) && v
            > i32::MIN,
{
    let off = match object_member_at(s, i, key) {
        Ok(o) => o,
        Err(e) => { return Err(e) },
    };
    proof {
        assert(s@.skip(i as int).skip((off - i) as int) =~= s@.skip(off as int));
    }
    let (v, end) = match parse_tenths_at(s, off) {
        Ok(p) => p,
        Err(e) => { return Err(e) },
    };
    let sv = match skip_value_at(s, off) {
        Ok(p) => p,
        Err(e) => { return Err(e) },
    };
    if end != sv {
        return Err(DecodeError::InvalidNumber);
    }
    Ok(v)
}

/// Reads the signed whole-number member named `key` of the object at `i`.
fn member_i64_at(s: &str, i: usize, key: &str) -> (r: Result<i64, DecodeError>)
    requires
        i <= s@.len(),
    ensures
        r is Ok <==> spec_member_int(s@.skip(i as int), key@) is Some,
        r matches Ok(v) ==> spec_member_int(s@.skip(i as int), key@) == Some(v as int) && v
            > i64::MIN,
{
    let off = match object_member_at(s, i, key) {
        Ok(o) => o,
        Err(e) => { return Err(e) },
    };
    proof {
        assert(s@.skip(i as int).skip((off - i) as int) =~= s@.skip(off as int));
    }
    let (v, end) = match parse_int_at(s, off, i64::MAX as u64) {
        Ok(p) => p,
        Err(e) => { return Err(e) },
    };
    let sv = match skip_value_at(s, off) {
        Ok(p) => p,
        Err(e) => { return Err(e) },
    };
    if end != sv {
        return Err(DecodeError::InvalidNumber);
    }
    Ok(v)
}

/// Reads the bounded-number member named `key` of the object at `i`.
fn member_nat_at(s: &str, i: usize, key: &str, bound: u64) -> (r: Result<u64, DecodeError>)
    requires
        i <= s@.len(),
        bound <= i64::MAX as u64,
    ensures
        r is Ok <==> spec_member_nat(s@.skip(i as int), key@, bound as nat) is Some,
        r matches Ok(v) ==> spec_member_nat(s@.skip(i as int), key@, bound as nat) == Some(
            v as nat,
        ),
{
    let off = match object_member_at(s, i, key) {
        Ok(o) => o,
        Err(e) => { return Err(e) },
    };
    proof {
        assert(s@.skip(i as int).skip((off - i) as int) =~= s@.skip(off as int));
    }
    let (v, end) = match parse_nat_at(s, off, bound) {
        Ok(p) => p,
        Err(e) => { return Err(e) },
    };
    let sv = match skip_value_at(s, off) {
        Ok(p) => p,
        Err(e) => { return Err(e) },
    };
    if end != sv {
        return Err(DecodeError::InvalidNumber);
    }
    Ok(v)
}

/// Reads the string-array member named `key` of the object at `i`.
fn member_string_array_at(s: &str, i: usize, key: &str, n: u8) -> (r: Result<
    Vec<String>,
    DecodeError,
>)
    requires
        i <= s@.len(),
        n >= 1,
    ensures
        r is Ok <==> spec_member_string_array(s@.skip(i as int), key@, n as nat) is Some,
        r matches Ok(v) ==> {
            &&& spec_member_string_array(s@.skip(i as int), key@, n as nat) == Some(
                crate::response_models::text_views(v@),
            )
            &&& v@.len() == n
        },
{
    let off = match object_member_at(s, i, key) {
        Ok(o) => o,
        Err(e) => { return Err(e) },
    };
    proof {
        assert(s@.skip(i as int).skip((off - i) as int) =~= s@.skip(off as int));
    }
    match parse_string_array_at(s, off, n) {
        Ok((v, _)) => Ok(v),
        Err(e) => Err(e),
    }
}

/// Reads the tenths-array member named `key` of the object at `i`.
fn member_tenths_array_at(s: &str, i: usize, key: &str, n: u8) -> (r: Result<
    Vec<i32>,
    DecodeError,
>)
    requires
        i <= s@.len(),
        n >= 1,
    ensures
        r is Ok <==> spec_member_tenths_array(s@.skip(i as int), key@, n as nat) is Some,
        r matches Ok(v) ==> {
            &&& spec_member_tenths_array(s@.skip(i as int), key@, n as nat) == Some(
                v@.map_values(|t: i32| t as int),
            )
            &&& v@.len() == n
            &&& (forall|j: int| 0 <= j < v@.len() ==> #[trigger] v@[j] > i32::MIN)
        },
{
    let off = match object_member_at(s, i, key) {
        Ok(o) => o,
        Err(e) => { return Err(e) },
    };
    proof {
        assert(s@.skip(i as int).skip((off - i) as int) =~= s@.skip(off as int));
    }
    match parse_tenths_array_at(s, off, n) {
        Ok((v, _)) => Ok(v),
        Err(e) => Err(e),
    }
}

/// Reads the whole-number-array member named `key` of the object at `i`.
fn member_i64_array_at(s: &str, i: usize, key: &str, n: u8) -> (r: Result<Vec<i64>, DecodeError>)
    requires
        i <= s@.len(),
        n >= 1,
    ensures
        r is Ok <==> spec_member_int_array(s@.skip(i as int), key@, n as nat) is Some,
        r matches Ok(v) ==> {
            &&& spec_member_int_array(s@.skip(i as int), key@, n as nat) == Some(
                v@.map_values(|t: i64| t as int),
            )
            &&& v@.len() == n
        },
{
    let off = match object_member_at(s, i, key) {
        Ok(o) => o,
        Err(e) => { return Err(e) },
    };
    proof {
        assert(s@.skip(i as int).skip((off - i) as int) =~= s@.skip(off as int));
    }
    match parse_i64_array_at(s, off, n) {
        Ok((v, _)) => Ok(v),
        Err(e) => Err(e),
    }
}

/// Reads the weather-code-array member named `key` of the object at `i`.
fn member_u8_array_at(s: &str, i: usize, key: &str, n: u8) -> (r: Result<Vec<u8>, DecodeError>)
    requires
        i <= s@.len(),
        n >= 1,
    ensures
        r is Ok <==> spec_member_u8_array(s@.skip(i as int), key@, n as nat) is Some,
        r matches Ok(v) ==> {
            &&& spec_member_u8_array(s@.skip(i as int), key@, n as nat) == Some(v@)
            &&& v@.len() == n
        },
{
    let off = match object_member_at(s, i, key) {
        Ok(o) => o,
        Err(e) => { return Err(e) },
    };
    proof {
        assert(s@.skip(i as int).skip((off - i) as int) =~= s@.skip(off as int));
    }
    match parse_u8_array_at(s, off, n) {
        Ok((v, _)) => Ok(v),
        Err(e) => Err(e),
    }
}

// ---- Comma-separated value lists of a known count ------------------------

/// Consumes `n` comma-separated strings.
pub open spec fn spec_parse_string_items(s: Seq<char>, n: nat) -> Option<(Seq<Seq<char>>, nat)>
    decreases n,
{
    if n == 0 {
        None
    } else {
        match spec_parse_string(s) {
            Some((v, c)) => {
                if n == 1 {
                    Some((seq![v], c))
                } else if c < s.len() && s[c as int] == ',' {
                    match spec_parse_string_items(s.skip(c as int + 1), (n - 1) as nat) {
                        Some((vs, c2)) => Some((seq![v] + vs, (c + 1 + c2) as nat)),
                        None => None,
                    }
                } else {
                    None
                }
            },
            None => None,
        }
    }
}

/// Consumes `n` comma-separated tenths-valued temperatures.
pub open spec fn spec_parse_tenths_items(s: Seq<char>, n: nat) -> Option<(Seq<int>, nat)>
    decreases n,
{
    if n == 0 {
        None
    } else {
        match spec_parse_tenths(s) {
            Some((v, c)) => {
                if n == 1 {
                    Some((seq![v], c))
                } else if c < s.len() && s[c as int] == ',' {
                    match spec_parse_tenths_items(s.skip(c as int + 1), (n - 1) as nat) {
                        Some((vs, c2)) => Some((seq![v] + vs, (c + 1 + c2) as nat)),
                        None => None,
                    }
                } else {
                    None
                }
            },
            None => None,
        }
    }
}

/// Consumes `n` comma-separated signed whole numbers.
pub open spec fn spec_parse_int_items(s: Seq<char>, n: nat) -> Option<(Seq<int>, nat)>
    decreases n,
{
    if n == 0 {
        None
    } else {
        match spec_parse_int(s, i64::MAX as nat) {
            Some((v, c)) => {
                if n == 1 {
                    Some((seq![v], c))
                } else if c < s.len() && s[c as int] == ',' {
                    match spec_parse_int_items(s.skip(c as int + 1), (n - 1) as nat) {
                        Some((vs, c2)) => Some((seq![v] + vs, (c + 1 + c2) as nat)),
                        None => None,
                    }
                } else {
                    None
                }
            },
            None => None,
        }
    }
}

/// Consumes `n` comma-separated weather codes, each at most 255.
pub open spec fn spec_parse_u8_items(s: Seq<char>, n: nat) -> Option<(Seq<u8>, nat)>
    decreases n,
{
    if n == 0 {
        None
    } else {
        match spec_parse_nat(s, 255) {
            Some((v, c)) => {
                if n == 1 {
                    Some((seq![v as u8], c))
                } else if c < s.len() && s[c as int] == ',' {
                    match spec_parse_u8_items(s.skip(c as int + 1), (n - 1) as nat) {
                        Some((vs, c2)) => Some((seq![v as u8] + vs, (c + 1 + c2) as nat)),
                        None => None,
                    }
                } else {
                    None
                }
            },
            None => None,
        }
    }
}

/// Consumes a bracketed array of `n` strings.
pub open spec fn spec_parse_string_array(s: Seq<char>, n: nat) -> Option<(Seq<Seq<char>>, nat)> {
    if s.len() > 0 && s[0] == '[' {
        match spec_parse_string_items(s.skip(1), n) {
            Some((vs, c)) => {
                if 1 + c < s.len() && s[1 + c as int] == ']' {
                    Some((vs, (c + 2) as nat))
                } else {
                    None
                }
            },
            None => None,
        }
    } else {
        None
    }
}

/// Consumes a bracketed array of `n` tenths values.
pub open spec fn spec_parse_tenths_array(s: Seq<char>, n: nat) -> Option<(Seq<int>, nat)> {
    if s.len() > 0 && s[0] == '[' {
        match spec_parse_tenths_items(s.skip(1), n) {
            Some((vs, c)) => {
                if 1 + c < s.len() && s[1 + c as int] == ']' {
                    Some((vs, (c + 2) as nat))
                } else {
                    None
                }
            },
            None => None,
        }
    } else {
        None
    }
}

/// Consumes a bracketed array of `n` signed whole numbers.
pub open spec fn spec_parse_int_array(s: Seq<char>, n: nat) -> Option<(Seq<int>, nat)> {
    if s.len() > 0 && s[0] == '[' {
        match spec_parse_int_items(s.skip(1), n) {
            Some((vs, c)) => {
                if 1 + c < s.len() && s[1 + c as int] == ']' {
                    Some((vs, (c + 2) as nat))
                } else {
                    None
                }
            },
            None => None,
        }
    } else {
        None
    }
}

/// Consumes a bracketed array of `n` weather codes.
pub open spec fn spec_parse_u8_array(s: Seq<char>, n: nat) -> Option<(Seq<u8>, nat)> {
    if s.len() > 0 && s[0] == '[' {
        match spec_parse_u8_items(s.skip(1), n) {
            Some((vs, c)) => {
                if 1 + c < s.len() && s[1 + c as int] == ']' {
                    Some((vs, (c + 2) as nat))
                } else {
                    None
                }
            },
            None => None,
        }
    } else {
        None
    }
}

/// Reads `n` comma-separated strings starting at `i`.
fn parse_string_items_at(s: &str, i: usize, n: u8) -> (r: Result<(Vec<String>, usize), DecodeError>)
    requires
        i <= s@.len(),
        n >= 1,
    ensures
        r is Ok <==> spec_parse_string_items(s@.skip(i as int), n as nat) is Some,
        r matches Ok(p) ==> {
            &&& spec_parse_string_items(s@.skip(i as int), n as nat) matches Some(q)
            &&& crate::response_models::text_views(p.0@) == q.0
            &&& p.0@.len() == n
            &&& p.1 == i + q.1
            &&& i < p.1 <= s@.len()
        },
    decreases n,
{
    let ghost rest = s@.skip(i as int);
    let (v, next) = match parse_string_at(s, i) {
        Ok(p) => p,
        Err(e) => { return Err(e) },
    };
    if n == 1 {
        let mut out: Vec<String> = Vec::new();
        out.push(v);
        proof {
            let q0 = spec_parse_string(rest)->0;
            assert(crate::response_models::text_views(out@) =~= seq![q0.0]);
        }
        Ok((out, next))
    } else {
        let slen = s.unicode_len();
        let ghost c = (next - i) as nat;
        if next >= slen || s.get_char(next) != ',' {
            proof {
                if next < slen {
                    assert(rest[c as int] == s@[next as int]);
                }
            }
            return Err(DecodeError::ExpectedToken);
        }
        proof {
            assert(rest[c as int] == s@[next as int]);
            assert(rest.skip(c as int + 1) =~= s@.skip(next + 1));
        }
        match parse_string_items_at(s, next + 1, n - 1) {
            Ok((mut rest_items, end)) => {
                rest_items.insert(0, v);
                proof {
                    let q0 = spec_parse_string(rest)->0;
                    let qs = spec_parse_string_items(s@.skip(next + 1), (n - 1) as nat)->0;
                    assert(crate::response_models::text_views(rest_items@) =~= seq![q0.0]
                        + qs.0);
                }
                Ok((rest_items, end))
            },
            Err(e) => Err(e),
        }
    }
}

/// Reads `n` comma-separated tenths values starting at `i`.
fn parse_tenths_items_at(s: &str, i: usize, n: u8) -> (r: Result<(Vec<i32>, usize), DecodeError>)
    requires
        i <= s@.len(),
        n >= 1,
    ensures
        r is Ok <==> spec_parse_tenths_items(s@.skip(i as int), n as nat) is Some,
        r matches Ok(p) ==> {
            &&& spec_parse_tenths_items(s@.skip(i as int), n as nat) matches Some(q)
            &&& p.0@.map_values(|t: i32| t as int) == q.0
            &&& p.0@.len() == n
            &&& (forall|j: int| 0 <= j < p.0@.len() ==> #[trigger] p.0@[j] > i32::MIN)
            &&& p.1 == i + q.1
            &&& i < p.1 <= s@.len()
        },
    decreases n,
{
    let ghost rest = s@.skip(i as int);
    let (v, next) = match parse_tenths_at(s, i) {
        Ok(p) => p,
        Err(e) => { return Err(e) },
    };
    if n == 1 {
        let mut out: Vec<i32> = Vec::new();
        out.push(v);
        proof {
            let q0 = spec_parse_tenths(rest)->0;
            assert(out@.map_values(|t: i32| t as int) =~= seq![q0.0]);
        }
        Ok((out, next))
    } else {
        let slen = s.unicode_len();
        let ghost c = (next - i) as nat;
        if next >= slen || s.get_char(next) != ',' {
            proof {
                if next < slen {
                    assert(rest[c as int] == s@[next as int]);
                }
            }
            return Err(DecodeError::ExpectedToken);
        }
        proof {
            assert(rest[c as int] == s@[next as int]);
            assert(rest.skip(c as int + 1) =~= s@.skip(next + 1));
        }
        match parse_tenths_items_at(s, next + 1, n - 1) {
            Ok((mut rest_items, end)) => {
                rest_items.insert(0, v);
                proof {
                    let q0 = spec_parse_tenths(rest)->0;
                    let qs = spec_parse_tenths_items(s@.skip(next + 1), (n - 1) as nat)->0;
                    assert(rest_items@.map_values(|t: i32| t as int) =~= seq![q0.0] + qs.0);
                }
                Ok((rest_items, end))
            },
            Err(e) => Err(e),
        }
    }
}

/// Reads `n` comma-separated signed whole numbers starting at `i`.
fn parse_i64_items_at(s: &str, i: usize, n: u8) -> (r: Result<(Vec<i64>, usize), DecodeError>)
    requires
        i <= s@.len(),
        n >= 1,
    ensures
        r is Ok <==> spec_parse_int_items(s@.skip(i as int), n as nat) is Some,
        r matches Ok(p) ==> {
            &&& spec_parse_int_items(s@.skip(i as int), n as nat) matches Some(q)
            &&& p.0@.map_values(|t: i64| t as int) == q.0
            &&& p.0@.len() == n
            &&& p.1 == i + q.1
            &&& i < p.1 <= s@.len()
        },
    decreases n,
{
    let ghost rest = s@.skip(i as int);
    let (v, next) = match parse_int_at(s, i, i64::MAX as u64) {
        Ok(p) => p,
        Err(e) => { return Err(e) },
    };
    if n == 1 {
        let mut out: Vec<i64> = Vec::new();
        out.push(v);
        proof {
            let q0 = spec_parse_int(rest, i64::MAX as nat)->0;
            assert(out@.map_values(|t: i64| t as int) =~= seq![q0.0]);
        }
        Ok((out, next))
    } else {
        let slen = s.unicode_len();
        let ghost c = (next - i) as nat;
        if next >= slen || s.get_char(next) != ',' {
            proof {
                if next < slen {
                    assert(rest[c as int] == s@[next as int]);
                }
            }
            return Err(DecodeError::ExpectedToken);
        }
        proof {
            assert(rest[c as int] == s@[next as int]);
            assert(rest.skip(c as int + 1) =~= s@.skip(next + 1));
        }
        match parse_i64_items_at(s, next + 1, n - 1) {
            Ok((mut rest_items, end)) => {
                rest_items.insert(0, v);
                proof {
                    let q0 = spec_parse_int(rest, i64::MAX as nat)->0;
                    let qs = spec_parse_int_items(s@.skip(next + 1), (n - 1) as nat)->0;
                    assert(rest_items@.map_values(|t: i64| t as int) =~= seq![q0.0] + qs.0);
                }
                Ok((rest_items, end))
            },
            Err(e) => Err(e),
        }
    }
}

/// Reads `n` comma-separated weather codes starting at `i`.
fn parse_u8_items_at(s: &str, i: usize, n: u8) -> (r: Result<(Vec<u8>, usize), DecodeError>)
    requires
        i <= s@.len(),
        n >= 1,
    ensures
        r is Ok <==> spec_parse_u8_items(s@.skip(i as int), n as nat) is Some,
        r matches Ok(p) ==> {
            &&& spec_parse_u8_items(s@.skip(i as int), n as nat) matches Some(q)
            &&& p.0@ == q.0
            &&& p.0@.len() == n
            &&& p.1 == i + q.1
            &&& i < p.1 <= s@.len()
        },
    decreases n,
{
    let ghost rest = s@.skip(i as int);
    let (v, next) = match parse_nat_at(s, i, 255) {
        Ok(p) => p,
        Err(e) => { return Err(e) },
    };
    if n == 1 {
        let mut out: Vec<u8> = Vec::new();
        out.push(v as u8);
        proof {
            let q0 = spec_parse_nat(rest, 255)->0;
            assert(out@ =~= seq![q0.0 as u8]);
        }
        Ok((out, next))
    } else {
        let slen = s.unicode_len();
        let ghost c = (next - i) as nat;
        if next >= slen || s.get_char(next) != ',' {
            proof {
                if next < slen {
                    assert(rest[c as int] == s@[next as int]);
                }
            }
            return Err(DecodeError::ExpectedToken);
        }
        proof {
            assert(rest[c as int] == s@[next as int]);
            assert(rest.skip(c as int + 1) =~= s@.skip(next + 1));
        }
        match parse_u8_items_at(s, next + 1, n - 1) {
            Ok((mut rest_items, end)) => {
                rest_items.insert(0, v as u8);
                proof {
                    let q0 = spec_parse_nat(rest, 255)->0;
                    let qs = spec_parse_u8_items(s@.skip(next + 1), (n - 1) as nat)->0;
                    assert(rest_items@ =~= seq![q0.0 as u8] + qs.0);
                }
                Ok((rest_items, end))
            },
            Err(e) => Err(e),
        }
    }
}

// ---- Bracketed arrays ----------------------------------------------------

/// Reads a bracketed array of `n` strings starting at `i`.
fn parse_string_array_at(s: &str, i: usize, n: u8) -> (r: Result<
    (Vec<String>, usize),
    DecodeError,
>)
    requires
        i <= s@.len(),
        n >= 1,
    ensures
        r is Ok <==> spec_parse_string_array(s@.skip(i as int), n as nat) is Some,
        r matches Ok(p) ==> {
            &&& spec_parse_string_array(s@.skip(i as int), n as nat) matches Some(q)
            &&& crate::response_models::text_views(p.0@) == q.0
            &&& p.0@.len() == n
            &&& p.1 == i + q.1
            &&& i < p.1 <= s@.len()
        },
{
    let ghost rest = s@.skip(i as int);
    let slen = s.unicode_len();
    if i >= slen || s.get_char(i) != '[' {
        proof {
            if i < slen {
                assert(rest[0] == s@[i as int]);
            }
        }
        return Err(DecodeError::ExpectedToken);
    }
    proof {
        assert(rest[0] == s@[i as int]);
        assert(rest.skip(1) =~= s@.skip(i + 1));
    }
    let (vs, end) = match parse_string_items_at(s, i + 1, n) {
        Ok(p) => p,
        Err(e) => { return Err(e) },
    };
    let ghost c = (end - (i + 1)) as nat;
    if end >= slen || s.get_char(end) != ']' {
        proof {
            if end < slen {
                assert(rest[1 + c as int] == s@[end as int]);
            }
        }
        return Err(DecodeError::ExpectedToken);
    }
    proof {
        assert(rest[1 + c as int] == s@[end as int]);
    }
    Ok((vs, end + 1))
}

/// Reads a bracketed array of `n` tenths values starting at `i`.
fn parse_tenths_array_at(s: &str, i: usize, n: u8) -> (r: Result<(Vec<i32>, usize), DecodeError>)
    requires
        i <= s@.len(),
        n >= 1,
    ensures
        r is Ok <==> spec_parse_tenths_array(s@.skip(i as int), n as nat) is Some,
        r matches Ok(p) ==> {
            &&& spec_parse_tenths_array(s@.skip(i as int), n as nat) matches Some(q)
            &&& p.0@.map_values(|t: i32| t as int) == q.0
            &&& p.0@.len() == n
            &&& (forall|j: int| 0 <= j < p.0@.len() ==> #[trigger] p.0@[j] > i32::MIN)
            &&& p.1 == i + q.1
            &&& i < p.1 <= s@.len()
        },
{
    let ghost rest = s@.skip(i as int);
    let slen = s.unicode_len();
    if i >= slen || s.get_char(i) != '[' {
        proof {
            if i < slen {
                assert(rest[0] == s@[i as int]);
            }
        }
        return Err(DecodeError::ExpectedToken);
    }
    proof {
        assert(rest[0] == s@[i as int]);
        assert(rest.skip(1) =~= s@.skip(i + 1));
    }
    let (vs, end) = match parse_tenths_items_at(s, i + 1, n) {
        Ok(p) => p,
        Err(e) => { return Err(e) },
    };
    let ghost c = (end - (i + 1)) as nat;
    if end >= slen || s.get_char(end) != ']' {
        proof {
            if end < slen {
                assert(rest[1 + c as int] == s@[end as int]);
            }
        }
        return Err(DecodeError::ExpectedToken);
    }
    proof {
        assert(rest[1 + c as int] == s@[end as int]);
    }
    Ok((vs, end + 1))
}

/// Reads a bracketed array of `n` signed whole numbers starting at `i`.
fn parse_i64_array_at(s: &str, i: usize, n: u8) -> (r: Result<(Vec<i64>, usize), DecodeError>)
    requires
        i <= s@.len(),
        n >= 1,
    ensures
        r is Ok <==> spec_parse_int_array(s@.skip(i as int), n as nat) is Some,
        r matches Ok(p) ==> {
            &&& spec_parse_int_array(s@.skip(i as int), n as nat) matches Some(q)
            &&& p.0@.map_values(|t: i64| t as int) == q.0
            &&& p.0@.len() == n
            &&& p.1 == i + q.1
            &&& i < p.1 <= s@.len()
        },
{
    let ghost rest = s@.skip(i as int);
    let slen = s.unicode_len();
    if i >= slen || s.get_char(i) != '[' {
        proof {
            if i < slen {
                assert(rest[0] == s@[i as int]);
            }
        }
        return Err(DecodeError::ExpectedToken);
    }
    proof {
        assert(rest[0] == s@[i as int]);
        assert(rest.skip(1) =~= s@.skip(i + 1));
    }
    let (vs, end) = match parse_i64_items_at(s, i + 1, n) {
        Ok(p) => p,
        Err(e) => { return Err(e) },
    };
    let ghost c = (end - (i + 1)) as nat;
    if end >= slen || s.get_char(end) != ']' {
        proof {
            if end < slen {
                assert(rest[1 + c as int] == s@[end as int]);
            }
        }
        return Err(DecodeError::ExpectedToken);
    }
    proof {
        assert(rest[1 + c as int] == s@[end as int]);
    }
    Ok((vs, end + 1))
}

/// Reads a bracketed array of `n` weather codes starting at `i`.
fn parse_u8_array_at(s: &str, i: usize, n: u8) -> (r: Result<(Vec<u8>, usize), DecodeError>)
    requires
        i <= s@.len(),
        n >= 1,
    ensures
        r is Ok <==> spec_parse_u8_array(s@.skip(i as int), n as nat) is Some,
        r matches Ok(p) ==> {
            &&& spec_parse_u8_array(s@.skip(i as int), n as nat) matches Some(q)
            &&& p.0@ == q.0
            &&& p.0@.len() == n
            &&& p.1 == i + q.1
            &&& i < p.1 <= s@.len()
        },
{
    let ghost rest = s@.skip(i as int);
    let slen = s.unicode_len();
    if i >= slen || s.get_char(i) != '[' {
        proof {
            if i < slen {
                assert(rest[0] == s@[i as int]);
            }
        }
        return Err(DecodeError::ExpectedToken);
    }
    proof {
        assert(rest[0] == s@[i as int]);
        assert(rest.skip(1) =~= s@.skip(i + 1));
    }
    let (vs, end) = match parse_u8_items_at(s, i + 1, n) {
        Ok(p) => p,
        Err(e) => { return Err(e) },
    };
    let ghost c = (end - (i + 1)) as nat;
    if end >= slen || s.get_char(end) != ']' {
        proof {
            if end < slen {
                assert(rest[1 + c as int] == s@[end as int]);
            }
        }
        return Err(DecodeError::ExpectedToken);
    }
    proof {
        assert(rest[1 + c as int] == s@[end as int]);
    }
    Ok((vs, end + 1))
}

// ---- Keyed fields of the display subset's own format ---------------------
//
// The display subset's canonical text writes each field as its key
// literal followed by its value, the surrounding punctuation included in
// the literal.

/// Consumes `key` and then a quoted string.
pub open spec fn spec_parse_keyed_string(s: Seq<char>, key: Seq<char>) -> Option<(Seq<char>, nat)> {
    match spec_parse_lit(s, key) {
        Some(c) => match spec_parse_string(s.skip(c as int)) {
            Some((v, d)) => Some((v, (c + d) as nat)),
            None => None,
        },
        None => None,
    }
}

/// Consumes `key` and then a tenths-valued temperature.
pub open spec fn spec_parse_keyed_tenths(s: Seq<char>, key: Seq<char>) -> Option<(int, nat)> {
    match spec_parse_lit(s, key) {
        Some(c) => match spec_parse_tenths(s.skip(c as int)) {
            Some((v, d)) => Some((v, (c + d) as nat)),
            None => None,
        },
        None => None,
    }
}

/// Reads a key literal and the quoted string after it.
fn parse_keyed_string_at(s: &str, i: usize, key: &str) -> (r: Result<(String, usize), DecodeError>)
    requires
        i <= s@.len(),
    ensures
        r is Ok <==> spec_parse_keyed_string(s@.skip(i as int), key@) is Some,
        r matches Ok(p) ==> {
            &&& spec_parse_keyed_string(s@.skip(i as int), key@) matches Some(q)
            &&& p.0@ == q.0
            &&& p.1 == i + q.1
            &&& i <= p.1 <= s@.len()
        },
{
    if !match_lit_at(s, i, key) {
        return Err(DecodeError::ExpectedToken);
    }
    let total = s.unicode_len();
    proof {
        assert(key@.len() <= s@.skip(i as int).len());
        assert(i + key@.len() <= total);
    }
    let j = i + key.unicode_len();
    proof {
        assert(s@.skip(i as int).skip(key@.len() as int) =~= s@.skip(i + key@.len()));
    }
    match parse_string_at(s, j) {
        Ok((v, next)) => Ok((v, next)),
        Err(e) => Err(e),
    }
}

/// Reads a key literal and the tenths value after it.
fn parse_keyed_tenths_at(s: &str, i: usize, key: &str) -> (r: Result<(i32, usize), DecodeError>)
    requires
        i <= s@.len(),
    ensures
        r is Ok <==> spec_parse_keyed_tenths(s@.skip(i as int), key@) is Some,
        r matches Ok(p) ==> {
            &&& spec_parse_keyed_tenths(s@.skip(i as int), key@) matches Some(q)
            &&& p.0 == q.0
            &&& p.0 > i32::MIN
            &&& p.1 == i + q.1
            &&& i <= p.1 <= s@.len()
        },
{
    if !match_lit_at(s, i, key) {
        return Err(DecodeError::ExpectedToken);
    }
    let total = s.unicode_len();
    proof {
        assert(key@.len() <= s@.skip(i as int).len());
        assert(i + key@.len() <= total);
    }
    let j = i + key.unicode_len();
    proof {
        assert(s@.skip(i as int).skip(key@.len() as int) =~= s@.skip(i + key@.len()));
    }
    match parse_tenths_at(s, j) {
        Ok((v, next)) => Ok((v, next)),
        Err(e) => Err(e),
    }
}

// ---- The four objects of a forecast answer -------------------------------
//
// Each object is read by its members' names: the members may stand in any
// order, and members the device does not use — whatever the service adds —
// are passed over.

/// Reads the current-conditions units object at the head of `s`.
pub open spec fn spec_parse_current_units(s: Seq<char>) -> Option<(CurrentUnitsView, nat)> {
    match spec_object_extent(s) {
        Some(total) => match (
            spec_member_string(s, "time"@),
            spec_member_string(s, "interval"@),
            spec_member_string(s, "temperature_2m"@),
            spec_member_string(s, "relative_humidity_2m"@),
        ) {
            (Some(time), Some(interval), Some(temperature_2m), Some(relative_humidity_2m)) => Some(
                (
                    CurrentUnitsView { time, interval, temperature_2m, relative_humidity_2m },
                    total,
                ),
            ),
            _ => None,
        },
        None => None,
    }
}

/// Reads the current-conditions units object at `i`.
fn parse_current_units_at(s: &str, i: usize) -> (r: Result<(CurrentUnits, usize), DecodeError>)
    requires
        i <= s@.len(),
    ensures
        r is Ok <==> spec_parse_current_units(s@.skip(i as int)) is Some,
        r matches Ok(p) ==> {
            &&& spec_parse_current_units(s@.skip(i as int)) matches Some(q)
            &&& p.0@ == q.0
            &&& p.1 == i + q.1
            &&& i <= p.1 <= s@.len()
        },
{
    let total = match object_extent_at(s, i) {
        Ok(t) => t,
        Err(e) => { return Err(e) },
    };
    let time = match member_string_at(s, i, "time") {
        Ok(v) => v,
        Err(e) => { return Err(e) },
    };
    let interval = match member_string_at(s, i, "interval") {
        Ok(v) => v,
        Err(e) => { return Err(e) },
    };
    let temperature_2m = match member_string_at(s, i, "temperature_2m") {
        Ok(v) => v,
        Err(e) => { return Err(e) },
    };
    let relative_humidity_2m = match member_string_at(s, i, "relative_humidity_2m") {
        Ok(v) => v,
        Err(e) => { return Err(e) },
    };
    Ok((CurrentUnits { time, interval, temperature_2m, relative_humidity_2m }, total))
}

/// Reads the current-conditions object at the head of `s`.
pub open spec fn spec_parse_current(s: Seq<char>) -> Option<(CurrentView, nat)> {
    match spec_object_extent(s) {
        Some(total) => match (
            spec_member_string(s, "time"@),
            spec_member_int(s, "interval"@),
            spec_member_tenths(s, "temperature_2m"@),
            spec_member_int(s, "relative_humidity_2m"@),
            spec_member_nat(s, "weather_code"@, 255),
        ) {
            (
                Some(time),
                Some(interval),
                Some(temperature_2m),
                Some(relative_humidity_2m),
                Some(weather_code),
            ) => Some(
                (
                    CurrentView {
                        time,
                        interval,
                        temperature_2m,
                        relative_humidity_2m,
                        weather_code: weather_code as u8,
                    },
                    total,
                ),
            ),
            _ => None,
        },
        None => None,
    }
}

/// Reads the current-conditions object at `i`.
fn parse_current_at(s: &str, i: usize) -> (r: Result<(Current, usize), DecodeError>)
    requires
        i <= s@.len(),
    ensures
        r is Ok <==> spec_parse_current(s@.skip(i as int)) is Some,
        r matches Ok(p) ==> {
            &&& spec_parse_current(s@.skip(i as int)) matches Some(q)
            &&& p.0@ == q.0
            &&& p.0.temperature_2m > i32::MIN
            &&& p.0.relative_humidity_2m > i64::MIN
            &&& p.1 == i + q.1
            &&& i <= p.1 <= s@.len()
        },
{
    let total = match object_extent_at(s, i) {
        Ok(t) => t,
        Err(e) => { return Err(e) },
    };
    let time = match member_string_at(s, i, "time") {
        Ok(v) => v,
        Err(e) => { return Err(e) },
    };
    let interval = match member_i64_at(s, i, "interval") {
        Ok(v) => v,
        Err(e) => { return Err(e) },
    };
    let temperature_2m = match member_tenths_at(s, i, "temperature_2m") {
        Ok(v) => v,
        Err(e) => { return Err(e) },
    };
    let relative_humidity_2m = match member_i64_at(s, i, "relative_humidity_2m") {
        Ok(v) => v,
        Err(e) => { return Err(e) },
    };
    let weather_code = match member_nat_at(s, i, "weather_code", 255) {
        Ok(v) => v,
        Err(e) => { return Err(e) },
    };
    Ok(
        (
            Current {
                time,
                interval,
                temperature_2m,
                relative_humidity_2m,
                weather_code: weather_code as u8,
            },
            total,
        ),
    )
}

/// Reads the daily units object at the head of `s`.
pub open spec fn spec_parse_daily_units(s: Seq<char>) -> Option<(DailyUnitsView, nat)> {
    match spec_object_extent(s) {
        Some(total) => match (
            spec_member_string(s, "time"@),
            spec_member_string(s, "temperature_2m_max"@),
            spec_member_string(s, "temperature_2m_min"@),
            spec_member_string(s, "precipitation_probability_max"@),
        ) {
            (
                Some(time),
                Some(temperature_2m_max),
                Some(temperature_2m_min),
                Some(precipitation_probability_max),
            ) => Some(
                (
                    DailyUnitsView {
                        time,
                        temperature_2m_max,
                        temperature_2m_min,
                        precipitation_probability_max,
                    },
                    total,
                ),
            ),
            _ => None,
        },
        None => None,
    }
}

/// Reads the daily units object at `i`.
fn parse_daily_units_at(s: &str, i: usize) -> (r: Result<(DailyUnits, usize), DecodeError>)
    requires
        i <= s@.len(),
    ensures
        r is Ok <==> spec_parse_daily_units(s@.skip(i as int)) is Some,
        r matches Ok(p) ==> {
            &&& spec_parse_daily_units(s@.skip(i as int)) matches Some(q)
            &&& p.0@ == q.0
            &&& p.1 == i + q.1
            &&& i <= p.1 <= s@.len()
        },
{
    let total = match object_extent_at(s, i) {
        Ok(t) => t,
        Err(e) => { return Err(e) },
    };
    let time = match member_string_at(s, i, "time") {
        Ok(v) => v,
        Err(e) => { return Err(e) },
    };
    let temperature_2m_max = match member_string_at(s, i, "temperature_2m_max") {
        Ok(v) => v,
        Err(e) => { return Err(e) },
    };
    let temperature_2m_min = match member_string_at(s, i, "temperature_2m_min") {
        Ok(v) => v,
        Err(e) => { return Err(e) },
    };
    let precipitation_probability_max = match member_string_at(
        s,
        i,
        "precipitation_probability_max",
    ) {
        Ok(v) => v,
        Err(e) => { return Err(e) },
    };
    Ok(
        (
            DailyUnits {
                time,
                temperature_2m_max,
                temperature_2m_min,
                precipitation_probability_max,
            },
            total,
        ),
    )
}

/// Reads the daily object at the head of `s`, its parallel arrays each
/// carrying `n` days.
pub open spec fn spec_parse_daily(s: Seq<char>, n: nat) -> Option<(DailyView, nat)> {
    match spec_object_extent(s) {
        Some(total) => match (
            spec_member_string_array(s, "time"@, n),
            spec_member_u8_array(s, "weather_code"@, n),
            spec_member_tenths_array(s, "temperature_2m_max"@, n),
            spec_member_tenths_array(s, "temperature_2m_min"@, n),
            spec_member_string_array(s, "sunrise"@, n),
            spec_member_string_array(s, "sunset"@, n),
            spec_member_int_array(s, "precipitation_probability_max"@, n),
        ) {
            (
                Some(time),
                Some(weather_code),
                Some(temperature_2m_max),
                Some(temperature_2m_min),
                Some(sunrise),
                Some(sunset),
                Some(precipitation_probability_max),
            ) => Some(
                (
                    DailyView {
                        time,
                        weather_code,
                        temperature_2m_max,
                        temperature_2m_min,
                        sunrise,
                        sunset,
                        precipitation_probability_max,
                    },
                    total,
                ),
            ),
            _ => None,
        },
        None => None,
    }
}

/// Reads the daily object at `i`, expecting `n` days.
#[verifier::rlimit(100)]
#[verifier::spinoff_prover]
fn parse_daily_at(s: &str, i: usize, n: u8) -> (r: Result<(Daily, usize), DecodeError>)
    requires
        i <= s@.len(),
        n >= 1,
    ensures
        r is Ok <==> spec_parse_daily(s@.skip(i as int), n as nat) is Some,
        r matches Ok(p) ==> {
            &&& spec_parse_daily(s@.skip(i as int), n as nat) matches Some(q)
            &&& p.0@ == q.0
            &&& p.0.time@.len() == n
            &&& (5 <= n <= 7 ==> p.0.well_formed())
            &&& p.1 == i + q.1
            &&& i <= p.1 <= s@.len()
        },
{
    let total = match object_extent_at(s, i) {
        Ok(t) => t,
        Err(e) => { return Err(e) },
    };
    let time = match member_string_array_at(s, i, "time", n) {
        Ok(v) => v,
        Err(e) => { return Err(e) },
    };
    let weather_code = match member_u8_array_at(s, i, "weather_code", n) {
        Ok(v) => v,
        Err(e) => { return Err(e) },
    };
    let temperature_2m_max = match member_tenths_array_at(s, i, "temperature_2m_max", n) {
        Ok(v) => v,
        Err(e) => { return Err(e) },
    };
    let temperature_2m_min = match member_tenths_array_at(s, i, "temperature_2m_min", n) {
        Ok(v) => v,
        Err(e) => { return Err(e) },
    };
    let sunrise = match member_string_array_at(s, i, "sunrise", n) {
        Ok(v) => v,
        Err(e) => { return Err(e) },
    };
    let sunset = match member_string_array_at(s, i, "sunset", n) {
        Ok(v) => v,
        Err(e) => { return Err(e) },
    };
    let precipitation_probability_max = match member_i64_array_at(
        s,
        i,
        "precipitation_probability_max",
        n,
    ) {
        Ok(v) => v,
        Err(e) => { return Err(e) },
    };
    Ok(
        (
            Daily {
                time,
                weather_code,
                temperature_2m_max,
                temperature_2m_min,
                sunrise,
                sunset,
                precipitation_probability_max,
            },
            total,
        ),
    )
}

// ---- Whole answers -------------------------------------------------------

/// Reads a whole forecast answer whose daily arrays carry `n` days: the
/// four objects the device uses, found by name, with every other member —
/// position, elevation, zone names, whatever the service adds — passed
/// over.
pub open spec fn spec_parse_forecast_n(s: Seq<char>, n: nat) -> Option<
    (ForecastResponseView, nat),
> {
    match spec_object_extent(s) {
        Some(total) => {
            let cu = match spec_object_member(s, "current_units"@) {
                Some(off) => match spec_parse_current_units(s.skip(off as int)) {
                    Some((v, _)) => Some(v),
                    None => None,
                },
                None => None,
            };
            let cur = match spec_object_member(s, "current"@) {
                Some(off) => match spec_parse_current(s.skip(off as int)) {
                    Some((v, _)) => Some(v),
                    None => None,
                },
                None => None,
            };
            let du = match spec_object_member(s, "daily_units"@) {
                Some(off) => match spec_parse_daily_units(s.skip(off as int)) {
                    Some((v, _)) => Some(v),
                    None => None,
                },
                None => None,
            };
            let da = match spec_object_member(s, "daily"@) {
                Some(off) => match spec_parse_daily(s.skip(off as int), n) {
                    Some((v, _)) => Some(v),
                    None => None,
                },
                None => None,
            };
            match (cu, cur, du, da) {
                (Some(current_units), Some(current), Some(daily_units), Some(daily)) => Some(
                    (
                        ForecastResponseView { current_units, current, daily_units, daily },
                        total,
                    ),
                ),
                _ => None,
            }
        },
        None => None,
    }
}

/// Reads a whole forecast answer expecting `n` days.
#[verifier::rlimit(100)]
#[verifier::spinoff_prover]
fn parse_forecast_n(s: &str, n: u8) -> (r: Result<(ForecastResponse, usize), DecodeError>)
    requires
        n >= 1,
    ensures
        r is Ok <==> spec_parse_forecast_n(s@, n as nat) is Some,
        r matches Ok(p) ==> {
            &&& spec_parse_forecast_n(s@, n as nat) matches Some(q)
            &&& p.0@ == q.0
            &&& p.1 == q.1
            &&& p.1 <= s@.len()
            &&& p.0.daily.time@.len() == n
            &&& (5 <= n <= 7 ==> p.0.well_formed())
        },
{
    proof {
        assert(s@.skip(0) =~= s@);
    }
    let total = match object_extent_at(s, 0) {
        Ok(t) => t,
        Err(e) => { return Err(e) },
    };
    let current_units = match object_member_at(s, 0, "current_units") {
        Ok(off) => match parse_current_units_at(s, off) {
            Ok((v, _)) => v,
            Err(e) => { return Err(e) },
        },
        Err(e) => { return Err(e) },
    };
    let current = match object_member_at(s, 0, "current") {
        Ok(off) => match parse_current_at(s, off) {
            Ok((v, _)) => v,
            Err(e) => { return Err(e) },
        },
        Err(e) => { return Err(e) },
    };
    let daily_units = match object_member_at(s, 0, "daily_units") {
        Ok(off) => match parse_daily_units_at(s, off) {
            Ok((v, _)) => v,
            Err(e) => { return Err(e) },
        },
        Err(e) => { return Err(e) },
    };
    let daily = match object_member_at(s, 0, "daily") {
        Ok(off) => match parse_daily_at(s, off, n) {
            Ok((v, _)) => v,
            Err(e) => { return Err(e) },
        },
        Err(e) => { return Err(e) },
    };
    Ok((ForecastResponse { current_units, current, daily_units, daily }, total))
}

/// The first day count, tried from one to eight, whose layout matches the
/// whole of `s`; forecasts are served with five to seven days, and the
/// neighbouring counts are tried so a wrong span can be told apart from
/// malformed text.
pub open spec fn spec_forecast_match_from(s: Seq<char>, n: nat) -> Option<
    (nat, ForecastResponseView),
>
    decreases 9 - n,
{
    if n > 8 {
        None
    } else {
        match spec_parse_forecast_n(s, n) {
            Some((v, c)) => {
                if c == s.len() {
                    Some((n, v))
                } else {
                    spec_forecast_match_from(s, (n + 1) as nat)
                }
            },
            None => spec_forecast_match_from(s, (n + 1) as nat),
        }
    }
}

/// The day count and record a whole forecast answer denotes, if any.
pub open spec fn spec_parse_forecast(s: Seq<char>) -> Option<(nat, ForecastResponseView)> {
    spec_forecast_match_from(s, 1)
}

/// Decodes a whole forecast answer.  The layout must match for some day
/// count from one to eight; a match outside five to seven days is the
/// wrong-span error, so a service that starts answering with a different
/// span is reported rather than trusted.  The decoded record is
/// well-formed: its parallel arrays agree and its numbers leave the
/// display arithmetic room.
pub fn decode_forecast(s: &str) -> (r: Result<ForecastResponse, DecodeError>)
    ensures
        r is Ok <==> (spec_parse_forecast(s@) matches Some(p) && 5 <= p.0 <= 7),
        r matches Ok(f) ==> {
            &&& spec_parse_forecast(s@) matches Some(p)
            &&& f@ == p.1
            &&& f.well_formed()
        },
        r == Err::<ForecastResponse, DecodeError>(DecodeError::WrongDayCount) <==> (
        spec_parse_forecast(s@) matches Some(p) && !(5 <= p.0 <= 7)),
{
    let slen = s.unicode_len();
    let mut n: u8 = 1;
    while n <= 8
        invariant
            1 <= n <= 9,
            slen == s@.len(),
            spec_forecast_match_from(s@, 1) == spec_forecast_match_from(s@, n as nat),
        decreases 9 - n,
    {
        match parse_forecast_n(s, n) {
            Ok((f, end)) => {
                if end == slen {
                    if n >= 5 && n <= 7 {
                        return Ok(f);
                    } else {
                        return Err(DecodeError::WrongDayCount);
                    }
                }
            },
            Err(_) => {},
        }
        n = n + 1;
    }
    Err(DecodeError::ExpectedToken)
}

/// Reads a whole time answer: the moment as text and the day of week
/// numbered from zero at Sunday, found by name among however many other
/// members the service sends.
pub open spec fn spec_parse_time_response(s: Seq<char>) -> Option<(TimeApiResponseView, nat)> {
    match spec_object_extent(s) {
        Some(total) => match (
            spec_member_string(s, "datetime"@),
            spec_member_nat(s, "day_of_week"@, 255),
        ) {
            (Some(datetime), Some(day_of_week)) => Some(
                (TimeApiResponseView { datetime, day_of_week: day_of_week as u8 }, total),
            ),
            _ => None,
        },
        None => None,
    }
}

/// Decodes a whole time answer.
pub fn decode_time_response(s: &str) -> (r: Result<TimeApiResponse, DecodeError>)
    ensures
        r is Ok <==> (spec_parse_time_response(s@) matches Some(p) && p.1 == s@.len()),
        r matches Ok(t) ==> {
            &&& spec_parse_time_response(s@) matches Some(p)
            &&& t@ == p.0
        },
{
    proof {
        assert(s@.skip(0) =~= s@);
    }
    let total = match object_extent_at(s, 0) {
        Ok(t) => t,
        Err(_) => { return Err(DecodeError::ExpectedToken) },
    };
    let datetime = match member_string_at(s, 0, "datetime") {
        Ok(v) => v,
        Err(e) => { return Err(e) },
    };
    let day_of_week = match member_nat_at(s, 0, "day_of_week", 255) {
        Ok(v) => v,
        Err(e) => { return Err(e) },
    };
    let n = s.unicode_len();
    if total != n {
        return Err(DecodeError::ExpectedToken);
    }
    Ok(TimeApiResponse { datetime, day_of_week: day_of_week as u8 })
}

// ---- The display subset --------------------------------------------------
//
// What the forecast strip actually shows of each day: the date text, the
// two temperatures, and the sun times.  The subset can be re-encoded and
// decoded without losing a field, which pins down that decoding never
// corrupts what the panel draws.

/// One day of the display subset.
#[derive(Debug, PartialEq, Eq)]
pub struct DisplayDay {
    pub date: String,
    pub temperature_2m_max: i32,
    pub temperature_2m_min: i32,
    pub sunrise: String,
    pub sunset: String,
}

/// Mathematical content of one subset day.
pub ghost struct DisplayDayView {
    pub date: Seq<char>,
    pub temperature_2m_max: int,
    pub temperature_2m_min: int,
    pub sunrise: Seq<char>,
    pub sunset: Seq<char>,
}

impl View for DisplayDay {
    type V = DisplayDayView;

    open spec fn view(&self) -> DisplayDayView {
        DisplayDayView {
            date: self.date@,
            temperature_2m_max: self.temperature_2m_max as int,
            temperature_2m_min: self.temperature_2m_min as int,
            sunrise: self.sunrise@,
            sunset: self.sunset@,
        }
    }
}

impl Clone for DisplayDay {
    fn clone(&self) -> (r: Self)
        ensures
            r@ == self@,
    {
        DisplayDay {
            date: self.date.clone(),
            temperature_2m_max: self.temperature_2m_max,
            temperature_2m_min: self.temperature_2m_min,
            sunrise: self.sunrise.clone(),
            sunset: self.sunset.clone(),
        }
    }
}

/// The subset days a vector holds, as mathematical values.
pub open spec fn spec_display_days(v: Seq<DisplayDay>) -> Seq<DisplayDayView> {
    v.map_values(|d: DisplayDay| d@)
}

/// Text with no quote character, so it survives the quoted layout intact.
pub open spec fn spec_text_plain(s: Seq<char>) -> bool {
    forall|j: int| 0 <= j < s.len() ==> s[j] != '"'
}

/// A subset day whose encoding decodes to itself: its texts carry no
/// quote, and its temperatures stay within the layout's tenths range.
pub open spec fn spec_display_day_wf(d: DisplayDayView) -> bool {
    &&& spec_text_plain(d.date)
    &&& spec_text_plain(d.sunrise)
    &&& spec_text_plain(d.sunset)
    &&& -2147483639 <= d.temperature_2m_max <= 2147483639
    &&& -2147483639 <= d.temperature_2m_min <= 2147483639
}

/// The five displayed days of a forecast, in order.
pub fn display_subset(f: &ForecastResponse) -> (r: Vec<DisplayDay>)
    requires
        f.well_formed(),
    ensures
        r@.len() == 5,
        forall|i: int|
            0 <= i < 5 ==> {
                &&& (#[trigger] spec_display_days(r@)[i]).date == f@.daily.time[i]
                &&& spec_display_days(r@)[i].temperature_2m_max == f@.daily.temperature_2m_max[i]
                &&& spec_display_days(r@)[i].temperature_2m_min == f@.daily.temperature_2m_min[i]
                &&& spec_display_days(r@)[i].sunrise == f@.daily.sunrise[i]
                &&& spec_display_days(r@)[i].sunset == f@.daily.sunset[i]
            },
{
    let mut r: Vec<DisplayDay> = Vec::new();
    let mut i: usize = 0;
    while i < 5
        invariant
            0 <= i <= 5,
            f.well_formed(),
            r@.len() == i,
            forall|j: int|
                0 <= j < i ==> {
                    &&& (#[trigger] spec_display_days(r@)[j]).date == f@.daily.time[j]
                    &&& spec_display_days(r@)[j].temperature_2m_max
                        == f@.daily.temperature_2m_max[j]
                    &&& spec_display_days(r@)[j].temperature_2m_min
                        == f@.daily.temperature_2m_min[j]
                    &&& spec_display_days(r@)[j].sunrise == f@.daily.sunrise[j]
                    &&& spec_display_days(r@)[j].sunset == f@.daily.sunset[j]
                },
        decreases 5 - i,
    {
        let ghost prev = r@;
        let day = DisplayDay {
            date: f.daily.time[i].clone(),
            temperature_2m_max: f.daily.temperature_2m_max[i],
            temperature_2m_min: f.daily.temperature_2m_min[i],
            sunrise: f.daily.sunrise[i].clone(),
            sunset: f.daily.sunset[i].clone(),
        };
        proof {
            assert(f@.daily.time[i as int] == f.daily.time@[i as int]@);
            assert(f@.daily.sunrise[i as int] == f.daily.sunrise@[i as int]@);
            assert(f@.daily.sunset[i as int] == f.daily.sunset@[i as int]@);
            let gi = i as int;
            assert(f@.daily.temperature_2m_max[gi] == f.daily.temperature_2m_max@[gi] as int);
            assert(f@.daily.temperature_2m_min[gi] == f.daily.temperature_2m_min@[gi] as int);
        }
        r.push(day);
        proof {
            assert(spec_display_days(r@) =~= spec_display_days(prev).push(day@));
        }
        i = i + 1;
    }
    r
}

/// The canonical text of a tenths value: sign, whole digits, a point, one
/// fractional digit.
pub open spec fn spec_encode_tenths(t: int) -> Seq<char> {
    if t < 0 {
        seq!['-'] + spec_encode_tenths_nat(-t)
    } else {
        spec_encode_tenths_nat(t)
    }
}

/// The unsigned half of a tenths text.
pub open spec fn spec_encode_tenths_nat(v: int) -> Seq<char> {
    crate::text::spec_digits_of((v / 10) as nat) + seq!['.'] + seq![
        crate::text::spec_digit_char((v % 10) as nat),
    ]
}

/// The quoted text of a string body.
pub open spec fn spec_encode_string(body: Seq<char>) -> Seq<char> {
    seq!['"'] + body + seq!['"']
}

/// The canonical text of one subset day.
pub open spec fn spec_encode_day(d: DisplayDayView) -> Seq<char> {
    "{\"date\":"@ + spec_encode_string(d.date) + ",\"max\":"@ + spec_encode_tenths(
        d.temperature_2m_max,
    ) + ",\"min\":"@ + spec_encode_tenths(d.temperature_2m_min) + ",\"sunrise\":"@
        + spec_encode_string(d.sunrise) + ",\"sunset\":"@ + spec_encode_string(d.sunset) + "}"@
}

/// The canonical text of a row of subset days, comma-separated.
pub open spec fn spec_encode_days(ds: Seq<DisplayDayView>) -> Seq<char>
    decreases ds.len(),
{
    if ds.len() == 0 {
        Seq::empty()
    } else if ds.len() == 1 {
        spec_encode_day(ds[0])
    } else {
        spec_encode_day(ds[0]) + seq![','] + spec_encode_days(ds.drop_first())
    }
}

/// The canonical text of the whole display subset.
pub open spec fn spec_encode_display_subset(ds: Seq<DisplayDayView>) -> Seq<char> {
    seq!['['] + spec_encode_days(ds) + seq![']']
}

/// Renders a tenths value canonically, one fractional digit always.
fn encode_tenths(t: i32) -> (r: String)
    requires
        t > i32::MIN,
    ensures
        r@ == spec_encode_tenths(t as int),
{
    proof {
        reveal_strlit("-");
        reveal_strlit(".");
    }
    let mag: u32 = if t >= 0 {
        t as u32
    } else {
        (-t) as u32
    };
    let mut out = if t < 0 {
        String::from_str("-")
    } else {
        String::new()
    };
    let whole = crate::text::format_u64((mag / 10) as u64);
    out.append(whole.as_str());
    out.append(".");
    out.append(crate::text::digit_str((mag % 10) as u8));
    proof {
        assert("-"@ =~= seq!['-']);
        assert("."@ =~= seq!['.']);
        assert(out@ =~= spec_encode_tenths(t as int));
    }
    out
}

/// Renders one subset day canonically.
fn encode_day(d: &DisplayDay) -> (r: String)
    requires
        d.temperature_2m_max > i32::MIN,
        d.temperature_2m_min > i32::MIN,
    ensures
        r@ == spec_encode_day(d@),
{
    proof {
        reveal_strlit("\"");
    }
    let mut out = String::from_str("{\"date\":");
    out.append("\"");
    out.append(d.date.as_str());
    out.append("\"");
    out.append(",\"max\":");
    let max_text = encode_tenths(d.temperature_2m_max);
    out.append(max_text.as_str());
    out.append(",\"min\":");
    let min_text = encode_tenths(d.temperature_2m_min);
    out.append(min_text.as_str());
    out.append(",\"sunrise\":");
    out.append("\"");
    out.append(d.sunrise.as_str());
    out.append("\"");
    out.append(",\"sunset\":");
    out.append("\"");
    out.append(d.sunset.as_str());
    out.append("\"");
    out.append("}");
    proof {
        assert("\""@ =~= seq!['"']);
        assert(out@ =~= spec_encode_day(d@));
    }
    out
}

/// Renders the whole display subset canonically.
#[verifier::rlimit(100)]
#[verifier::spinoff_prover]
pub fn encode_display_subset(days: &Vec<DisplayDay>) -> (r: String)
    requires
        days@.len() == 5,
        forall|i: int| 0 <= i < 5 ==> (#[trigger] days@[i]).temperature_2m_max > i32::MIN,
        forall|i: int| 0 <= i < 5 ==> (#[trigger] days@[i]).temperature_2m_min > i32::MIN,
    ensures
        r@ == spec_encode_display_subset(spec_display_days(days@)),
{
    let mut out = String::from_str("[");
    let d0 = encode_day(&days[0]);
    out.append(d0.as_str());
    out.append(",");
    let d1 = encode_day(&days[1]);
    out.append(d1.as_str());
    out.append(",");
    let d2 = encode_day(&days[2]);
    out.append(d2.as_str());
    out.append(",");
    let d3 = encode_day(&days[3]);
    out.append(d3.as_str());
    out.append(",");
    let d4 = encode_day(&days[4]);
    out.append(d4.as_str());
    out.append("]");
    proof {
        reveal_strlit("[");
        reveal_strlit(",");
        reveal_strlit("]");
        let vs = spec_display_days(days@);
        assert(vs.len() == 5);
        assert(vs[0] == days@[0]@ && vs[1] == days@[1]@ && vs[2] == days@[2]@ && vs[3]
            == days@[3]@ && vs[4] == days@[4]@);
        assert(vs.drop_first().len() == 4);
        assert(vs.drop_first()[0] == vs[1]);
        assert(vs.drop_first().drop_first().len() == 3);
        assert(vs.drop_first().drop_first()[0] == vs[2]);
        assert(vs.drop_first().drop_first().drop_first().len() == 2);
        assert(vs.drop_first().drop_first().drop_first()[0] == vs[3]);
        assert(vs.drop_first().drop_first().drop_first().drop_first().len() == 1);
        assert(vs.drop_first().drop_first().drop_first().drop_first()[0] == vs[4]);
        assert("["@ =~= seq!['[']);
        assert(","@ =~= seq![',']);
        assert("]"@ =~= seq![']']);
        reveal_with_fuel(spec_encode_days, 6);
        assert(out@ =~= spec_encode_display_subset(vs));
    }
    out
}

/// Consumes one subset day.
pub open spec fn spec_parse_display_day(s: Seq<char>) -> Option<(DisplayDayView, nat)> {
    match spec_parse_keyed_string(s, "{\"date\":"@) {
        Some((date, a)) => match spec_parse_keyed_tenths(s.skip(a as int), ",\"max\":"@) {
            Some((temperature_2m_max, b)) => match spec_parse_keyed_tenths(
                s.skip((a + b) as int),
                ",\"min\":"@,
            ) {
                Some((temperature_2m_min, c)) => match spec_parse_keyed_string(
                    s.skip((a + b + c) as int),
                    ",\"sunrise\":"@,
                ) {
                    Some((sunrise, d)) => match spec_parse_keyed_string(
                        s.skip((a + b + c + d) as int),
                        ",\"sunset\":"@,
                    ) {
                        Some((sunset, e)) => match spec_parse_lit(
                            s.skip((a + b + c + d + e) as int),
                            "}"@,
                        ) {
                            Some(f) => Some(
                                (
                                    DisplayDayView {
                                        date,
                                        temperature_2m_max,
                                        temperature_2m_min,
                                        sunrise,
                                        sunset,
                                    },
                                    (a + b + c + d + e + f) as nat,
                                ),
                            ),
                            None => None,
                        },
                        None => None,
                    },
                    None => None,
                },
                None => None,
            },
            None => None,
        },
        None => None,
    }
}

/// Consumes `n` comma-separated subset days.
pub open spec fn spec_parse_display_days(s: Seq<char>, n: nat) -> Option<
    (Seq<DisplayDayView>, nat),
>
    decreases n,
{
    if n == 0 {
        None
    } else {
        match spec_parse_display_day(s) {
            Some((v, c)) => {
                if n == 1 {
                    Some((seq![v], c))
                } else if c < s.len() && s[c as int] == ',' {
                    match spec_parse_display_days(s.skip(c as int + 1), (n - 1) as nat) {
                        Some((vs, c2)) => Some((seq![v] + vs, (c + 1 + c2) as nat)),
                        None => None,
                    }
                } else {
                    None
                }
            },
            None => None,
        }
    }
}

/// The five subset days a whole display-subset text denotes, if any.
pub open spec fn spec_parse_display_subset(s: Seq<char>) -> Option<Seq<DisplayDayView>> {
    if s.len() > 0 && s[0] == '[' {
        match spec_parse_display_days(s.skip(1), 5) {
            Some((vs, c)) => {
                if 1 + c < s.len() && s[1 + c as int] == ']' && c + 2 == s.len() {
                    Some(vs)
                } else {
                    None
                }
            },
            None => None,
        }
    } else {
        None
    }
}

/// Reads one subset day at `i`.
#[verifier::rlimit(100)]
#[verifier::spinoff_prover]
fn parse_display_day_at(s: &str, i: usize) -> (r: Result<(DisplayDay, usize), DecodeError>)
    requires
        i <= s@.len(),
    ensures
        r is Ok <==> spec_parse_display_day(s@.skip(i as int)) is Some,
        r matches Ok(p) ==> {
            &&& spec_parse_display_day(s@.skip(i as int)) matches Some(q)
            &&& p.0@ == q.0
            &&& p.1 == i + q.1
            &&& i <= p.1 <= s@.len()
        },
{
    let ghost rest = s@.skip(i as int);
    let (date, a) = match parse_keyed_string_at(s, i, "{\"date\":") {
        Ok(p) => p,
        Err(e) => { return Err(e) },
    };
    proof {
        assert(rest.skip((a - i) as int) =~= s@.skip(a as int));
    }
    let (temperature_2m_max, b) = match parse_keyed_tenths_at(s, a, ",\"max\":") {
        Ok(p) => p,
        Err(e) => { return Err(e) },
    };
    proof {
        assert(rest.skip((b - i) as int) =~= s@.skip(b as int));
    }
    let (temperature_2m_min, c) = match parse_keyed_tenths_at(s, b, ",\"min\":") {
        Ok(p) => p,
        Err(e) => { return Err(e) },
    };
    proof {
        assert(rest.skip((c - i) as int) =~= s@.skip(c as int));
    }
    let (sunrise, d) = match parse_keyed_string_at(s, c, ",\"sunrise\":") {
        Ok(p) => p,
        Err(e) => { return Err(e) },
    };
    proof {
        assert(rest.skip((d - i) as int) =~= s@.skip(d as int));
    }
    let (sunset, e) = match parse_keyed_string_at(s, d, ",\"sunset\":") {
        Ok(p) => p,
        Err(e) => { return Err(e) },
    };
    proof {
        assert(rest.skip((e - i) as int) =~= s@.skip(e as int));
    }
    if !match_lit_at(s, e, "}") {
        return Err(DecodeError::ExpectedToken);
    }
    let total = s.unicode_len();
    proof {
        reveal_strlit("}");
        assert("}"@.len() == 1);
        assert(e + 1 <= total);
    }
    Ok(
        (
            DisplayDay { date, temperature_2m_max, temperature_2m_min, sunrise, sunset },
            e + 1,
        ),
    )
}

/// Reads `n` comma-separated subset days at `i`.
#[verifier::rlimit(100)]
#[verifier::spinoff_prover]
fn parse_display_days_at(s: &str, i: usize, n: u8) -> (r: Result<
    (Vec<DisplayDay>, usize),
    DecodeError,
>)
    requires
        i <= s@.len(),
        n >= 1,
    ensures
        r is Ok <==> spec_parse_display_days(s@.skip(i as int), n as nat) is Some,
        r matches Ok(p) ==> {
            &&& spec_parse_display_days(s@.skip(i as int), n as nat) matches Some(q)
            &&& spec_display_days(p.0@) == q.0
            &&& p.0@.len() == n
            &&& p.1 == i + q.1
            &&& i < p.1 <= s@.len()
        },
    decreases n,
{
    let ghost rest = s@.skip(i as int);
    let (v, next) = match parse_display_day_at(s, i) {
        Ok(p) => p,
        Err(e) => { return Err(e) },
    };
    if n == 1 {
        let mut out: Vec<DisplayDay> = Vec::new();
        out.push(v);
        proof {
            let q0 = spec_parse_display_day(rest)->0;
            assert(spec_display_days(out@) =~= seq![q0.0]);
        }
        Ok((out, next))
    } else {
        let slen = s.unicode_len();
        let ghost c = (next - i) as nat;
        if next >= slen || s.get_char(next) != ',' {
            proof {
                if next < slen {
                    assert(rest[c as int] == s@[next as int]);
                }
            }
            return Err(DecodeError::ExpectedToken);
        }
        proof {
            assert(rest[c as int] == s@[next as int]);
            assert(rest.skip(c as int + 1) =~= s@.skip(next + 1));
        }
        match parse_display_days_at(s, next + 1, n - 1) {
            Ok((mut rest_items, end)) => {
                rest_items.insert(0, v);
                proof {
                    let q0 = spec_parse_display_day(rest)->0;
                    let qs = spec_parse_display_days(s@.skip(next + 1), (n - 1) as nat)->0;
                    assert(spec_display_days(rest_items@) =~= seq![q0.0] + qs.0);
                }
                Ok((rest_items, end))
            },
            Err(e) => Err(e),
        }
    }
}

/// Decodes a whole display-subset text back into its five days.
pub fn parse_display_subset(s: &str) -> (r: Result<Vec<DisplayDay>, DecodeError>)
    ensures
        r is Ok <==> spec_parse_display_subset(s@) is Some,
        r matches Ok(days) ==> {
            &&& spec_parse_display_subset(s@) matches Some(q)
            &&& spec_display_days(days@) == q
            &&& days@.len() == 5
        },
{
    let ghost whole = s@;
    let slen = s.unicode_len();
    if slen == 0 || s.get_char(0) != '[' {
        return Err(DecodeError::ExpectedToken);
    }
    proof {
        assert(whole.skip(0) =~= whole);
    }
    let (days, end) = match parse_display_days_at(s, 1, 5) {
        Ok(p) => p,
        Err(e) => { return Err(e) },
    };
    let ghost c = (end - 1) as nat;
    if end >= slen || s.get_char(end) != ']' {
        proof {
            if end < slen {
                assert(whole[1 + c as int] == whole[end as int]);
            }
        }
        return Err(DecodeError::ExpectedToken);
    }
    if end + 1 != slen {
        return Err(DecodeError::ExpectedToken);
    }
    proof {
        assert(whole[1 + c as int] == whole[end as int]);
    }
    Ok(days)
}

// ---- Decoding is the inverse of encoding ---------------------------------

proof fn lemma_digit_char_val(d: nat)
    requires
        d < 10,
    ensures
        crate::parse::spec_digit_val(crate::text::spec_digit_char(d)) == d,
        spec_is_digit(crate::text::spec_digit_char(d)),
{
}

proof fn lemma_digits_of_wf(v: nat)
    ensures
        crate::text::spec_digits_of(v).len() >= 1,
        forall|j: int|
            0 <= j < crate::text::spec_digits_of(v).len() ==> spec_is_digit(
                #[trigger] crate::text::spec_digits_of(v)[j],
            ),
        spec_digits_val(crate::text::spec_digits_of(v)) == v,
        v > 0 ==> crate::text::spec_digits_of(v)[0] != '0',
        v == 0 ==> crate::text::spec_digits_of(v) == seq!['0'],
    decreases v,
{
    let d = crate::text::spec_digits_of(v);
    if v < 10 {
        lemma_digit_char_val(v);
        assert(d == seq![crate::text::spec_digit_char(v)]);
        assert(d.drop_last() =~= Seq::<char>::empty());
        assert(spec_digits_val(d) == spec_digits_val(d.drop_last()) * 10
            + crate::parse::spec_digit_val(d.last()));
    } else {
        lemma_digits_of_wf(v / 10);
        lemma_digit_char_val(v % 10);
        let pre = crate::text::spec_digits_of(v / 10);
        assert(d == pre + seq![crate::text::spec_digit_char(v % 10)]);
        assert(d.drop_last() =~= pre);
        assert(d.last() == crate::text::spec_digit_char(v % 10));
        assert forall|j: int| 0 <= j < d.len() implies spec_is_digit(#[trigger] d[j]) by {
            if j < pre.len() {
                assert(d[j] == pre[j]);
            } else {
                assert(d[j] == d.last());
            }
        }
        assert(d[0] == pre[0]);
        assert(spec_digits_val(d) == spec_digits_val(pre) * 10 + (v % 10));
    }
}

proof fn lemma_scan_digits_concat(d: Seq<char>, rest: Seq<char>)
    requires
        forall|j: int| 0 <= j < d.len() ==> spec_is_digit(#[trigger] d[j]),
        rest.len() == 0 || !spec_is_digit(rest[0]),
    ensures
        spec_scan_digits(d + rest) == d.len(),
    decreases d.len(),
{
    if d.len() == 0 {
        assert(d + rest =~= rest);
    } else {
        assert((d + rest)[0] == d[0]);
        assert((d + rest).skip(1) =~= d.skip(1) + rest);
        lemma_scan_digits_concat(d.skip(1), rest);
    }
}

proof fn lemma_parse_nat_encoding(v: nat, bound: nat, rest: Seq<char>)
    requires
        v <= bound,
        rest.len() == 0 || !spec_is_digit(rest[0]),
    ensures
        spec_parse_nat(crate::text::spec_digits_of(v) + rest, bound) == Some(
            (v, crate::text::spec_digits_of(v).len()),
        ),
{
    let d = crate::text::spec_digits_of(v);
    let s = d + rest;
    lemma_digits_of_wf(v);
    lemma_scan_digits_concat(d, rest);
    assert(s.take(d.len() as int) =~= d);
    assert(s[0] == d[0]);
}

proof fn lemma_parse_tenths_nat_encoding(v: int, rest: Seq<char>)
    requires
        0 <= v <= 2147483639,
        rest.len() == 0 || !spec_is_digit(rest[0]),
    ensures
        spec_parse_tenths_nat(spec_encode_tenths_nat(v) + rest) == Some(
            (v as nat, spec_encode_tenths_nat(v).len()),
        ),
{
    let w = (v / 10) as nat;
    let fr = (v % 10) as nat;
    let d = crate::text::spec_digits_of(w);
    let tail = seq!['.'] + seq![crate::text::spec_digit_char(fr)] + rest;
    let s = spec_encode_tenths_nat(v) + rest;
    assert(s =~= d + tail);
    assert(tail[0] == '.');
    assert(!spec_is_digit(tail[0]));
    lemma_parse_nat_encoding(w, spec_tenths_whole_bound(), tail);
    lemma_digit_char_val(fr);
    lemma_digits_of_wf(w);
    assert(s[d.len() as int] == tail[0]);
    assert(s[d.len() as int + 1] == tail[1]);
    assert(tail[1] == crate::text::spec_digit_char(fr));
    assert(s.skip(d.len() as int + 1) =~= seq![crate::text::spec_digit_char(fr)] + rest);
    lemma_scan_digits_concat(seq![crate::text::spec_digit_char(fr)], rest);
    assert(spec_scan_digits(s.skip(d.len() as int + 1)) == 1);
    assert(w * 10 + fr == v);
    assert(spec_encode_tenths_nat(v).len() == d.len() + 2);
}

proof fn lemma_parse_tenths_encoding(t: int, rest: Seq<char>)
    requires
        -2147483639 <= t <= 2147483639,
        rest.len() == 0 || !spec_is_digit(rest[0]),
    ensures
        spec_parse_tenths(spec_encode_tenths(t) + rest) == Some(
            (t, spec_encode_tenths(t).len()),
        ),
{
    if t >= 0 {
        lemma_parse_tenths_nat_encoding(t, rest);
        let s = spec_encode_tenths(t) + rest;
        assert(s =~= spec_encode_tenths_nat(t) + rest);
        lemma_digits_of_wf((t / 10) as nat);
        assert(s[0] == crate::text::spec_digits_of((t / 10) as nat)[0]);
        assert(spec_is_digit(s[0]));
        assert(s[0] != '-');
    } else {
        let s = spec_encode_tenths(t) + rest;
        assert(s =~= seq!['-'] + (spec_encode_tenths_nat(-t) + rest));
        assert(s[0] == '-');
        assert(s.skip(1) =~= spec_encode_tenths_nat(-t) + rest);
        lemma_parse_tenths_nat_encoding(-t, rest);
    }
}

proof fn lemma_parse_string_encoding(body: Seq<char>, rest: Seq<char>)
    requires
        spec_text_plain(body),
    ensures
        spec_parse_string(spec_encode_string(body) + rest) == Some(
            (body, (body.len() + 2) as nat),
        ),
{
    let s = spec_encode_string(body) + rest;
    let inner = body + seq!['"'] + rest;
    assert(s[0] == '"');
    assert(s.skip(1) =~= inner);
    assert(inner.skip(0) =~= inner);
    assert(inner[body.len() as int] == '"');
    lemma_scan_content_found(inner, 0, body.len() as int);
    assert(spec_scan_string_content(inner) == Some(body.len() as nat));
    assert(s.subrange(1, 1 + body.len() as int) =~= body);
}

proof fn lemma_parse_lit_encoding(lit: Seq<char>, rest: Seq<char>)
    ensures
        spec_parse_lit(lit + rest, lit) == Some(lit.len()),
{
    assert((lit + rest).take(lit.len() as int) =~= lit);
}

proof fn lemma_keyed_string_encoding(key: Seq<char>, body: Seq<char>, rest: Seq<char>)
    requires
        spec_text_plain(body),
    ensures
        spec_parse_keyed_string(key + spec_encode_string(body) + rest, key) == Some(
            (body, (key.len() + body.len() + 2) as nat),
        ),
{
    let s = key + spec_encode_string(body) + rest;
    assert(s =~= key + (spec_encode_string(body) + rest));
    lemma_parse_lit_encoding(key, spec_encode_string(body) + rest);
    assert(spec_parse_lit(s, key) == Some(key.len()));
    assert(s.skip(key.len() as int) =~= spec_encode_string(body) + rest);
    lemma_parse_string_encoding(body, rest);
}

proof fn lemma_keyed_tenths_encoding(key: Seq<char>, t: int, rest: Seq<char>)
    requires
        -2147483639 <= t <= 2147483639,
        rest.len() == 0 || !spec_is_digit(rest[0]),
    ensures
        spec_parse_keyed_tenths(key + spec_encode_tenths(t) + rest, key) == Some(
            (t, (key.len() + spec_encode_tenths(t).len()) as nat),
        ),
{
    let s = key + spec_encode_tenths(t) + rest;
    assert(s =~= key + (spec_encode_tenths(t) + rest));
    lemma_parse_lit_encoding(key, spec_encode_tenths(t) + rest);
    assert(spec_parse_lit(s, key) == Some(key.len()));
    assert(s.skip(key.len() as int) =~= spec_encode_tenths(t) + rest);
    lemma_parse_tenths_encoding(t, rest);
}

/// The consumed length of the first three fields of an encoded day.
spec fn spec_day_abc(d: DisplayDayView) -> nat {
    (("{\"date\":"@.len() + d.date.len() + 2) + (",\"max\":"@.len() + spec_encode_tenths(
        d.temperature_2m_max,
    ).len()) + (",\"min\":"@.len() + spec_encode_tenths(d.temperature_2m_min).len())) as nat
}

#[verifier::rlimit(100)]
#[verifier::spinoff_prover]
proof fn lemma_day_steps_a(d: DisplayDayView, rest: Seq<char>)
    requires
        spec_display_day_wf(d),
    ensures
        ({
            let s = spec_encode_day(d) + rest;
            let a = ("{\"date\":"@.len() + d.date.len() + 2) as nat;
            let b = (",\"max\":"@.len() + spec_encode_tenths(d.temperature_2m_max).len()) as nat;
            let c = (",\"min\":"@.len() + spec_encode_tenths(d.temperature_2m_min).len()) as nat;
            &&& spec_parse_keyed_string(s, "{\"date\":"@) == Some((d.date, a))
            &&& spec_parse_keyed_tenths(s.skip(a as int), ",\"max\":"@) == Some(
                (d.temperature_2m_max, b),
            )
            &&& spec_parse_keyed_tenths(s.skip((a + b) as int), ",\"min\":"@) == Some(
                (d.temperature_2m_min, c),
            )
        }),
{
    let k1 = "{\"date\":"@;
    let k2 = ",\"max\":"@;
    let k3 = ",\"min\":"@;
    let e1 = spec_encode_string(d.date);
    let e2 = spec_encode_tenths(d.temperature_2m_max);
    let e3 = spec_encode_tenths(d.temperature_2m_min);
    let k4 = ",\"sunrise\":"@;
    let k5 = ",\"sunset\":"@;
    let k6 = "}"@;
    let e4 = spec_encode_string(d.sunrise);
    let e5 = spec_encode_string(d.sunset);
    let s = spec_encode_day(d) + rest;
    let t1 = k2 + e2 + k3 + e3 + k4 + e4 + k5 + e5 + k6 + rest;
    let t2 = k3 + e3 + k4 + e4 + k5 + e5 + k6 + rest;
    let t3 = k4 + e4 + k5 + e5 + k6 + rest;
    assert(s =~= k1 + e1 + t1);
    lemma_keyed_string_encoding(k1, d.date, t1);
    let a = (k1.len() + d.date.len() + 2) as nat;
    reveal_strlit(",\"min\":");
    reveal_strlit(",\"sunrise\":");
    assert(s.skip(a as int) =~= k2 + e2 + t2);
    assert(t2[0] == k3[0]);
    assert(t2[0] == ',');
    assert(!spec_is_digit(t2[0]));
    lemma_keyed_tenths_encoding(k2, d.temperature_2m_max, t2);
    let b = (k2.len() + e2.len()) as nat;
    assert(s.skip((a + b) as int) =~= k3 + e3 + t3);
    assert(t3[0] == k4[0]);
    assert(t3[0] == ',');
    assert(!spec_is_digit(t3[0]));
    lemma_keyed_tenths_encoding(k3, d.temperature_2m_min, t3);
}

#[verifier::rlimit(100)]
#[verifier::spinoff_prover]
proof fn lemma_day_steps_b(d: DisplayDayView, rest: Seq<char>)
    requires
        spec_display_day_wf(d),
    ensures
        ({
            let s = spec_encode_day(d) + rest;
            let abc = spec_day_abc(d);
            let e = (",\"sunrise\":"@.len() + d.sunrise.len() + 2) as nat;
            let f = (",\"sunset\":"@.len() + d.sunset.len() + 2) as nat;
            &&& spec_parse_keyed_string(s.skip(abc as int), ",\"sunrise\":"@) == Some(
                (d.sunrise, e),
            )
            &&& spec_parse_keyed_string(s.skip((abc + e) as int), ",\"sunset\":"@) == Some(
                (d.sunset, f),
            )
            &&& spec_parse_lit(s.skip((abc + e + f) as int), "}"@) == Some("}"@.len())
            &&& spec_encode_day(d).len() == abc + e + f + "}"@.len()
        }),
{
    let k1 = "{\"date\":"@;
    let k2 = ",\"max\":"@;
    let k3 = ",\"min\":"@;
    let k4 = ",\"sunrise\":"@;
    let k5 = ",\"sunset\":"@;
    let k6 = "}"@;
    let e1 = spec_encode_string(d.date);
    let e2 = spec_encode_tenths(d.temperature_2m_max);
    let e3 = spec_encode_tenths(d.temperature_2m_min);
    let e4 = spec_encode_string(d.sunrise);
    let e5 = spec_encode_string(d.sunset);
    let s = spec_encode_day(d) + rest;
    let abc = spec_day_abc(d);
    let t4 = k5 + e5 + k6 + rest;
    let t5 = k6 + rest;
    assert(s.skip(abc as int) =~= k4 + e4 + t4);
    lemma_keyed_string_encoding(k4, d.sunrise, t4);
    let e = (k4.len() + d.sunrise.len() + 2) as nat;
    assert(s.skip((abc + e) as int) =~= k5 + e5 + t5);
    lemma_keyed_string_encoding(k5, d.sunset, t5);
    let f = (k5.len() + d.sunset.len() + 2) as nat;
    assert(s.skip((abc + e + f) as int) =~= k6 + rest);
    lemma_parse_lit_encoding(k6, rest);
}

#[verifier::rlimit(100)]
#[verifier::spinoff_prover]
proof fn lemma_parse_day_encoding(d: DisplayDayView, rest: Seq<char>)
    requires
        spec_display_day_wf(d),
    ensures
        spec_parse_display_day(spec_encode_day(d) + rest) == Some(
            (d, spec_encode_day(d).len()),
        ),
{
    lemma_day_steps_a(d, rest);
    lemma_day_steps_b(d, rest);
}

proof fn lemma_seq_assoc(a: Seq<char>, b: Seq<char>, c: Seq<char>)
    ensures
        (a + b) + c == a + (b + c),
{
    assert((a + b) + c =~= a + (b + c));
}

proof fn lemma_seq_split_skip(a: Seq<char>, b: Seq<char>)
    ensures
        (a + b).skip(a.len() as int) == b,
        forall|j: int| 0 <= j < b.len() ==> (a + b)[a.len() + j] == b[j],
{
    assert((a + b).skip(a.len() as int) =~= b);
}

#[verifier::rlimit(100)]
#[verifier::spinoff_prover]
proof fn lemma_parse_days_encoding(ds: Seq<DisplayDayView>, rest: Seq<char>)
    requires
        ds.len() >= 1,
        forall|i: int| 0 <= i < ds.len() ==> spec_display_day_wf(#[trigger] ds[i]),
    ensures
        spec_parse_display_days(spec_encode_days(ds) + rest, ds.len()) == Some(
            (ds, spec_encode_days(ds).len()),
        ),
    decreases ds.len(),
{
    let s = spec_encode_days(ds) + rest;
    if ds.len() == 1 {
        assert(spec_encode_days(ds) == spec_encode_day(ds[0]));
        lemma_parse_day_encoding(ds[0], rest);
        assert(seq![ds[0]] =~= ds);
    } else {
        let first = spec_encode_day(ds[0]);
        let comma = seq![','];
        let others = spec_encode_days(ds.drop_first());
        assert(spec_encode_days(ds) == first + comma + others);
        lemma_seq_assoc(first + comma, others, rest);
        assert(s == (first + comma) + (others + rest));
        lemma_seq_assoc(first, comma, others + rest);
        assert(s == first + (comma + (others + rest)));
        lemma_parse_day_encoding(ds[0], comma + (others + rest));
        let c = first.len();
        lemma_seq_split_skip(first + comma, others + rest);
        assert(s[c as int] == (first + comma)[c as int]);
        assert((first + comma)[c as int] == ',');
        assert((first + comma).len() == c + 1);
        assert(s.skip(c as int + 1) == others + rest);
        assert(forall|i: int|
            0 <= i < ds.drop_first().len() ==> spec_display_day_wf(
                #[trigger] ds.drop_first()[i],
            ));
        lemma_parse_days_encoding(ds.drop_first(), rest);
        assert(seq![ds[0]] + ds.drop_first() =~= ds);
    }
}

/// Decoding a re-encoded display subset gives back exactly the days that
/// were encoded: the date, sunrise and sunset texts and both temperatures
/// survive the round trip unchanged.  The days must be displayable at all:
/// their texts carry no quote character and their temperatures stay within
/// the layout's range, which is true of every day a decoded forecast
/// yields.
pub proof fn lemma_display_subset_round_trip(ds: Seq<DisplayDayView>)
    requires
        ds.len() == 5,
        forall|i: int| 0 <= i < ds.len() ==> spec_display_day_wf(#[trigger] ds[i]),
    ensures
        spec_parse_display_subset(spec_encode_display_subset(ds)) == Some(ds),
{
    let s = spec_encode_display_subset(ds);
    let inner = spec_encode_days(ds);
    assert(s[0] == '[');
    assert(s.skip(1) =~= inner + seq![']']);
    lemma_parse_days_encoding(ds, seq![']']);
    assert(spec_parse_display_days(s.skip(1), 5) == Some((ds, inner.len())));
    assert(s[1 + inner.len() as int] == ']');
    assert(s.len() == inner.len() + 2);
}

// ---- Decoded forecasts feed the round trip -------------------------------

proof fn lemma_scan_content_chars(s: Seq<char>)
    ensures
        spec_scan_string_content(s) matches Some(k) ==> {
            &&& k < s.len()
            &&& forall|j: int| 0 <= j < k ==> s[j] != '"'
        },
    decreases s.len(),
{
    if s.len() > 0 && s[0] != '"' {
        lemma_scan_content_chars(s.skip(1));
        match spec_scan_string_content(s.skip(1)) {
            Some(k0) => {
                assert forall|j: int| 0 <= j < k0 + 1 implies s[j] != '"' by {
                    if j > 0 {
                        assert(s.skip(1)[j - 1] != '"');
                    }
                }
            },
            None => {},
        }
    }
}

proof fn lemma_parse_string_plain(s: Seq<char>)
    ensures
        spec_parse_string(s) matches Some(p) ==> spec_text_plain(p.0),
{
    if s.len() > 0 && s[0] == '"' {
        lemma_scan_content_chars(s.skip(1));
        match spec_scan_string_content(s.skip(1)) {
            Some(k) => {
                let body = s.subrange(1, 1 + k as int);
                assert forall|j: int| 0 <= j < body.len() implies body[j] != '"' by {
                    assert(body[j] == s.skip(1)[j]);
                }
            },
            None => {},
        }
    }
}

proof fn lemma_parse_keyed_string_plain(s: Seq<char>, key: Seq<char>)
    ensures
        spec_parse_keyed_string(s, key) matches Some(p) ==> spec_text_plain(p.0),
{
    match spec_parse_lit(s, key) {
        Some(c) => {
            lemma_parse_string_plain(s.skip(c as int));
        },
        None => {},
    }
}

proof fn lemma_parse_tenths_range(s: Seq<char>)
    ensures
        spec_parse_tenths(s) matches Some(p) ==> -2147483639 <= p.0 <= 2147483639,
{
}

proof fn lemma_string_items_plain(s: Seq<char>, n: nat)
    ensures
        spec_parse_string_items(s, n) matches Some(p) ==> p.0.len() == n && (forall|i: int|
            0 <= i < p.0.len() ==> spec_text_plain(#[trigger] p.0[i])),
    decreases n,
{
    if n >= 1 {
        lemma_parse_string_plain(s);
        match spec_parse_string(s) {
            Some((v, c)) => {
                if n > 1 && c < s.len() && s[c as int] == ',' {
                    lemma_string_items_plain(s.skip(c as int + 1), (n - 1) as nat);
                    match spec_parse_string_items(s.skip(c as int + 1), (n - 1) as nat) {
                        Some((vs, _)) => {
                            assert forall|i: int|
                                0 <= i < (seq![v] + vs).len() implies spec_text_plain(
                                #[trigger] (seq![v] + vs)[i],
                            ) by {
                                if i > 0 {
                                    assert((seq![v] + vs)[i] == vs[i - 1]);
                                    assert(spec_text_plain(vs[i - 1]));
                                }
                            }
                        },
                        None => {},
                    }
                }
            },
            None => {},
        }
    }
}

proof fn lemma_tenths_items_range(s: Seq<char>, n: nat)
    ensures
        spec_parse_tenths_items(s, n) matches Some(p) ==> p.0.len() == n && (forall|i: int|
            0 <= i < p.0.len() ==> -2147483639 <= #[trigger] p.0[i] <= 2147483639),
    decreases n,
{
    if n >= 1 {
        lemma_parse_tenths_range(s);
        match spec_parse_tenths(s) {
            Some((v, c)) => {
                if n > 1 && c < s.len() && s[c as int] == ',' {
                    lemma_tenths_items_range(s.skip(c as int + 1), (n - 1) as nat);
                    match spec_parse_tenths_items(s.skip(c as int + 1), (n - 1) as nat) {
                        Some((vs, _)) => {
                            assert forall|i: int|
                                0 <= i < (seq![v] + vs).len() implies -2147483639 <= #[trigger] (
                                seq![v] + vs)[i] <= 2147483639 by {
                                if i > 0 {
                                    assert((seq![v] + vs)[i] == vs[i - 1]);
                                }
                            }
                        },
                        None => {},
                    }
                }
            },
            None => {},
        }
    }
}

proof fn lemma_member_string_array_plain(s: Seq<char>, key: Seq<char>, n: nat)
    ensures
        spec_member_string_array(s, key, n) matches Some(v) ==> v.len() == n && (forall|i: int|
            0 <= i < v.len() ==> spec_text_plain(#[trigger] v[i])),
{
    match spec_object_member(s, key) {
        Some(off) => {
            let t = s.skip(off as int);
            if t.len() > 0 && t[0] == '[' {
                lemma_string_items_plain(t.skip(1), n);
            }
        },
        None => {},
    }
}

proof fn lemma_member_tenths_array_range(s: Seq<char>, key: Seq<char>, n: nat)
    ensures
        spec_member_tenths_array(s, key, n) matches Some(v) ==> v.len() == n && (forall|i: int|
            0 <= i < v.len() ==> -2147483639 <= #[trigger] v[i] <= 2147483639),
{
    match spec_object_member(s, key) {
        Some(off) => {
            let t = s.skip(off as int);
            if t.len() > 0 && t[0] == '[' {
                lemma_tenths_items_range(t.skip(1), n);
            }
        },
        None => {},
    }
}

/// The subset day a daily record shows for day `i`.
pub open spec fn spec_subset_day_of(daily: DailyView, i: int) -> DisplayDayView {
    DisplayDayView {
        date: daily.time[i],
        temperature_2m_max: daily.temperature_2m_max[i],
        temperature_2m_min: daily.temperature_2m_min[i],
        sunrise: daily.sunrise[i],
        sunset: daily.sunset[i],
    }
}

/// Whether every displayed day of a daily record is fit for the round
/// trip: texts without quotes, temperatures within the layout's range.
pub open spec fn spec_daily_subset_wf(daily: DailyView) -> bool {
    forall|i: int|
        0 <= i < daily.time.len() ==> spec_display_day_wf(#[trigger] spec_subset_day_of(daily, i))
}

proof fn lemma_parse_daily_subset_wf(s: Seq<char>, n: nat)
    ensures
        spec_parse_daily(s, n) matches Some(p) ==> spec_daily_subset_wf(p.0),
{
    match spec_parse_daily(s, n) {
        Some((daily, _)) => {
            lemma_member_string_array_plain(s, "time"@, n);
            lemma_member_string_array_plain(s, "sunrise"@, n);
            lemma_member_string_array_plain(s, "sunset"@, n);
            lemma_member_tenths_array_range(s, "temperature_2m_max"@, n);
            lemma_member_tenths_array_range(s, "temperature_2m_min"@, n);
            assert forall|i: int|
                0 <= i < daily.time.len() implies spec_display_day_wf(
                #[trigger] spec_subset_day_of(daily, i),
            ) by {
                assert(spec_text_plain(daily.time[i]));
                assert(spec_text_plain(daily.sunrise[i]));
                assert(spec_text_plain(daily.sunset[i]));
                assert(-2147483639 <= daily.temperature_2m_max[i] <= 2147483639);
                assert(-2147483639 <= daily.temperature_2m_min[i] <= 2147483639);
            }
        },
        None => {},
    }
}

proof fn lemma_parse_forecast_n_subset_wf(s: Seq<char>, n: nat)
    ensures
        spec_parse_forecast_n(s, n) matches Some(p) ==> spec_daily_subset_wf(p.0.daily),
{
    match spec_object_member(s, "daily"@) {
        Some(off) => {
            lemma_parse_daily_subset_wf(s.skip(off as int), n);
        },
        None => {},
    }
}

proof fn lemma_forecast_match_subset_wf(s: Seq<char>, n: nat)
    ensures
        spec_forecast_match_from(s, n) matches Some(p) ==> spec_daily_subset_wf(p.1.daily),
    decreases 9 - n,
{
    if n <= 8 {
        lemma_parse_forecast_n_subset_wf(s, n);
        lemma_forecast_match_subset_wf(s, (n + 1) as nat);
    }
}

/// Every day a decoded forecast shows is fit for the display-subset round
/// trip: its date, sunrise and sunset texts carry no quote, and its two
/// temperatures stay within the layout's tenths range.  Together with the
/// round-trip law this pins down that decoding, selecting the display
/// subset, re-encoding and decoding again loses nothing.
pub proof fn lemma_decoded_forecast_subset_wf(s: Seq<char>)
    ensures
        spec_parse_forecast(s) matches Some(p) ==> spec_daily_subset_wf(p.1.daily),
{
    lemma_forecast_match_subset_wf(s, 1);
}

} // verus!
