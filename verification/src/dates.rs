//! Pure date arithmetic on proleptic Gregorian calendar dates: day
//! numbering, weekday computation, resolution of the Monday of a week,
//! and parsing and formatting of `YYYY-MM-DD` strings.
//!
//! The model covers years 0 through 9999; a computation that would leave
//! that range is reported as a failure, never a panic.

use vstd::prelude::*;
use vstd::string::StrSliceExecFns;
use vstd::arithmetic::div_mod::{lemma_fundamental_div_mod, lemma_mod_multiples_basic};
use crate::errors::ExpendError;
use crate::strings::push_char;
use chrono::Datelike;

verus! {

/// A calendar date, held as plain year, month and day numbers.
#[derive(Clone, Copy, PartialEq, Eq, Structural, Debug)]
pub struct CalendarDate {
    pub year: u32,
    pub month: u32,
    pub day: u32,
}

/// The Gregorian leap-year rule.
pub open spec fn is_leap_year(y: int) -> bool {
    y % 4 == 0 && (y % 100 != 0 || y % 400 == 0)
}

/// The number of days of a year.
pub open spec fn days_in_year(y: int) -> int {
    if is_leap_year(y) {
        366
    } else {
        365
    }
}

/// The number of days of month `m` (1 through 12) of year `y`.
pub open spec fn days_in_month(y: int, m: int) -> int {
    if m == 2 {
        if is_leap_year(y) {
            29
        } else {
            28
        }
    } else if m == 4 || m == 6 || m == 9 || m == 11 {
        30
    } else {
        31
    }
}

/// A date the model covers: year 0 through 9999, month and day within
/// their calendar ranges.
pub open spec fn is_valid_date(d: CalendarDate) -> bool {
    &&& d.year <= 9999
    &&& 1 <= d.month <= 12
    &&& 1 <= d.day <= days_in_month(d.year as int, d.month as int)
}

/// The number of days of all years before `y`, counted from year 0.
pub open spec fn days_before_year(y: int) -> int
    decreases y,
{
    if y <= 0 {
        0
    } else {
        days_before_year(y - 1) + days_in_year(y - 1)
    }
}

/// The number of days of all months of year `y` before month `m`.
pub open spec fn days_before_month(y: int, m: int) -> int
    decreases m,
{
    if m <= 1 {
        0
    } else {
        days_before_month(y, m - 1) + days_in_month(y, m - 1)
    }
}

/// The zero-based index of a date, counted from the first day of year 0.
pub open spec fn spec_day_number(d: CalendarDate) -> int {
    days_before_year(d.year as int) + days_before_month(d.year as int, d.month as int) + d.day - 1
}

/// The weekday of a date, as days since Monday: Monday is 0, Sunday 6.
/// Day 0 of the model (the first day of year 0) is a Saturday.
pub open spec fn spec_weekday_from_monday(d: CalendarDate) -> int {
    (spec_day_number(d) + 5) % 7
}

/// Executable twin of `days_in_month`.
pub fn days_in_month_exec(y: u32, m: u32) -> (r: u32)
    ensures
        r == days_in_month(y as int, m as int),
{
    if m == 2 {
        if (y % 4 == 0 && (y % 100 != 0 || y % 400 == 0)) {
            29
        } else {
            28
        }
    } else if m == 4 || m == 6 || m == 9 || m == 11 {
        30
    } else {
        31
    }
}

/// Executable twin of `spec_day_number`.
pub fn day_number(d: &CalendarDate) -> (n: u32)
    requires
        is_valid_date(*d),
    ensures
        n == spec_day_number(*d),
        n <= 3_700_000,
{
    let mut acc: u32 = 0;
    let mut i: u32 = 0;
    while i < d.year
        invariant
            i <= d.year,
            d.year <= 9999,
            acc == days_before_year(i as int),
            acc <= 366 * i,
        decreases d.year - i,
    {
        if i % 4 == 0 && (i % 100 != 0 || i % 400 == 0) {
            acc = acc + 366;
        } else {
            acc = acc + 365;
        }
        i = i + 1;
    }
    let mut m: u32 = 1;
    while m < d.month
        invariant
            1 <= m <= d.month,
            d.month <= 12,
            acc == days_before_year(d.year as int) + days_before_month(d.year as int, m as int),
            acc <= 366 * 9999 + 31 * m,
        decreases d.month - m,
    {
        acc = acc + days_in_month_exec(d.year, m);
        m = m + 1;
    }
    acc + d.day - 1
}

/// Executable twin of `spec_weekday_from_monday`.
pub fn weekday_from_monday(d: &CalendarDate) -> (w: u32)
    requires
        is_valid_date(*d),
    ensures
        w == spec_weekday_from_monday(*d),
        w < 7,
{
    (day_number(d) + 5) % 7
}

/// No year contributes a negative day count.
proof fn lemma_days_before_year_nonneg(y: int)
    ensures
        days_before_year(y) >= 0,
    decreases y,
{
    if y > 0 {
        lemma_days_before_year_nonneg(y - 1);
    }
}

/// No month contributes a negative day count.
proof fn lemma_days_before_month_nonneg(y: int, m: int)
    ensures
        days_before_month(y, m) >= 0,
    decreases m,
{
    if m > 1 {
        lemma_days_before_month_nonneg(y, m - 1);
    }
}

/// A valid date's day number is not negative.
proof fn lemma_day_number_nonneg(d: CalendarDate)
    requires
        is_valid_date(d),
    ensures
        spec_day_number(d) >= 0,
{
    lemma_days_before_year_nonneg(d.year as int);
    lemma_days_before_month_nonneg(d.year as int, d.month as int);
}

/// The months of a year sum up to its length.
proof fn lemma_months_sum_to_year(y: int)
    ensures
        days_before_month(y, 12) + days_in_month(y, 12) == days_in_year(y),
{
    assert(days_before_month(y, 2) == days_before_month(y, 1) + days_in_month(y, 1));
    assert(days_before_month(y, 3) == days_before_month(y, 2) + days_in_month(y, 2));
    assert(days_before_month(y, 4) == days_before_month(y, 3) + days_in_month(y, 3));
    assert(days_before_month(y, 5) == days_before_month(y, 4) + days_in_month(y, 4));
    assert(days_before_month(y, 6) == days_before_month(y, 5) + days_in_month(y, 5));
    assert(days_before_month(y, 7) == days_before_month(y, 6) + days_in_month(y, 6));
    assert(days_before_month(y, 8) == days_before_month(y, 7) + days_in_month(y, 7));
    assert(days_before_month(y, 9) == days_before_month(y, 8) + days_in_month(y, 8));
    assert(days_before_month(y, 10) == days_before_month(y, 9) + days_in_month(y, 9));
    assert(days_before_month(y, 11) == days_before_month(y, 10) + days_in_month(y, 10));
    assert(days_before_month(y, 12) == days_before_month(y, 11) + days_in_month(y, 11));
}

/// The calendar day before the given one, or nothing at the lower edge
/// of the model.
pub fn previous_day(d: &CalendarDate) -> (r: Option<CalendarDate>)
    requires
        is_valid_date(*d),
    ensures
        match r {
            Some(p) => is_valid_date(p) && spec_day_number(p) == spec_day_number(*d) - 1,
            None => spec_day_number(*d) == 0,
        },
{
    if d.day > 1 {
        Some(CalendarDate { year: d.year, month: d.month, day: d.day - 1 })
    } else if d.month > 1 {
        let pm: u32 = d.month - 1;
        let r = CalendarDate { year: d.year, month: pm, day: days_in_month_exec(d.year, pm) };
        assert(days_before_month(d.year as int, d.month as int) == days_before_month(
            d.year as int,
            pm as int,
        ) + days_in_month(d.year as int, pm as int));
        Some(r)
    } else if d.year > 0 {
        let py: u32 = d.year - 1;
        let r = CalendarDate { year: py, month: 12, day: 31 };
        proof {
            lemma_months_sum_to_year(py as int);
            assert(days_before_year(d.year as int) == days_before_year(py as int) + days_in_year(
                py as int,
            ));
        }
        Some(r)
    } else {
        None
    }
}

/// The Monday of the week of the given date: the date itself for a
/// Monday, else the date moved back to the preceding Monday. Fails only
/// when that Monday would lie before the model's first day.
pub fn monday_of(d: &CalendarDate) -> (r: Result<CalendarDate, ExpendError>)
    requires
        is_valid_date(*d),
    ensures
        spec_day_number(*d) >= spec_weekday_from_monday(*d) ==> (r matches Ok(m)
            && is_valid_date(m) && spec_day_number(m) == spec_day_number(*d)
            - spec_weekday_from_monday(*d)),
        spec_day_number(*d) < spec_weekday_from_monday(*d) ==> r is Err,
        r matches Ok(m) ==> spec_weekday_from_monday(m) == 0,
        spec_weekday_from_monday(*d) == 0 ==> (r matches Ok(m) && m == *d),
        r matches Err(e) ==> e matches ExpendError::DateParse { .. },
{
    let w: u32 = weekday_from_monday(d);
    proof {
        lemma_day_number_nonneg(*d);
    }
    if w == 0 {
        return Ok(*d);
    }
    let mut cur: CalendarDate = *d;
    let mut k: u32 = 0;
    while k < w
        invariant
            k <= w,
            is_valid_date(*d),
            w == spec_weekday_from_monday(*d),
            is_valid_date(cur),
            spec_day_number(cur) == spec_day_number(*d) - k,
        decreases w - k,
    {
        match previous_day(&cur) {
            Some(p) => {
                cur = p;
            },
            None => {
                return Err(
                    ExpendError::DateParse { input: date_to_string(d) },
                );
            },
        }
        k = k + 1;
    }
    proof {
        let n = spec_day_number(*d);
        lemma_day_number_nonneg(cur);
        lemma_fundamental_div_mod(n + 5, 7);
        lemma_mod_multiples_basic((n + 5) / 7, 7);
        assert(spec_weekday_from_monday(cur) == 0);
    }
    Ok(cur)
}

/// The character of a decimal digit.
pub open spec fn digit_char(x: int) -> char {
    if x == 0 {
        '0'
    } else if x == 1 {
        '1'
    } else if x == 2 {
        '2'
    } else if x == 3 {
        '3'
    } else if x == 4 {
        '4'
    } else if x == 5 {
        '5'
    } else if x == 6 {
        '6'
    } else if x == 7 {
        '7'
    } else if x == 8 {
        '8'
    } else {
        '9'
    }
}

/// Whether a character is a decimal digit.
pub open spec fn is_digit(c: char) -> bool {
    c == '0' || c == '1' || c == '2' || c == '3' || c == '4' || c == '5' || c == '6' || c == '7'
        || c == '8' || c == '9'
}

/// The value of a decimal digit character.
pub open spec fn digit_value(c: char) -> int {
    if c == '0' {
        0
    } else if c == '1' {
        1
    } else if c == '2' {
        2
    } else if c == '3' {
        3
    } else if c == '4' {
        4
    } else if c == '5' {
        5
    } else if c == '6' {
        6
    } else if c == '7' {
        7
    } else if c == '8' {
        8
    } else {
        9
    }
}

/// Executable twin of `digit_char` for digits 0 through 9.
fn digit_char_exec(x: u32) -> (c: char)
    requires
        x <= 9,
    ensures
        c == digit_char(x as int),
{
    if x == 0 {
        '0'
    } else if x == 1 {
        '1'
    } else if x == 2 {
        '2'
    } else if x == 3 {
        '3'
    } else if x == 4 {
        '4'
    } else if x == 5 {
        '5'
    } else if x == 6 {
        '6'
    } else if x == 7 {
        '7'
    } else if x == 8 {
        '8'
    } else {
        '9'
    }
}

/// The `YYYY-MM-DD` rendering of a date.
pub open spec fn spec_date_string(d: CalendarDate) -> Seq<char> {
    seq![
        digit_char(d.year as int / 1000 % 10),
        digit_char(d.year as int / 100 % 10),
        digit_char(d.year as int / 10 % 10),
        digit_char(d.year as int % 10),
        '-',
        digit_char(d.month as int / 10 % 10),
        digit_char(d.month as int % 10),
        '-',
        digit_char(d.day as int / 10 % 10),
        digit_char(d.day as int % 10),
    ]
}

/// Renders a date as `YYYY-MM-DD`.
pub fn date_to_string(d: &CalendarDate) -> (r: String)
    requires
        is_valid_date(*d),
    ensures
        r@ == spec_date_string(*d),
{
    let mut out = String::new();
    push_char(&mut out, digit_char_exec(d.year / 1000 % 10));
    push_char(&mut out, digit_char_exec(d.year / 100 % 10));
    push_char(&mut out, digit_char_exec(d.year / 10 % 10));
    push_char(&mut out, digit_char_exec(d.year % 10));
    push_char(&mut out, '-');
    push_char(&mut out, digit_char_exec(d.month / 10 % 10));
    push_char(&mut out, digit_char_exec(d.month % 10));
    push_char(&mut out, '-');
    push_char(&mut out, digit_char_exec(d.day / 10 % 10));
    push_char(&mut out, digit_char_exec(d.day % 10));
    proof {
        assert(out@ =~= spec_date_string(*d));
    }
    out
}

/// What `from_date_string` accepts: exactly `YYYY-MM-DD`, digits in the
/// four date positions, dashes between, naming a valid calendar date.
pub open spec fn spec_parse_date(s: Seq<char>) -> Option<CalendarDate> {
    if s.len() == 10 && is_digit(s[0]) && is_digit(s[1]) && is_digit(s[2]) && is_digit(s[3])
        && s[4] == '-' && is_digit(s[5]) && is_digit(s[6]) && s[7] == '-' && is_digit(s[8])
        && is_digit(s[9]) {
        let y = digit_value(s[0]) * 1000 + digit_value(s[1]) * 100 + digit_value(s[2]) * 10
            + digit_value(s[3]);
        let m = digit_value(s[5]) * 10 + digit_value(s[6]);
        let day = digit_value(s[8]) * 10 + digit_value(s[9]);
        if 1 <= m <= 12 && 1 <= day <= days_in_month(y, m) {
            Some(CalendarDate { year: y as u32, month: m as u32, day: day as u32 })
        } else {
            None
        }
    } else {
        None
    }
}

/// Executable twin of `digit_value`, with a digit test.
fn read_digit(c: char) -> (r: Option<u32>)
    ensures
        match r {
            Some(v) => is_digit(c) && v == digit_value(c) && v <= 9,
            None => !is_digit(c),
        },
{
    if c == '0' {
        Some(0)
    } else if c == '1' {
        Some(1)
    } else if c == '2' {
        Some(2)
    } else if c == '3' {
        Some(3)
    } else if c == '4' {
        Some(4)
    } else if c == '5' {
        Some(5)
    } else if c == '6' {
        Some(6)
    } else if c == '7' {
        Some(7)
    } else if c == '8' {
        Some(8)
    } else if c == '9' {
        Some(9)
    } else {
        None
    }
}

/// Parses a `YYYY-MM-DD` date string; any other shape, and any string
/// not naming a valid calendar date, is rejected with an error that
/// carries the input.
pub fn from_date_string(s: &str) -> (r: Result<CalendarDate, ExpendError>)
    ensures
        match spec_parse_date(s@) {
            Some(d) => r matches Ok(x) && x == d,
            None => r matches Err(e) && (e matches ExpendError::DateParse { input } && input@
                == s@),
        },
{
    let len: usize = s.unicode_len();
    if len != 10 {
        return Err(ExpendError::DateParse { input: s.to_owned() });
    }
    let d0 = read_digit(s.get_char(0));
    let d1 = read_digit(s.get_char(1));
    let d2 = read_digit(s.get_char(2));
    let d3 = read_digit(s.get_char(3));
    let dash1 = s.get_char(4);
    let d5 = read_digit(s.get_char(5));
    let d6 = read_digit(s.get_char(6));
    let dash2 = s.get_char(7);
    let d8 = read_digit(s.get_char(8));
    let d9 = read_digit(s.get_char(9));
    match (d0, d1, d2, d3, d5, d6, d8, d9) {
        (
            Some(y3),
            Some(y2),
            Some(y1),
            Some(y0),
            Some(m1),
            Some(m0),
            Some(a1),
            Some(a0),
        ) => {
            if dash1 != '-' || dash2 != '-' {
                return Err(ExpendError::DateParse { input: s.to_owned() });
            }
            let y: u32 = y3 * 1000 + y2 * 100 + y1 * 10 + y0;
            let m: u32 = m1 * 10 + m0;
            let day: u32 = a1 * 10 + a0;
            if 1 <= m && m <= 12 && 1 <= day && day <= days_in_month_exec(y, m) {
                Ok(CalendarDate { year: y, month: m, day: day })
            } else {
                Err(ExpendError::DateParse { input: s.to_owned() })
            }
        },
        _ => Err(ExpendError::DateParse { input: s.to_owned() }),
    }
}

/// Relies on chrono's `Utc::now`, `DateTime::date_naive` and the
/// `Datelike` accessors: the triple is the current UTC calendar date,
/// a valid proleptic Gregorian year, month and day.
#[verifier::external_body]
fn today_utc() -> (r: (i32, u32, u32))
    ensures
        1 <= r.1 <= 12,
        1 <= r.2 as int <= days_in_month(r.0 as int, r.1 as int),
{
    let now = chrono::Utc::now().date_naive();
    (now.year(), now.month(), now.day())
}

/// The current UTC calendar date, brought into the model; fails only if
/// the clock reports a year outside 0 through 9999.
pub fn today_in_model() -> (r: Result<CalendarDate, ExpendError>)
    ensures
        r matches Ok(d) ==> is_valid_date(d),
{
    let (y, m, day) = today_utc();
    if y < 0 || y > 9999 {
        return Err(
            ExpendError::DateParse { input: "today".to_owned() },
        );
    }
    let d = CalendarDate { year: y as u32, month: m, day: day };
    Ok(d)
}

} // verus!
