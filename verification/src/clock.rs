use vstd::prelude::*;
use crate::decimal::natural_digits;

verus! {

/// A local date and time of day, as the clock reads it.
#[derive(Clone, Copy, Debug)]
pub struct ClockReading {
    pub year: i32,
    pub month: u32,
    pub day: u32,
    pub hour: u32,
    pub minute: u32,
    pub second: u32,
}

/// The digits of `n`, with zeros in front up to `width` characters.
pub open spec fn zero_padded(n: nat, width: nat) -> Seq<char> {
    let digits = natural_digits(n);
    if digits.len() < width {
        Seq::new((width - digits.len()) as nat, |i: int| '0') + digits
    } else {
        digits
    }
}

/// How the clock writes a year: four digits at least; years before 0 or
/// after 9999 carry a sign.
pub open spec fn year_text(year: int) -> Seq<char> {
    if year < 0 {
        seq!['-'] + zero_padded((-year) as nat, 4)
    } else if year > 9999 {
        seq!['+'] + natural_digits(year as nat)
    } else {
        zero_padded(year as nat, 4)
    }
}

/// The clock label of a reading: `HH:MM:SS YYYY/MM/DD`.
pub open spec fn clock_text(r: ClockReading) -> Seq<char> {
    zero_padded(r.hour as nat, 2) + seq![':'] + zero_padded(r.minute as nat, 2) + seq![':']
        + zero_padded(r.second as nat, 2) + seq![' '] + year_text(r.year as int) + seq!['/']
        + zero_padded(r.month as nat, 2) + seq!['/'] + zero_padded(r.day as nat, 2)
}

/// Leap years of the proleptic Gregorian calendar.
pub open spec fn is_leap_year(year: int) -> bool {
    year % 4 == 0 && (year % 100 != 0 || year % 400 == 0)
}

/// The number of days of a month (1 to 12) of a year.
pub open spec fn days_in_month(year: int, month: int) -> int {
    if month == 2 {
        if is_leap_year(year) { 29 } else { 28 }
    } else if month == 4 || month == 6 || month == 9 || month == 11 {
        30
    } else {
        31
    }
}

/// The reading is a calendar date of the supported years with a time of
/// day without leap second.
pub open spec fn valid_reading(r: ClockReading) -> bool {
    &&& -262143 <= r.year <= 262142
    &&& 1 <= r.month <= 12
    &&& 1 <= r.day <= days_in_month(r.year as int, r.month as int)
    &&& r.hour < 24
    &&& r.minute < 60
    &&& r.second < 60
}

/// Formats a date and time with chrono: `NaiveDate::from_ymd_opt`, then
/// `NaiveDate::and_hms_opt`, then `format("%H:%M:%S %Y/%m/%d")`. The
/// contract claims what chrono documents: the date and time exist exactly
/// for a valid reading, and each field is written zero-padded to two digits,
/// the year to four with a sign outside 0 to 9999.
#[verifier::external_body]
fn chrono_format_reading(reading: ClockReading) -> (text: Option<String>)
    ensures
        text is Some <==> valid_reading(reading),
        text matches Some(t) ==> t@ == clock_text(reading),
{
    let date = chrono::NaiveDate::from_ymd_opt(reading.year, reading.month, reading.day)?;
    let time = date.and_hms_opt(reading.hour, reading.minute, reading.second)?;
    Some(time.format("%H:%M:%S %Y/%m/%d").to_string())
}

/// The text the clock shows for a reading, or `None` when the reading is
/// no date and time.
pub fn clock_label(reading: &ClockReading) -> (label: Option<String>)
    ensures
        label is Some <==> valid_reading(*reading),
        label matches Some(t) ==> t@ == clock_text(*reading),
{
    chrono_format_reading(*reading)
}

proof fn lemma_digits_fit(n: nat, width: nat, bound: nat)
    requires
        width >= 1,
        bound == pow10(width),
        n < bound,
    ensures
        1 <= natural_digits(n).len() <= width,
    decreases width,
{
    if n >= 10 {
        assert(width >= 2) by {
            if width == 1 {
                assert(pow10(1) == 10 * pow10(0));
            }
        }
        assert(pow10(width) == 10 * pow10((width - 1) as nat));
        lemma_digits_fit(n / 10, (width - 1) as nat, pow10((width - 1) as nat));
    }
}

/// Ten to the power `k`.
pub open spec fn pow10(k: nat) -> nat
    decreases k,
{
    if k == 0 { 1 } else { 10 * pow10((k - 1) as nat) }
}

proof fn lemma_padded_width(n: nat, width: nat)
    requires
        width >= 1,
        n < pow10(width),
    ensures
        zero_padded(n, width).len() == width,
{
    lemma_digits_fit(n, width, pow10(width));
}

/// For the years 0 to 9999 the clock label always has the same width,
/// 19 characters, so the bar does not shift as time passes.
pub proof fn lemma_clock_text_width(r: ClockReading)
    requires
        valid_reading(r),
        0 <= r.year <= 9999,
    ensures
        clock_text(r).len() == 19,
{
    reveal_with_fuel(pow10, 5);
    lemma_padded_width(r.hour as nat, 2);
    lemma_padded_width(r.minute as nat, 2);
    lemma_padded_width(r.second as nat, 2);
    lemma_padded_width(r.month as nat, 2);
    lemma_padded_width(r.day as nat, 2);
    lemma_padded_width(r.year as nat, 4);
}

} // verus!
