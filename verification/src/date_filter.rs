//! Date filters: a year and a month, written `YYYY-MM`.

use vstd::prelude::*;
use crate::error::ParseError;
use crate::text::{chars_of, decimal_digit, digit_value, is_digit};

verus! {

/// A month of the year. [`Month::number`] gives its number, 1 for January
/// to 12 for December; a cast of a `Month` to an integer does not: it gives
/// the variant's place, which starts at 0.
#[derive(Debug, Clone, Copy, PartialEq, Eq, Structural)]
pub enum Month {
    January,
    February,
    March,
    April,
    May,
    June,
    July,
    August,
    September,
    October,
    November,
    December,
}

impl Month {
    /// The month's number, 1 for January to 12 for December.
    pub open spec fn ordinal(self) -> int {
        match self {
            Month::January => 1,
            Month::February => 2,
            Month::March => 3,
            Month::April => 4,
            Month::May => 5,
            Month::June => 6,
            Month::July => 7,
            Month::August => 8,
            Month::September => 9,
            Month::October => 10,
            Month::November => 11,
            Month::December => 12,
        }
    }

    /// The month's number, 1 for January to 12 for December.
    pub fn number(self) -> (r: u8)
        ensures
            r == self.ordinal(),
            1 <= r <= 12,
    {
        match self {
            Month::January => 1,
            Month::February => 2,
            Month::March => 3,
            Month::April => 4,
            Month::May => 5,
            Month::June => 6,
            Month::July => 7,
            Month::August => 8,
            Month::September => 9,
            Month::October => 10,
            Month::November => 11,
            Month::December => 12,
        }
    }

    /// The month with the number `value`. A number outside 1..=12 is an
    /// error that holds the number; it is never clamped.
    pub fn try_from(value: u8) -> (r: Result<Month, ParseError>)
        ensures
            1 <= value <= 12 ==> (r matches Ok(m) && m.ordinal() == value),
            !(1 <= value <= 12) ==> r == Err::<Month, ParseError>(
                ParseError::InvalidMonth { value },
            ),
    {
        match value {
            1 => Ok(Month::January),
            2 => Ok(Month::February),
            3 => Ok(Month::March),
            4 => Ok(Month::April),
            5 => Ok(Month::May),
            6 => Ok(Month::June),
            7 => Ok(Month::July),
            8 => Ok(Month::August),
            9 => Ok(Month::September),
            10 => Ok(Month::October),
            11 => Ok(Month::November),
            12 => Ok(Month::December),
            _ => Err(ParseError::InvalidMonth { value }),
        }
    }
}

/// A year and a month to select listing rows by.
#[derive(Debug, Clone, Copy, PartialEq, Eq, Structural)]
pub struct DateFilter {
    pub year: u32,
    pub month: Month,
}

/// The grammar: four digits, a hyphen, two digits, nothing else.
pub open spec fn is_date_text(s: Seq<char>) -> bool {
    &&& s.len() == 7
    &&& is_digit(s[0])
    &&& is_digit(s[1])
    &&& is_digit(s[2])
    &&& is_digit(s[3])
    &&& s[4] == '-'
    &&& is_digit(s[5])
    &&& is_digit(s[6])
}

/// The year that a date text names.
pub open spec fn year_of(s: Seq<char>) -> int
    recommends
        is_date_text(s),
{
    digit_value(s[0]) * 1000 + digit_value(s[1]) * 100 + digit_value(s[2]) * 10 + digit_value(
        s[3],
    )
}

/// The number that a date text gives for the month, 0 to 99.
pub open spec fn month_number_of(s: Seq<char>) -> int
    recommends
        is_date_text(s),
{
    digit_value(s[5]) * 10 + digit_value(s[6])
}

/// `r` is what parsing the text `s` gives: for a text of another shape than
/// `YYYY-MM` the error that holds the text, for a month outside 1..=12 the
/// error that holds its number, else the year and the month.
pub open spec fn parses_to(s: Seq<char>, r: Result<DateFilter, ParseError>) -> bool {
    if !is_date_text(s) {
        r matches Err(ParseError::InvalidDateFormat { input }) && input@ == s
    } else if !(1 <= month_number_of(s) <= 12) {
        r matches Err(ParseError::InvalidMonth { value }) && value == month_number_of(s)
    } else {
        r matches Ok(f) && f.year == year_of(s) && f.month.ordinal() == month_number_of(s)
    }
}

/// Two results of parsing hold the same.
pub open spec fn same_parse(
    a: Result<DateFilter, ParseError>,
    b: Result<DateFilter, ParseError>,
) -> bool {
    match (a, b) {
        (Ok(x), Ok(y)) => x == y,
        (
            Err(ParseError::InvalidDateFormat { input: x }),
            Err(ParseError::InvalidDateFormat { input: y }),
        ) => x@ == y@,
        (Err(ParseError::InvalidMonth { value: x }), Err(ParseError::InvalidMonth { value: y })) => x
            == y,
        _ => false,
    }
}

/// Parsing is a function of the text: two results for one text hold the same.
pub proof fn lemma_parse_is_determined(
    s: Seq<char>,
    a: Result<DateFilter, ParseError>,
    b: Result<DateFilter, ParseError>,
)
    requires
        parses_to(s, a),
        parses_to(s, b),
    ensures
        same_parse(a, b),
{
}

/// A date text names a year of at most four digits and a month number of at most two.
pub proof fn lemma_date_text_bounds(s: Seq<char>)
    requires
        is_date_text(s),
    ensures
        0 <= year_of(s) <= 9999,
        0 <= month_number_of(s) <= 99,
{
}

/// A month is its number: two months with one number are the same month.
pub proof fn lemma_month_by_number(a: Month, b: Month)
    requires
        a.ordinal() == b.ordinal(),
    ensures
        a == b,
{
}

impl DateFilter {
    /// Parses `YYYY-MM`. A text of another shape is an `InvalidDateFormat`
    /// that holds the text; one of that shape whose month is not in 1..=12 is
    /// an `InvalidMonth` that holds the month's number.
    pub fn from_str(s: &str) -> (r: Result<DateFilter, ParseError>)
        ensures
            parses_to(s@, r),
    {
        let chars = chars_of(s);
        if chars.len() != 7 || chars[4] != '-' {
            return Err(ParseError::InvalidDateFormat { input: s.to_owned() });
        }
        match (
            decimal_digit(chars[0]),
            decimal_digit(chars[1]),
            decimal_digit(chars[2]),
            decimal_digit(chars[3]),
            decimal_digit(chars[5]),
            decimal_digit(chars[6]),
        ) {
            (Some(y3), Some(y2), Some(y1), Some(y0), Some(m1), Some(m0)) => {
                let year: u32 = y3 * 1000 + y2 * 100 + y1 * 10 + y0;
                let month_number: u32 = m1 * 10 + m0;
                match Month::try_from(month_number as u8) {
                    Ok(month) => Ok(DateFilter { year, month }),
                    Err(e) => Err(e),
                }
            },
            _ => Err(ParseError::InvalidDateFormat { input: s.to_owned() }),
        }
    }
}

} // verus!
