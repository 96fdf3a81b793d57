//! What the parsers report for a text they reject.

use vstd::prelude::*;

verus! {

/// What a spec number has to look like, for a diagnostic.
pub const SPEC_NUMBER_GRAMMAR: &'static str =
    "must start with two digits, optionally a dot, then at least one alphanumeric character";

/// What a date filter has to look like, for a diagnostic.
pub const DATE_FILTER_GRAMMAR: &'static str = "must be YYYY-MM";

/// What a month's number has to be, for a diagnostic.
pub const MONTH_RANGE: &'static str = "expected 1..=12";

/// Why a text was rejected.
#[derive(Debug, Clone, PartialEq, Eq)]
pub enum ParseError {
    /// The text is no spec number; `input` is the text as given.
    InvalidSpecNumber { input: String },
    /// The text is not four digits, a hyphen and two digits; `input` is the text as given.
    InvalidDateFormat { input: String },
    /// The text has the shape of a date filter, but its month is not in 1..=12.
    InvalidMonth { value: u8 },
}

impl ParseError {
    /// What the rejected text was expected to be.
    pub fn expected(&self) -> (r: &'static str)
        ensures
            r@ == match self {
                ParseError::InvalidSpecNumber { .. } => SPEC_NUMBER_GRAMMAR@,
                ParseError::InvalidDateFormat { .. } => DATE_FILTER_GRAMMAR@,
                ParseError::InvalidMonth { .. } => MONTH_RANGE@,
            },
    {
        match self {
            ParseError::InvalidSpecNumber { .. } => SPEC_NUMBER_GRAMMAR,
            ParseError::InvalidDateFormat { .. } => DATE_FILTER_GRAMMAR,
            ParseError::InvalidMonth { .. } => MONTH_RANGE,
        }
    }
}

} // verus!
