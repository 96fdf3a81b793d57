//! Spec numbers: a two-digit series, an optional dot, and an alphanumeric number.

use vstd::prelude::*;
use vstd::string::StrSliceExecFns;
use crate::error::ParseError;
use crate::text::{all_alnum, all_alnum_from, char_is_digit, chars_of, is_digit};

verus! {

/// A spec number, split into its series and the number within the series.
#[derive(Debug, PartialEq, Eq, Clone)]
pub struct SpecNumber {
    pub series: String,
    pub number: String,
}

/// Where the number part of a spec number text starts: behind the series, and
/// behind the dot if one follows the series.
pub open spec fn number_start(s: Seq<char>) -> int {
    if s.len() > 2 && s[2] == '.' {
        3
    } else {
        2
    }
}

/// The grammar: two digits, an optional dot, one or more letters or digits, nothing else.
pub open spec fn is_spec_number(s: Seq<char>) -> bool {
    &&& s.len() > number_start(s)
    &&& is_digit(s[0])
    &&& is_digit(s[1])
    &&& all_alnum(s.subrange(number_start(s), s.len() as int))
}

/// The series of a spec number text.
pub open spec fn series_of(s: Seq<char>) -> Seq<char>
    recommends
        is_spec_number(s),
{
    s.subrange(0, 2)
}

/// The number part of a spec number text.
pub open spec fn number_of(s: Seq<char>) -> Seq<char>
    recommends
        is_spec_number(s),
{
    s.subrange(number_start(s), s.len() as int)
}

/// `r` is what parsing the text `s` gives: for a spec number its series and
/// its number, for any other text the error that holds the text.
pub open spec fn parses_to(s: Seq<char>, r: Result<SpecNumber, ParseError>) -> bool {
    if is_spec_number(s) {
        r matches Ok(n) && n.series@ == series_of(s) && n.number@ == number_of(s)
            && n.well_formed()
    } else {
        r matches Err(ParseError::InvalidSpecNumber { input }) && input@ == s
    }
}

/// Two results of parsing hold the same texts.
pub open spec fn same_parse(
    a: Result<SpecNumber, ParseError>,
    b: Result<SpecNumber, ParseError>,
) -> bool {
    match (a, b) {
        (Ok(x), Ok(y)) => x.series@ == y.series@ && x.number@ == y.number@,
        (
            Err(ParseError::InvalidSpecNumber { input: x }),
            Err(ParseError::InvalidSpecNumber { input: y }),
        ) => x@ == y@,
        _ => false,
    }
}

impl SpecNumber {
    /// The series is two digits, and the number is one or more letters or digits.
    pub open spec fn well_formed(&self) -> bool {
        &&& self.series@.len() == 2
        &&& is_digit(self.series@[0])
        &&& is_digit(self.series@[1])
        &&& self.number@.len() > 0
        &&& all_alnum(self.number@)
    }

    /// The text of the spec number in its dotted form.
    pub open spec fn dotted(&self) -> Seq<char> {
        self.series@ + seq!['.'] + self.number@
    }

    /// Parses a spec number; the same as [`parse_spec_number`].
    pub fn from_str(s: &str) -> (r: Result<SpecNumber, ParseError>)
        ensures
            parses_to(s@, r),
    {
        parse_spec_number(s)
    }

    /// The series, a dot, and the number.
    pub fn to_string(&self) -> (r: String)
        ensures
            r@ == self.dotted(),
    {
        let mut out = self.series.clone();
        out.push_str(".");
        out.push_str(self.number.as_str());
        proof {
            reveal_strlit(".");
            assert("."@ =~= seq!['.']);
        }
        out
    }
}

/// Parses `spec` as a spec number. The two leading digits are the series; what
/// follows them, without the dot that may separate the two, is the number.
/// Any other text is rejected, and the error holds the text.
pub fn parse_spec_number(spec: &str) -> (r: Result<SpecNumber, ParseError>)
    ensures
        parses_to(spec@, r),
{
    let chars = chars_of(spec);
    let n: usize = chars.len();
    let start: usize = if n > 2 && chars[2] == '.' {
        3
    } else {
        2
    };
    if n > start && char_is_digit(chars[0]) && char_is_digit(chars[1]) && all_alnum_from(
        &chars,
        start,
    ) {
        let series = spec.substring_char(0, 2).to_owned();
        let number = spec.substring_char(start, n).to_owned();
        Ok(SpecNumber { series, number })
    } else {
        Err(ParseError::InvalidSpecNumber { input: spec.to_owned() })
    }
}

/// Parsing is a function of the text: two results for one text hold the same.
pub proof fn lemma_parse_is_determined(
    s: Seq<char>,
    a: Result<SpecNumber, ParseError>,
    b: Result<SpecNumber, ParseError>,
)
    requires
        parses_to(s, a),
        parses_to(s, b),
    ensures
        same_parse(a, b),
{
}

/// Every two-digit series followed by a non-empty alphanumeric number is a
/// spec number, with or without a dot between the two, and its parts are that
/// series and that number.
pub proof fn lemma_series_and_number_parse(series: Seq<char>, number: Seq<char>)
    requires
        series.len() == 2,
        is_digit(series[0]),
        is_digit(series[1]),
        number.len() > 0,
        all_alnum(number),
    ensures
        forall|r: Result<SpecNumber, ParseError>| #[trigger]
            parses_to(series + number, r) ==> (r matches Ok(n) && n.series@ == series && n.number@
                == number),
        forall|r: Result<SpecNumber, ParseError>| #[trigger]
            parses_to(series + seq!['.'] + number, r) ==> (r matches Ok(n) && n.series@ == series
                && n.number@ == number),
        is_spec_number(series + number),
        series_of(series + number) == series,
        number_of(series + number) == number,
        is_spec_number(series + seq!['.'] + number),
        series_of(series + seq!['.'] + number) == series,
        number_of(series + seq!['.'] + number) == number,
{
    let plain = series + number;
    let dotted = series + seq!['.'] + number;
    assert(plain[2] == number[0]);
    assert(number[0] != '.');
    assert(plain.subrange(2, plain.len() as int) =~= number);
    assert(plain.subrange(0, 2) =~= series);
    assert(dotted[2] == '.');
    assert(dotted.subrange(3, dotted.len() as int) =~= number);
    assert(dotted.subrange(0, 2) =~= series);
}

/// A well-formed spec number, written in its dotted form, parses back to itself.
pub proof fn lemma_dotted_parses_back(n: SpecNumber)
    requires
        n.well_formed(),
    ensures
        is_spec_number(n.dotted()),
        series_of(n.dotted()) == n.series@,
        number_of(n.dotted()) == n.number@,
{
    lemma_series_and_number_parse(n.series@, n.number@);
}

} // verus!
