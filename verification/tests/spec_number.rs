use get_3gpp_spec::{parse_spec_number, ParseError, SpecNumber};

fn spec(series: &str, number: &str) -> SpecNumber {
    SpecNumber { series: series.to_string(), number: number.to_string() }
}

#[test]
fn valid_examples() {
    assert_eq!(
        parse_spec_number("23a"),
        Ok(SpecNumber {
            series: "23".to_string(),
            number: "a".to_string()
        })
    );
    assert_eq!(
        parse_spec_number("23.a"),
        Ok(SpecNumber {
            series: "23".to_string(),
            number: "a".to_string()
        })
    );
    assert_eq!(
        parse_spec_number("00Z"),
        Ok(SpecNumber {
            series: "00".to_string(),
            number: "Z".to_string()
        })
    );
    assert_eq!(
        parse_spec_number("99.1"),
        Ok(SpecNumber {
            series: "99".to_string(),
            number: "1".to_string()
        })
    );
    assert_eq!(
        parse_spec_number("45B6"),
        Ok(SpecNumber {
            series: "45".to_string(),
            number: "B6".to_string()
        })
    );
}

#[test]
fn invalid_examples() {
    assert!(parse_spec_number("2a").is_err()); // only one leading digit
    assert!(parse_spec_number(".23a").is_err()); // starts with dot
    assert!(parse_spec_number("ab23").is_err()); // doesn't start with digits
    assert!(parse_spec_number("23.").is_err()); // dot with no alnum after
    assert!(parse_spec_number("").is_err());
}

#[test]
fn series_then_number_with_and_without_dot() {
    for series in ["00", "07", "23", "99"] {
        for number in ["1", "501", "a", "Z9", "B6c"] {
            let plain = format!("{}{}", series, number);
            let dotted = format!("{}.{}", series, number);
            assert_eq!(parse_spec_number(&plain), Ok(spec(series, number)));
            assert_eq!(parse_spec_number(&dotted), Ok(spec(series, number)));
        }
    }
}

#[test]
fn rejected_text_is_reported() {
    assert_eq!(
        parse_spec_number("23."),
        Err(ParseError::InvalidSpecNumber { input: "23.".to_string() })
    );
    assert_eq!(
        parse_spec_number(""),
        Err(ParseError::InvalidSpecNumber { input: String::new() })
    );
}

#[test]
fn other_characters_are_rejected() {
    assert!(parse_spec_number("23..a").is_err());
    assert!(parse_spec_number("23.a.").is_err());
    assert!(parse_spec_number("23a-b").is_err());
    assert!(parse_spec_number(" 23a").is_err());
    assert!(parse_spec_number("23a ").is_err());
    assert!(parse_spec_number("23a\n").is_err());
    assert!(parse_spec_number("23\u{e9}").is_err());
    assert!(parse_spec_number("\u{663}\u{663}a").is_err());
    assert!(parse_spec_number("23").is_err());
}

#[test]
fn digits_only_number() {
    assert_eq!(parse_spec_number("23501"), Ok(spec("23", "501")));
    assert_eq!(parse_spec_number("23.501"), Ok(spec("23", "501")));
}

#[test]
fn from_str_is_the_parser() {
    assert_eq!(SpecNumber::from_str("38.331"), parse_spec_number("38.331"));
    assert_eq!(SpecNumber::from_str("x"), parse_spec_number("x"));
}

#[test]
fn dotted_text() {
    assert_eq!(spec("23", "501").to_string(), "23.501");
    assert_eq!(parse_spec_number("45B6").unwrap().to_string(), "45.B6");
}

#[test]
fn parsing_twice_gives_the_same() {
    for text in ["23a", "23.", "", "99.1"] {
        assert_eq!(parse_spec_number(text), parse_spec_number(text));
    }
}

#[test]
fn errors_say_what_was_expected() {
    let spec = parse_spec_number("x").unwrap_err();
    assert_eq!(
        spec.expected(),
        "must start with two digits, optionally a dot, then at least one alphanumeric character"
    );
    let format = ParseError::InvalidDateFormat { input: "x".to_string() };
    assert_eq!(format.expected(), "must be YYYY-MM");
    let month = ParseError::InvalidMonth { value: 13 };
    assert_eq!(month.expected(), "expected 1..=12");
}
