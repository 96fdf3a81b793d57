use get_3gpp_spec::{DateFilter, Month, ParseError};

#[test]
fn july_2023() {
    assert_eq!(
        DateFilter::from_str("2023-07"),
        Ok(DateFilter { year: 2023, month: Month::July })
    );
}

#[test]
fn month_thirteen_is_invalid_month() {
    assert_eq!(DateFilter::from_str("2023-13"), Err(ParseError::InvalidMonth { value: 13 }));
}

#[test]
fn month_zero_is_invalid_month() {
    assert_eq!(DateFilter::from_str("2023-00"), Err(ParseError::InvalidMonth { value: 0 }));
    assert_eq!(DateFilter::from_str("2023-99"), Err(ParseError::InvalidMonth { value: 99 }));
}

#[test]
fn short_year_is_invalid_format() {
    assert_eq!(
        DateFilter::from_str("23-07"),
        Err(ParseError::InvalidDateFormat { input: "23-07".to_string() })
    );
}

#[test]
fn other_shapes_are_invalid_format() {
    for text in ["", "2023", "2023-7", "2023/07", "2023-07 ", " 2023-07", "2023-ab", "20a3-07", "2023-007", "+023-07", "2023-+7"] {
        assert_eq!(
            DateFilter::from_str(text),
            Err(ParseError::InvalidDateFormat { input: text.to_string() })
        );
    }
}

#[test]
fn leading_zeros_in_the_year() {
    assert_eq!(
        DateFilter::from_str("0007-12"),
        Ok(DateFilter { year: 7, month: Month::December })
    );
    assert_eq!(
        DateFilter::from_str("9999-01"),
        Ok(DateFilter { year: 9999, month: Month::January })
    );
}

#[test]
fn every_month_has_its_number() {
    let months = [
        Month::January,
        Month::February,
        Month::March,
        Month::April,
        Month::May,
        Month::June,
        Month::July,
        Month::August,
        Month::September,
        Month::October,
        Month::November,
        Month::December,
    ];
    for (i, month) in months.iter().enumerate() {
        let number = (i + 1) as u8;
        assert_eq!(month.number(), number);
        assert_eq!(Month::try_from(number), Ok(*month));
        let text = format!("1999-{:02}", number);
        assert_eq!(DateFilter::from_str(&text), Ok(DateFilter { year: 1999, month: *month }));
    }
}

#[test]
fn numbers_that_are_no_month() {
    assert_eq!(Month::try_from(0), Err(ParseError::InvalidMonth { value: 0 }));
    assert_eq!(Month::try_from(13), Err(ParseError::InvalidMonth { value: 13 }));
    assert_eq!(Month::try_from(255), Err(ParseError::InvalidMonth { value: 255 }));
}

#[test]
fn date_parsing_twice_gives_the_same() {
    for text in ["2023-07", "2023-13", "23-07"] {
        assert_eq!(DateFilter::from_str(text), DateFilter::from_str(text));
    }
}
