use datestr::{format_dmy, last_day_of_month, parse_date_str, DateRound, ParseDateStrError, ParsedTimestamp};

fn ts(year: i32, month: u32, day: u32, hour: u32, minute: u32, second: u32) -> ParsedTimestamp {
    ParsedTimestamp { year, month, day, hour, minute, second }
}

#[test]
fn last_day_of_february_follows_leap_years() {
    assert_eq!(last_day_of_month(2024, 2), Ok(29));
    assert_eq!(last_day_of_month(2023, 2), Ok(28));
    assert_eq!(last_day_of_month(1900, 2), Ok(28));
    assert_eq!(last_day_of_month(2000, 2), Ok(29));
    assert_eq!(last_day_of_month(-4, 2), Ok(29));
}

#[test]
fn last_day_of_other_months() {
    assert_eq!(last_day_of_month(2023, 1), Ok(31));
    assert_eq!(last_day_of_month(2023, 4), Ok(30));
    assert_eq!(last_day_of_month(2023, 11), Ok(30));
    assert_eq!(last_day_of_month(2023, 12), Ok(31));
}

#[test]
fn last_day_of_month_refuses_bad_months_and_years() {
    assert_eq!(last_day_of_month(2023, 0), Err(ParseDateStrError::Date("0/2023".to_string())));
    assert_eq!(last_day_of_month(2023, 13), Err(ParseDateStrError::Date("13/2023".to_string())));
    assert_eq!(last_day_of_month(262142, 12), Err(ParseDateStrError::Date("12/262142".to_string())));
    assert_eq!(last_day_of_month(262142, 11), Ok(30));
    assert_eq!(last_day_of_month(i32::MAX, 12), Err(ParseDateStrError::Date("12/2147483647".to_string())));
    assert_eq!(last_day_of_month(-300000, 5), Err(ParseDateStrError::Date("5/-300000".to_string())));
}

#[test]
fn year_only_resolves_to_bounds_of_year() {
    assert_eq!(parse_date_str("2023", DateRound::Floor), Ok(ts(2023, 1, 1, 0, 0, 0)));
    assert_eq!(parse_date_str("2023", DateRound::Ceil), Ok(ts(2023, 12, 31, 23, 59, 59)));
    assert_eq!(parse_date_str("-44", DateRound::Ceil), Ok(ts(-44, 12, 31, 23, 59, 59)));
    assert_eq!(parse_date_str("+7", DateRound::Floor), Ok(ts(7, 1, 1, 0, 0, 0)));
}

#[test]
fn year_out_of_range_is_a_date_error() {
    assert_eq!(
        parse_date_str("400000", DateRound::Floor),
        Err(ParseDateStrError::Date("1/1/400000".to_string()))
    );
    assert_eq!(
        parse_date_str("400000", DateRound::Ceil),
        Err(ParseDateStrError::Date("12/400000".to_string()))
    );
    assert_eq!(
        parse_date_str("262142", DateRound::Ceil),
        Err(ParseDateStrError::Date("12/262142".to_string()))
    );
    assert_eq!(parse_date_str("262142", DateRound::Floor), Ok(ts(262142, 1, 1, 0, 0, 0)));
}

#[test]
fn month_year_resolves_to_bounds_of_month() {
    assert_eq!(parse_date_str("4/2023", DateRound::Floor), Ok(ts(2023, 4, 1, 0, 0, 0)));
    assert_eq!(parse_date_str("4/2023", DateRound::Ceil), Ok(ts(2023, 4, 30, 23, 59, 59)));
    assert_eq!(parse_date_str("2/2023", DateRound::Ceil), Ok(ts(2023, 2, 28, 23, 59, 59)));
    assert_eq!(parse_date_str("12/1999", DateRound::Ceil), Ok(ts(1999, 12, 31, 23, 59, 59)));
}

#[test]
fn month_year_with_bad_month_is_a_date_error() {
    assert_eq!(
        parse_date_str("13/2023", DateRound::Floor),
        Err(ParseDateStrError::Date("13/2023".to_string()))
    );
    assert_eq!(
        parse_date_str("013/2023", DateRound::Ceil),
        Err(ParseDateStrError::Date("13/2023".to_string()))
    );
    assert_eq!(
        parse_date_str("0/2023", DateRound::Floor),
        Err(ParseDateStrError::Date("0/2023".to_string()))
    );
}

#[test]
fn month_is_reported_before_year() {
    assert_eq!(
        parse_date_str("x/y", DateRound::Floor),
        Err(ParseDateStrError::DatePart("x".to_string()))
    );
    assert_eq!(
        parse_date_str("3/y", DateRound::Ceil),
        Err(ParseDateStrError::DatePart("y".to_string()))
    );
}

#[test]
fn day_is_reported_before_month_and_year() {
    assert_eq!(
        parse_date_str("a/b/c", DateRound::Floor),
        Err(ParseDateStrError::DatePart("a".to_string()))
    );
    assert_eq!(
        parse_date_str("1/b/c", DateRound::Floor),
        Err(ParseDateStrError::DatePart("b".to_string()))
    );
    assert_eq!(
        parse_date_str("1/2/c", DateRound::Floor),
        Err(ParseDateStrError::DatePart("c".to_string()))
    );
    assert_eq!(
        parse_date_str("-1/2/2000", DateRound::Floor),
        Err(ParseDateStrError::DatePart("-1".to_string()))
    );
}

#[test]
fn impossible_days_are_date_errors_with_the_text() {
    for (text, round) in [
        ("30/2/2024", DateRound::Floor),
        ("29/2/2023", DateRound::Ceil),
        ("31/4/2023", DateRound::Floor),
        ("0/1/2023", DateRound::Floor),
        ("1/13/2023", DateRound::Ceil),
    ] {
        assert_eq!(parse_date_str(text, round), Err(ParseDateStrError::Date(text.to_string())));
    }
    assert_eq!(parse_date_str("29/2/2024", DateRound::Floor), Ok(ts(2024, 2, 29, 0, 0, 0)));
}

#[test]
fn malformed_tokens_are_component_errors() {
    assert_eq!(parse_date_str("", DateRound::Floor), Err(ParseDateStrError::DatePart("".to_string())));
    assert_eq!(parse_date_str(" ", DateRound::Ceil), Err(ParseDateStrError::DatePart(" ".to_string())));
    assert_eq!(parse_date_str("a", DateRound::Floor), Err(ParseDateStrError::DatePart("a".to_string())));
    assert_eq!(parse_date_str(" 2023", DateRound::Floor), Err(ParseDateStrError::DatePart(" 2023".to_string())));
    assert_eq!(parse_date_str("1//2023", DateRound::Floor), Err(ParseDateStrError::DatePart("".to_string())));
}

#[test]
fn wrong_arity_carries_the_input() {
    for text in ["1/2/3/4", "1/2/3/4/5", "///"] {
        assert_eq!(parse_date_str(text, DateRound::Floor), Err(ParseDateStrError::Date(text.to_string())));
    }
}

#[test]
fn fully_given_day_is_kept_under_both_policies() {
    assert_eq!(parse_date_str("15/8/1947", DateRound::Floor), Ok(ts(1947, 8, 15, 0, 0, 0)));
    assert_eq!(parse_date_str("15/8/1947", DateRound::Ceil), Ok(ts(1947, 8, 15, 23, 59, 59)));
}

#[test]
fn format_writes_plain_decimal_day_month_year() {
    assert_eq!(format_dmy(&ts(1997, 11, 3, 0, 0, 0)), "3/11/1997");
    assert_eq!(format_dmy(&ts(-44, 3, 15, 23, 59, 59)), "15/3/-44");
}

#[test]
fn reparsing_a_formatted_result_gives_it_back() {
    for (text, round) in [
        ("03/11/1997", DateRound::Floor),
        ("2/2024", DateRound::Ceil),
        ("2023", DateRound::Ceil),
        ("+7", DateRound::Floor),
    ] {
        let first = parse_date_str(text, round).unwrap();
        let again = parse_date_str(&format_dmy(&first), round).unwrap();
        assert_eq!(again, first);
    }
}
