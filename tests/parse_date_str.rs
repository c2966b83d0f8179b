use chrono::{Datelike, NaiveDate, NaiveDateTime, Timelike};
use datestr::{parse_date_str, DateRound, ParsedTimestamp};

fn eod_hms_opt(date: NaiveDate) -> Option<NaiveDateTime> {
    date.and_hms_opt(23, 59, 59)
}

fn bod_hms_opt(date: NaiveDate) -> Option<NaiveDateTime> {
    date.and_hms_opt(0, 0, 0)
}

fn stamp_of(dt: NaiveDateTime) -> ParsedTimestamp {
    ParsedTimestamp {
        year: dt.year(),
        month: dt.month(),
        day: dt.day(),
        hour: dt.hour(),
        minute: dt.minute(),
        second: dt.second(),
    }
}

#[test]
fn should_return_eoy_given_only_a_year_and_ceil() {
    let year = chrono::Utc::now().year();
    let year_str = &year.to_string();
    let eoy = chrono::NaiveDate::from_ymd_opt(year, 12, 31)
        .and_then(eod_hms_opt)
        .unwrap();

    let d = parse_date_str(year_str, DateRound::Ceil);

    assert_eq!(d.unwrap(), stamp_of(eoy));
}

#[test]
fn should_return_first_day_of_year_given_a_year_and_floor() {
    let year = chrono::Utc::now().year();
    let year_str = &year.to_string();
    let jan1 = chrono::NaiveDate::from_ymd_opt(year, 1, 1)
        .and_then(bod_hms_opt)
        .unwrap();

    let d = parse_date_str(year_str, DateRound::Floor);

    assert_eq!(d.unwrap(), stamp_of(jan1));
}

#[test]
fn should_return_first_day_of_month_given_month_year_and_floor() {
    let year = 2024;
    let month = 2;
    let date_str = format!("{}/{}", month, year);
    let feb_1st = chrono::NaiveDate::from_ymd_opt(year, month, 1)
        .and_then(bod_hms_opt)
        .unwrap();

    let d = parse_date_str(&date_str, DateRound::Floor);

    assert_eq!(d.unwrap(), stamp_of(feb_1st));
}

#[test]
fn should_return_last_day_of_month_given_month_year_and_ceil() {
    let year = 2024;
    let month = 2;
    let date_str = format!("{}/{}", month, year);
    let feb_29 = chrono::NaiveDate::from_ymd_opt(year, month, 29)
        .and_then(eod_hms_opt)
        .unwrap();

    let d = parse_date_str(&date_str, DateRound::Ceil);

    assert_eq!(d.unwrap(), stamp_of(feb_29));
}

#[test]
fn should_return_same_day_given_a_full_date() {
    let day = 3;
    let month = 11;
    let year = 1997;

    let date = chrono::NaiveDate::from_ymd_opt(year, month, day).unwrap();
    let date_str = &date.format("%d/%m/%Y").to_string();

    let bod = bod_hms_opt(date).unwrap();
    let eod = eod_hms_opt(date).unwrap();

    let res_bod = parse_date_str(date_str, DateRound::Floor);
    let res_eod = parse_date_str(date_str, DateRound::Ceil);

    assert_eq!(res_bod.unwrap(), stamp_of(bod));
    assert_eq!(res_eod.unwrap(), stamp_of(eod));
}

#[test]
fn should_err_on_invalid_input() {
    let invalid_inputs = [
        "",
        " ",
        "a",
        "1/2/3/4",
        "1/2/3/4/5",
        "30/2/2024",
        "29/2/2023",
        "31/4/2023",
    ];

    for input in invalid_inputs {
        let res = parse_date_str(input, DateRound::Floor);
        assert!(res.is_err());
    }
}
