use chrono::{Datelike, NaiveDate};
use metadata::date::{Date, DATE_FORMAT, MAX_YEAR, MIN_YEAR};

fn ymd(date: &Date) -> (i32, u32, u32) {
    (date.year(), date.month(), date.day())
}

#[test]
fn from_ymd_takes_the_days_that_the_calendar_has() {
    assert_eq!(ymd(&Date::from_ymd(2024, 5, 1).unwrap()), (2024, 5, 1));
    assert!(Date::from_ymd(2024, 2, 29).is_some());
    assert!(Date::from_ymd(2023, 2, 29).is_none());
    assert!(Date::from_ymd(1900, 2, 29).is_none());
    assert!(Date::from_ymd(2000, 2, 29).is_some());
    assert!(Date::from_ymd(2023, 4, 31).is_none());
    assert!(Date::from_ymd(2023, 0, 1).is_none());
    assert!(Date::from_ymd(2023, 13, 1).is_none());
    assert!(Date::from_ymd(2023, 1, 0).is_none());
    assert!(Date::from_ymd(2023, 1, 32).is_none());
    assert!(Date::from_ymd(-4, 2, 29).is_some());
}

#[test]
fn from_ymd_agrees_with_chrono() {
    let years = [
        -262144, -262143, -401, -400, -100, -5, -4, -1, 0, 1, 4, 100, 400, 1900, 1970, 2000, 2023,
        2024, 9999, 10000, 262142, 262143, 400000, -400000, i32::MIN, i32::MAX,
    ];
    for year in years {
        for month in 0..=13u32 {
            for day in 0..=32u32 {
                let ours = Date::from_ymd(year, month, day);
                let theirs = NaiveDate::from_ymd_opt(year, month, day);
                assert_eq!(ours.is_some(), theirs.is_some(), "{year}-{month}-{day}");
                if let (Some(ours), Some(theirs)) = (ours, theirs) {
                    assert_eq!(ymd(&ours), (theirs.year(), theirs.month(), theirs.day()));
                    assert_eq!(ours.to_string(), theirs.to_string());
                }
            }
        }
    }
}

#[test]
fn year_range_is_that_of_chrono() {
    assert_eq!(MIN_YEAR, NaiveDate::MIN.year());
    assert_eq!(MAX_YEAR, NaiveDate::MAX.year());
}

#[test]
fn to_string_writes_year_month_day() {
    assert_eq!(Date::from_ymd(2024, 5, 1).unwrap().to_string(), "2024-05-01");
    assert_eq!(Date::from_ymd(2015, 9, 5).unwrap().to_string(), "2015-09-05");
    assert_eq!(Date::from_ymd(0, 1, 1).unwrap().to_string(), "0000-01-01");
    assert_eq!(Date::from_ymd(9999, 12, 31).unwrap().to_string(), "9999-12-31");
    assert_eq!(Date::from_ymd(-1, 1, 1).unwrap().to_string(), "-0001-01-01");
    assert_eq!(Date::from_ymd(10000, 12, 31).unwrap().to_string(), "+10000-12-31");
    assert_eq!(Date::from_ymd(-262143, 1, 1).unwrap().to_string(), "-262143-01-01");
}

#[test]
fn epoch_is_the_default_date() {
    let epoch = Date::epoch();
    assert_eq!(ymd(&epoch), (1970, 1, 1));
    assert_eq!(epoch.to_string(), metadata::DEFAULT_DATE);
    let theirs = NaiveDate::default();
    assert_eq!(ymd(&epoch), (theirs.year(), theirs.month(), theirs.day()));
}

#[test]
fn parse_reads_a_date() {
    assert_eq!(ymd(&Date::parse("2024-05-01").unwrap()), (2024, 5, 1));
    assert_eq!(ymd(&Date::parse("1970-01-01").unwrap()), (1970, 1, 1));
    assert_eq!(ymd(&Date::parse("2024-02-29").unwrap()), (2024, 2, 29));
}

#[test]
fn parse_refuses_what_is_no_date() {
    let texts = [
        "",
        "not a date",
        "2024-13-01",
        "2023-02-29",
        "2024-05",
        "2024/05/01",
        "2024-05-01T10:00:00",
        "05-01-2024x",
    ];
    for text in texts {
        let error = Date::parse(text).unwrap_err();
        assert!(error.is_date(), "{text:?}");
        assert!(!error.is_version());
    }
}

#[test]
fn parse_agrees_with_chrono() {
    let texts = [
        "2024-05-01",
        "2024-5-1",
        " 2024-05-01",
        "2024-05-01 ",
        "0000-01-01",
        "+10000-01-01",
        "-0001-12-31",
        "24-05-01",
        "2024-05-32",
        "x",
    ];
    for text in texts {
        let ours = Date::parse(text).ok().map(|date| ymd(&date));
        let theirs = NaiveDate::parse_from_str(text, DATE_FORMAT)
            .ok()
            .map(|date| (date.year(), date.month(), date.day()));
        assert_eq!(ours, theirs, "{text:?}");
    }
}

#[test]
fn what_is_written_is_read_again() {
    for (year, month, day) in [(1970, 1, 1), (2024, 2, 29), (1, 1, 1), (9999, 12, 31), (0, 6, 15)] {
        let date = Date::from_ymd(year, month, day).unwrap();
        assert_eq!(Date::parse(&date.to_string()).unwrap(), date);
    }
}

#[test]
fn date_format_is_year_month_day() {
    assert_eq!(DATE_FORMAT, "%Y-%m-%d");
}

#[test]
fn date_or_default_keeps_what_was_read() {
    let (kept, error) = Date::or_default(Date::parse("2024-05-01"));
    assert_eq!(ymd(&kept), (2024, 5, 1));
    assert!(error.is_none());
    let (kept, error) = Date::or_default(Date::parse("2024-05"));
    assert_eq!(kept, Date::epoch());
    assert!(error.unwrap().is_date());
}
