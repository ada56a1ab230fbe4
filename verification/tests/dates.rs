use std::cmp::Ordering;

use tuya_meter::calendar::{days_in_month, is_leap_year, Month};
use tuya_meter::error::ParseError;
use tuya_meter::year_month::YearMonth;
use tuya_meter::year_month_day::YearMonthDay;

#[test]
fn year_month_round_trip_example() {
    let ym = YearMonth::parse("202311").unwrap();
    assert_eq!(ym.year(), 2023);
    assert_eq!(ym.month(), Month::November);
    assert_eq!(ym.as_string(), "202311");
}

#[test]
fn year_month_new_round_trip() {
    let ym = YearMonth::new(7, Month::March).unwrap();
    assert_eq!(ym.as_string(), "000703");
    assert_eq!(YearMonth::parse("000703").unwrap(), ym);
}

#[test]
fn year_month_new_rejects_out_of_range_years() {
    assert_eq!(
        YearMonth::new(10000, Month::January).unwrap_err(),
        ParseError::ExpectsYearMonth
    );
    assert_eq!(
        YearMonth::new(-1, Month::January).unwrap_err(),
        ParseError::ExpectsYearMonth
    );
}

#[test]
fn year_month_parse_rejects_bad_input() {
    assert!(YearMonth::parse("2023").is_err());
    assert!(YearMonth::parse("2023110").is_err());
    assert!(YearMonth::parse("2023ab").is_err());
    assert!(YearMonth::parse("202300").is_err());
    assert!(YearMonth::parse("202313").is_err());
    assert!(YearMonth::parse("").is_err());
    assert!(YearMonth::parse("20231!").is_err());
    let e = YearMonth::parse("x").unwrap_err();
    assert_eq!(e.message(), "Failed to parse date, expects format 'yyyymm'");
}

#[test]
fn year_month_ordering_matches_strings() {
    let a = YearMonth::parse("202310").unwrap();
    let b = YearMonth::parse("202311").unwrap();
    assert_eq!(a.compare(&b), Ordering::Less);
    assert_eq!(b.compare(&a), Ordering::Greater);
    assert_eq!(a.compare(&a), Ordering::Equal);
    assert_eq!(
        a.as_string().cmp(&b.as_string()),
        Ordering::Less,
        "string order must agree"
    );
    let c = YearMonth::parse("202401").unwrap();
    assert_eq!(b.compare(&c), Ordering::Less);
    assert_eq!(b.as_string().cmp(&c.as_string()), Ordering::Less);
}

#[test]
fn year_month_day_round_trip() {
    let d = YearMonthDay::parse("20240229").unwrap();
    assert_eq!(d.year(), 2024);
    assert_eq!(d.month(), Month::February);
    assert_eq!(d.day(), 29);
    assert_eq!(d.as_string(), "20240229");
    let d2 = YearMonthDay::new(2024, Month::February, 29).unwrap();
    assert_eq!(d, d2);
}

#[test]
fn year_month_day_rejects_invalid_dates() {
    assert!(YearMonthDay::parse("20230229").is_err(), "2023 is not a leap year");
    assert!(YearMonthDay::parse("20230431").is_err(), "April has 30 days");
    assert!(YearMonthDay::parse("20230100").is_err());
    assert!(YearMonthDay::parse("20231301").is_err());
    assert!(YearMonthDay::parse("2023011").is_err());
    assert!(YearMonthDay::new(2023, Month::February, 29).is_err());
    let e = YearMonthDay::parse("nope").unwrap_err();
    assert_eq!(e.message(), "Failed to parse date, expects format 'yyyymmdd'");
}

#[test]
fn year_month_day_ordering_matches_strings() {
    let a = YearMonthDay::parse("20231130").unwrap();
    let b = YearMonthDay::parse("20231201").unwrap();
    assert_eq!(a.compare(&b), Ordering::Less);
    assert_eq!(a.as_string().cmp(&b.as_string()), Ordering::Less);
    assert_eq!(b.compare(&a), Ordering::Greater);
    assert_eq!(a.compare(&a), Ordering::Equal);
}

#[test]
fn leap_year_rule() {
    assert!(is_leap_year(2024));
    assert!(!is_leap_year(2023));
    assert!(!is_leap_year(1900));
    assert!(is_leap_year(2000));
}

#[test]
fn last_day_of_month_handles_leap_years() {
    assert_eq!(days_in_month(2024, Month::February), 29);
    assert_eq!(days_in_month(2023, Month::February), 28);
    assert_eq!(days_in_month(2023, Month::January), 31);
    assert_eq!(days_in_month(2023, Month::April), 30);
    assert_eq!(days_in_month(2023, Month::December), 31);
}

#[test]
fn current_constructors_are_consistent() {
    let first = YearMonthDay::first_day_current_month();
    assert_eq!(first.day(), 1);
    let last = YearMonthDay::last_day_current_month();
    assert_eq!(first.year(), last.year());
    assert_eq!(first.month(), last.month());
    assert_eq!(last.day(), days_in_month(last.year(), last.month()));
    let month = YearMonth::current_month();
    assert_eq!(month.year(), first.year());
    assert_eq!(month.month(), first.month());
}

#[test]
fn pretty_strings() {
    let ym = YearMonth::parse("202311").unwrap();
    assert_eq!(ym.as_pretty_string(), "2023 November");
    let d = YearMonthDay::parse("20231105").unwrap();
    assert_eq!(d.as_pretty_string(), "5 November 2023");
}

#[test]
fn month_numbers_round_trip() {
    assert_eq!(Month::from_number(1), Some(Month::January));
    assert_eq!(Month::from_number(12), Some(Month::December));
    assert_eq!(Month::from_number(0), None);
    assert_eq!(Month::from_number(13), None);
    assert_eq!(Month::November.number(), 11);
    assert_eq!(Month::November.name(), "November");
}

#[test]
fn today_is_a_real_date() {
    let today = YearMonthDay::today();
    assert!(today.day() >= 1);
    assert!(today.day() <= days_in_month(today.year(), today.month()));
}
