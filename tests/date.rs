use zetanom::date::Date;
use zetanom::error::ErrorKind;

fn date(y: i32, m: u32, d: u32) -> Date {
    Date::new(y, m, d).expect("valid date")
}

#[test]
fn new_checks_the_calendar() {
    assert!(Date::new(2024, 2, 29).is_some());
    assert!(Date::new(2023, 2, 29).is_none());
    assert!(Date::new(1900, 2, 29).is_none());
    assert!(Date::new(2000, 2, 29).is_some());
    assert!(Date::new(2024, 4, 31).is_none());
    assert!(Date::new(2024, 13, 1).is_none());
    assert!(Date::new(2024, 0, 1).is_none());
    assert!(Date::new(0, 1, 1).is_none());
    assert!(Date::new(10000, 1, 1).is_none());
}

#[test]
fn parse_accepts_iso_dates() {
    assert_eq!(Date::parse("2026-01-05").unwrap(), date(2026, 1, 5));
    assert_eq!(Date::parse("2024-02-29").unwrap(), date(2024, 2, 29));
    assert_eq!(Date::parse("0001-01-01").unwrap(), date(1, 1, 1));
}

#[test]
fn parse_rejects_bad_text() {
    assert_eq!(Date::parse("2023-02-29").unwrap_err().kind, ErrorKind::Validation);
    assert_eq!(Date::parse("hello").unwrap_err().kind, ErrorKind::Validation);
    assert_eq!(Date::parse("").unwrap_err().kind, ErrorKind::Validation);
    assert_eq!(Date::parse("2024/01/01").unwrap_err().kind, ErrorKind::Validation);
}

#[test]
fn iso_text_round_trips() {
    let d = date(987, 3, 4);
    assert_eq!(d.to_iso_string(), "0987-03-04");
    assert_eq!(Date::parse(&d.to_iso_string()).unwrap(), d);
    assert_eq!(date(2026, 12, 31).to_iso_string(), "2026-12-31");
}

#[test]
fn next_day_crosses_months_and_years() {
    assert_eq!(date(2024, 2, 28).next_day(), Some(date(2024, 2, 29)));
    assert_eq!(date(2023, 2, 28).next_day(), Some(date(2023, 3, 1)));
    assert_eq!(date(2025, 12, 31).next_day(), Some(date(2026, 1, 1)));
    assert_eq!(date(2025, 4, 30).next_day(), Some(date(2025, 5, 1)));
    assert_eq!(date(9999, 12, 31).next_day(), None);
}

#[test]
fn prev_day_crosses_months_and_years() {
    assert_eq!(date(2024, 3, 1).prev_day(), Some(date(2024, 2, 29)));
    assert_eq!(date(2023, 3, 1).prev_day(), Some(date(2023, 2, 28)));
    assert_eq!(date(2026, 1, 1).prev_day(), Some(date(2025, 12, 31)));
    assert_eq!(date(2025, 5, 1).prev_day(), Some(date(2025, 4, 30)));
    assert_eq!(date(1, 1, 1).prev_day(), None);
}

#[test]
fn humanize_names_the_day() {
    assert_eq!(date(2026, 1, 5).humanize(), "Monday, 05 January 2026");
    assert_eq!(date(2024, 2, 29).humanize(), "Thursday, 29 February 2024");
}

#[test]
fn today_is_a_valid_date() {
    let t = Date::today().unwrap();
    assert_eq!(Date::new(t.year, t.month, t.day), Some(t));
    assert_eq!(t.into_inner(), (t.year, t.month, t.day));
}
