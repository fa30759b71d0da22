use lounasbot::command::DayArgument;
use lounasbot::date::{resolve_day, week_dates, Date};

fn date(year: i32, month: u32, day: u32) -> Date {
    Date { year, month, day }
}

#[test]
fn today_is_named_in_iso_form() {
    assert_eq!(resolve_day(date(2025, 9, 2), DayArgument::Today).unwrap(), "2025-09-02");
}

#[test]
fn offsets_cross_month_and_year_ends() {
    assert_eq!(resolve_day(date(2025, 8, 30), DayArgument::Offset(3)).unwrap(), "2025-09-02");
    assert_eq!(resolve_day(date(2024, 12, 31), DayArgument::Offset(1)).unwrap(), "2025-01-01");
    assert_eq!(resolve_day(date(2024, 2, 28), DayArgument::Offset(1)).unwrap(), "2024-02-29");
    assert_eq!(resolve_day(date(2025, 9, 2), DayArgument::Offset(0)).unwrap(), "2025-09-02");
    assert_eq!(resolve_day(date(2025, 9, 2), DayArgument::Offset(u64::MAX)), None);
}

#[test]
fn explicit_dates_are_passed_through() {
    let d = resolve_day(date(2025, 9, 2), DayArgument::Date("2025-10-01".to_string()));
    assert_eq!(d.unwrap(), "2025-10-01");
}

#[test]
fn week_dates_start_on_the_labelled_day() {
    let dates = week_dates(date(2025, 8, 28), "26.-30.8.", 5).unwrap();
    assert_eq!(dates, vec!["2025-08-26", "2025-08-27", "2025-08-28", "2025-08-29", "2025-08-30"]);
    let dates = week_dates(date(2025, 9, 1), "29.9.-3.10.", 3).unwrap();
    assert_eq!(dates, vec!["2025-09-29", "2025-09-30", "2025-10-01"]);
    assert!(week_dates(date(2025, 9, 1), "x", 5).is_none());
    assert!(week_dates(date(2025, 2, 10), "30.-31.", 2).is_none());
    assert_eq!(week_dates(date(2025, 2, 10), "3.", 0).unwrap(), Vec::<String>::new());
}

#[test]
fn week_dates_take_the_month_from_the_label() {
    let dates = week_dates(date(2025, 9, 2), "26.-30.8.", 3).unwrap();
    assert_eq!(dates, vec!["2025-08-26", "2025-08-27", "2025-08-28"]);
    let dates = week_dates(date(2025, 10, 2), "29.9.-3.10.", 3).unwrap();
    assert_eq!(dates, vec!["2025-09-29", "2025-09-30", "2025-10-01"]);
    let dates = week_dates(date(2026, 1, 2), "29.12.-2.1.", 4).unwrap();
    assert_eq!(dates, vec!["2025-12-29", "2025-12-30", "2025-12-31", "2026-01-01"]);
    let dates = week_dates(date(2025, 12, 30), "5.1.-9.1.", 1).unwrap();
    assert_eq!(dates, vec!["2026-01-05"]);
    let dates = week_dates(date(2025, 9, 2), "7.", 1).unwrap();
    assert_eq!(dates, vec!["2025-09-07"]);
}
