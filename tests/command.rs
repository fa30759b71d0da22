use lounasbot::command::{button_label, info_button_id, parse_day_argument, parse_decimal};
use lounasbot::command::{parse_info_button_id, period_start_day, DayArgument};
use lounasbot::schedule::{ScheduleError, ScheduleRegistry};

#[test]
fn decimal_numbers_read_like_str_parse() {
    assert_eq!(parse_decimal("0", u64::MAX), Some(0));
    assert_eq!(parse_decimal("42", u64::MAX), Some(42));
    assert_eq!(parse_decimal("+7", u64::MAX), Some(7));
    assert_eq!(parse_decimal("18446744073709551615", u64::MAX), Some(u64::MAX));
    assert_eq!(parse_decimal("18446744073709551616", u64::MAX), None);
    assert_eq!(parse_decimal("4294967296", u32::MAX as u64), None);
    assert_eq!(parse_decimal("", u64::MAX), None);
    assert_eq!(parse_decimal("+", u64::MAX), None);
    assert_eq!(parse_decimal("-1", u64::MAX), None);
    assert_eq!(parse_decimal("1a", u64::MAX), None);
    assert_eq!(parse_decimal("++1", u64::MAX), None);
}

#[test]
fn day_argument_forms() {
    assert_eq!(parse_day_argument(None), Some(DayArgument::Today));
    assert_eq!(parse_day_argument(Some("+3")), Some(DayArgument::Offset(3)));
    assert_eq!(parse_day_argument(Some("++3")), Some(DayArgument::Offset(3)));
    assert_eq!(parse_day_argument(Some("+x")), None);
    assert_eq!(parse_day_argument(Some("+")), None);
    assert_eq!(parse_day_argument(Some("2025-09-02")), Some(DayArgument::Date("2025-09-02".to_string())));
    assert_eq!(parse_day_argument(Some("")), Some(DayArgument::Date(String::new())));
}

#[test]
fn week_period_label_gives_first_day() {
    assert_eq!(period_start_day("26.-30.8."), Some(26));
    assert_eq!(period_start_day("1.9.-5.9."), Some(1));
    assert_eq!(period_start_day("7"), Some(7));
    assert_eq!(period_start_day("26.–30.8."), Some(26));
    assert_eq!(period_start_day(".5."), None);
    assert_eq!(period_start_day("viikko 36"), None);
}

#[test]
fn button_labels_are_cut_at_the_limit() {
    assert_eq!(button_label("Kasvissosekeitto"), "Kasvissosekeitto");
    let name79 = "ä".repeat(79);
    assert_eq!(button_label(&name79), name79);
    let name80 = "ö".repeat(80);
    let label = button_label(&name80);
    assert_eq!(label.chars().count(), 80);
    assert_eq!(label, format!("{}...", "ö".repeat(77)));
}

#[test]
fn info_button_ids_round_trip() {
    let id = info_button_id("2025-09-02", "101");
    assert_eq!(id, "infoday_2025-09-02_101");
    assert_eq!(parse_info_button_id(&id), Some(("2025-09-02".to_string(), "101".to_string())));
    assert_eq!(parse_info_button_id("infoday"), None);
    assert_eq!(parse_info_button_id("other_2025-09-02_101"), None);
    assert_eq!(parse_info_button_id("infoday_a_b_c"), Some(("b".to_string(), "c".to_string())));
}

#[test]
fn listing_shows_channel_jobs_or_a_notice() {
    let mut reg = ScheduleRegistry::new();
    assert_eq!(reg.listing(1), "Ei ajastettuja ruokalistoja");
    reg.add_with_id("0 0 7 * * *".to_string(), 1, 0x67e5504410b1426f9247bb680e5fe0c8).unwrap();
    reg.add_with_id("0 0 8 * * *".to_string(), 2, 2).unwrap();
    reg.add_with_id("0 0 9 * * *".to_string(), 1, 3).unwrap();
    assert_eq!(
        reg.listing(1),
        "`67e55044-10b1-426f-9247-bb680e5fe0c8` - `0 0 7 * * *`\n`00000000-0000-0000-0000-000000000003` - `0 0 9 * * *`"
    );
    assert_eq!(reg.listing(3), "Ei ajastettuja ruokalistoja");
}

#[test]
fn remove_by_text_parses_the_identifier() {
    let mut reg = ScheduleRegistry::new();
    reg.add_with_id("0 0 7 * * *".to_string(), 1, 0x67e5504410b1426f9247bb680e5fe0c8).unwrap();
    assert_eq!(reg.remove_by_text("not-a-uuid"), Err(ScheduleError::InvalidId));
    assert_eq!(reg.remove_by_text("00000000-0000-0000-0000-000000000003"), Err(ScheduleError::NotFound));
    assert_eq!(reg.len(), 1);
    assert_eq!(reg.remove_by_text("67e55044-10b1-426f-9247-bb680e5fe0c8"), Ok(()));
    assert_eq!(reg.len(), 0);
}
