use td::date::{
    due_from, due_timestamp, input_date_from, local_str_from, midnight_from, parse_input_date,
    timestamp_to_local_str, DateError,
};

#[test]
fn test() {
    let timestamp = parse_input_date("2.9.2025").unwrap();
    let str = timestamp_to_local_str(timestamp).unwrap();
    assert_eq!(&str, "2025-09-02")
}

#[test]
fn padded_input_date_round_trip() {
    let timestamp = parse_input_date("02.09.2025").unwrap();
    assert_eq!(timestamp_to_local_str(timestamp).unwrap(), "2025-09-02");
}

#[test]
fn different_dates_give_different_timestamps() {
    let first = parse_input_date("01.01.2024").unwrap();
    let second = parse_input_date("02.01.2024").unwrap();
    assert_eq!(second - first, 86_400);
    assert_eq!(timestamp_to_local_str(first).unwrap(), "2024-01-01");
    assert_eq!(timestamp_to_local_str(second).unwrap(), "2024-01-02");
}

#[test]
fn malformed_dates_are_rejected() {
    assert_eq!(parse_input_date(""), Err(DateError::Malformed));
    assert_eq!(parse_input_date("2025-09-02"), Err(DateError::Malformed));
    assert_eq!(parse_input_date("31.02.2025"), Err(DateError::Malformed));
    assert_eq!(parse_input_date("tomorrow"), Err(DateError::Malformed));
}

#[test]
fn timestamp_out_of_range_is_rejected() {
    assert_eq!(timestamp_to_local_str(i64::MAX), Err(DateError::InvalidTimestamp));
    assert_eq!(timestamp_to_local_str(i64::MIN), Err(DateError::InvalidTimestamp));
}

#[test]
fn input_date_from_each_case() {
    assert_eq!(input_date_from(None, None), Err(DateError::Malformed));
    assert_eq!(input_date_from(None, Some(5)), Err(DateError::Malformed));
    assert_eq!(input_date_from(Some((2025, 9, 2)), None), Err(DateError::NoLocalTime));
    assert_eq!(input_date_from(Some((2025, 9, 2)), Some(17)), Ok(17));
}

#[test]
fn due_timestamp_degrades_to_none() {
    assert_eq!(due_timestamp(None), None);
    assert_eq!(due_timestamp(Some("nonsense".to_string())), None);
    assert_eq!(
        due_timestamp(Some("02.09.2025".to_string())),
        Some(parse_input_date("02.09.2025").unwrap())
    );
}

#[test]
fn due_from_each_case() {
    assert_eq!(due_from(Ok(17)), Some(17));
    assert_eq!(due_from(Ok(-3)), Some(-3));
    assert_eq!(due_from(Err(DateError::Malformed)), None);
    assert_eq!(due_from(Err(DateError::NoLocalTime)), None);
}

#[test]
fn local_str_from_each_case() {
    assert_eq!(local_str_from(Some("2025-09-02".to_string())), Ok("2025-09-02".to_string()));
    assert_eq!(local_str_from(None), Err(DateError::InvalidTimestamp));
}

#[test]
fn timestamps_from_1970_to_9999_are_shown() {
    for timestamp in [0i64, 1, 86_399, 1_756_771_200, 4_102_444_800, 253_402_300_799] {
        let text = timestamp_to_local_str(timestamp).unwrap();
        assert!(text.chars().count() >= 10);
        assert_eq!(text.matches('-').count(), 2);
    }
}

#[test]
fn shown_dates_before_1970_have_ten_characters_too() {
    let text = timestamp_to_local_str(-86_400 * 400).unwrap();
    assert_eq!(text.chars().count(), 10);
    assert!(text.starts_with("196"));
}

#[test]
fn midnight_from_each_case() {
    assert_eq!(midnight_from(Some(86_400), Some(3_600)), Some(82_800));
    assert_eq!(midnight_from(Some(0), Some(-7_200)), Some(7_200));
    assert_eq!(midnight_from(Some(1_756_771_200), Some(0)), Some(1_756_771_200));
    assert_eq!(midnight_from(None, Some(0)), None);
    assert_eq!(midnight_from(Some(0), None), None);
    assert_eq!(midnight_from(None, None), None);
    assert_eq!(midnight_from(Some(i64::MIN), Some(1)), None);
    assert_eq!(midnight_from(Some(i64::MAX), Some(-1)), None);
    assert_eq!(midnight_from(Some(i64::MAX), Some(1)), Some(i64::MAX - 1));
}

#[test]
fn local_midnight_is_within_a_day_of_the_midnight_in_utc() {
    let utc_midnight_of_2025_09_02: i64 = 1_756_771_200;
    let local = parse_input_date("02.09.2025").unwrap();
    assert!((local - utc_midnight_of_2025_09_02).abs() < 86_400);
    let epoch = parse_input_date("01.01.1970").unwrap();
    assert!(epoch.abs() < 86_400);
}

#[test]
fn shown_date_is_within_a_day_of_the_date_in_utc() {
    let text = timestamp_to_local_str(1_756_771_200 + 43_200).unwrap();
    assert!(["2025-09-01", "2025-09-02", "2025-09-03"].contains(&text.as_str()));
    let text = timestamp_to_local_str(43_200).unwrap();
    assert!(["1969-12-31", "1970-01-01", "1970-01-02"].contains(&text.as_str()));
}
