use kondo::date::Date;
use kondo::date::format_date;
use kondo::date::month_len;
use kondo::date::parse_ymd_date;

#[test]
fn construction_validates_the_calendar() {
    assert!(Date::new(2025, 2, 28).is_some());
    assert!(Date::new(2025, 2, 30).is_none());
    assert!(Date::new(2025, 13, 1).is_none());
    assert!(Date::new(2025, 0, 5).is_none());
    assert!(Date::new(2025, 1, 0).is_none());
    assert!(Date::new(10000, 1, 1).is_none());
    assert!(Date::new(0, 1, 1).is_some());
}

#[test]
fn month_lengths() {
    assert_eq!(month_len(2025, 1), 31);
    assert_eq!(month_len(2025, 2), 28);
    assert_eq!(month_len(2024, 2), 29);
    assert_eq!(month_len(1900, 2), 28);
    assert_eq!(month_len(2000, 2), 29);
    assert_eq!(month_len(2025, 4), 30);
    assert_eq!(month_len(2025, 12), 31);
}

#[test]
fn formatting_pads_with_zeros() {
    assert_eq!(format_date(&Date::new(7, 1, 31).unwrap()), "0007-01-31");
    assert_eq!(format_date(&Date::new(2025, 12, 5).unwrap()), "2025-12-05");
}

#[test]
fn storage_format_round_trips() {
    let d = Date::new(2024, 2, 29).unwrap();
    assert_eq!(parse_ymd_date(&format_date(&d)), Some(d));
    let d = Date::new(0, 1, 1).unwrap();
    assert_eq!(parse_ymd_date(&format_date(&d)), Some(d));
}

#[test]
fn storage_format_is_strict() {
    assert_eq!(parse_ymd_date("2025-03-01"), Date::new(2025, 3, 1));
    assert!(parse_ymd_date("2025/03/01").is_none());
    assert!(parse_ymd_date("2025-3-01").is_none());
    assert!(parse_ymd_date("2025-03-01 ").is_none());
    assert!(parse_ymd_date("2025-02-30").is_none());
    assert!(parse_ymd_date("").is_none());
}

#[test]
fn adding_days_carries_months_and_years() {
    let d = Date::new(2025, 1, 31).unwrap();
    assert_eq!(d.add_days(1), Date::new(2025, 2, 1));
    let d = Date::new(2024, 2, 28).unwrap();
    assert_eq!(d.add_days(1), Date::new(2024, 2, 29));
    let d = Date::new(2025, 2, 28).unwrap();
    assert_eq!(d.add_days(1), Date::new(2025, 3, 1));
    let d = Date::new(2025, 12, 31).unwrap();
    assert_eq!(d.add_days(1), Date::new(2026, 1, 1));
    let d = Date::new(2025, 3, 1).unwrap();
    assert_eq!(d.add_days(0), Some(d));
    assert_eq!(d.add_days(365), Date::new(2026, 3, 1));
}

#[test]
fn adding_days_stops_at_the_last_representable_day() {
    let d = Date::new(9999, 12, 31).unwrap();
    assert_eq!(d.add_days(0), Some(d));
    assert_eq!(d.add_days(1), None);
    let d = Date::new(9999, 12, 30).unwrap();
    assert_eq!(d.add_days(1), Date::new(9999, 12, 31));
    assert_eq!(d.add_days(2), None);
}
