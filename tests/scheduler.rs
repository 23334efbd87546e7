use chrono::{Duration, Utc};
use spaced_review::{
    calculate_next_review, format_day, next_review_from, next_review_on, parse_day,
    review_interval, Level,
    FIRST_EPOCH_DAY, LAST_EPOCH_DAY,
};

#[test]
fn test_calculate_next_review_again() {
    let next = calculate_next_review("2025-11-02", &Level::AGAIN);
    assert_eq!(next.unwrap(), "2025-11-03");
}

#[test]
fn test_calculate_next_review_hard() {
    let next = calculate_next_review("2025-11-02", &Level::HARD);
    assert_eq!(next.unwrap(), "2025-11-05");
}

#[test]
fn test_calculate_next_review_good() {
    let next = calculate_next_review("2025-11-02", &Level::GOOD);
    assert_eq!(next.unwrap(), "2025-11-09");
}

#[test]
fn test_calculate_next_review_easy() {
    let next = calculate_next_review("2025-11-02", &Level::EASY);
    assert_eq!(next.unwrap(), "2025-12-02");
}

#[test]
fn next_review_crosses_year_and_leap_day() {
    assert_eq!(calculate_next_review("2025-12-31", &Level::AGAIN).unwrap(), "2026-01-01");
    assert_eq!(calculate_next_review("2024-02-28", &Level::AGAIN).unwrap(), "2024-02-29");
    assert_eq!(calculate_next_review("2023-02-28", &Level::AGAIN).unwrap(), "2023-03-01");
    assert_eq!(calculate_next_review("2025-12-15", &Level::EASY).unwrap(), "2026-01-14");
}

#[test]
fn malformed_date_falls_back_to_today() {
    let expected = (Utc::now().date_naive() + Duration::days(7)).format("%Y-%m-%d").to_string();
    let next = calculate_next_review("not-a-date", &Level::GOOD).unwrap();
    assert_eq!(next, expected);
}

#[test]
fn intervals_are_fixed() {
    assert_eq!(review_interval(Level::AGAIN), 1);
    assert_eq!(review_interval(Level::HARD), 3);
    assert_eq!(review_interval(Level::GOOD), 7);
    assert_eq!(review_interval(Level::EASY), 30);
}

#[test]
fn parse_and_format_days() {
    assert_eq!(parse_day("1970-01-01"), Some(0));
    assert_eq!(parse_day("1970-01-31"), Some(30));
    assert_eq!(parse_day("2025-13-01"), None);
    assert_eq!(parse_day("nope"), None);
    assert_eq!(format_day(0).unwrap(), "1970-01-01");
    assert_eq!(format_day(20394).unwrap(), "2025-11-02");
}

#[test]
fn calendar_range_edges() {
    assert!(format_day(LAST_EPOCH_DAY).is_some());
    assert!(format_day(LAST_EPOCH_DAY + 1).is_none());
    assert!(format_day(FIRST_EPOCH_DAY).is_some());
    assert!(format_day(FIRST_EPOCH_DAY - 1).is_none());
    assert!(next_review_from(LAST_EPOCH_DAY, Level::AGAIN).is_none());
    assert!(next_review_from(LAST_EPOCH_DAY - 30, Level::EASY).is_some());
    assert!(next_review_from(i32::MAX, Level::EASY).is_none());
}

#[test]
fn malformed_date_anchors_on_given_day() {
    let today = parse_day("2025-11-02").unwrap();
    assert_eq!(next_review_on("not-a-date", Level::GOOD, today).unwrap(), "2025-11-09");
    assert_eq!(next_review_on("2025-02-30", Level::AGAIN, today).unwrap(), "2025-11-03");
    assert_eq!(next_review_on("2025-12-31", Level::HARD, today).unwrap(), "2026-01-03");
}
