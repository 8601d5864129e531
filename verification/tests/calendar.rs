use fund_core::calendar::{calendar_day_diff, days_from_civil, days_to_ymd, is_leap, parse_ymd};
use fund_core::clock::{format_ymd, today_ymd, ymd_of_reading};

#[test]
fn civil_day_numbers() {
    assert_eq!(days_from_civil((1970, 1, 1)), 0);
    assert_eq!(days_from_civil((2000, 3, 1)), 11017);
    assert_eq!(days_from_civil((1969, 12, 31)), -1);
    assert_eq!(days_from_civil((2024, 2, 29)) + 1, days_from_civil((2024, 3, 1)));
    assert_eq!(days_from_civil((2026, 5, 29)), 20602);
    assert_eq!(days_from_civil((2025, 12, 31)) + 1, days_from_civil((2026, 1, 1)));
    assert_eq!(days_from_civil((2026, 4, 30)) + 1, days_from_civil((2026, 5, 1)));
}

#[test]
fn ymd_texts() {
    assert_eq!(parse_ymd("2026-05-29"), Some((2026, 5, 29)));
    assert_eq!(parse_ymd("-5-1-2"), None);
    assert_eq!(parse_ymd("2026-05"), None);
    assert_eq!(parse_ymd("2026-05-29-1"), None);
    assert_eq!(parse_ymd("2026-x-29"), None);
    assert_eq!(parse_ymd("2026--29"), None);
}

#[test]
fn day_differences() {
    assert_eq!(calendar_day_diff("2026-05-27", "2026-05-29"), Some(2));
    assert_eq!(calendar_day_diff("2024-02-28", "2024-03-01"), Some(2));
    assert_eq!(calendar_day_diff("2023-02-28", "2023-03-01"), Some(1));
    assert_eq!(calendar_day_diff("2026-05-29", "2026-05-29"), Some(0));
    assert_eq!(calendar_day_diff("2026-05-29", "2025-05-29"), Some(-365));
    assert_eq!(calendar_day_diff("bad", "2026-05-29"), None);
    let a = calendar_day_diff("2020-01-15", "2022-07-04").unwrap();
    let b = calendar_day_diff("2022-07-04", "2026-05-29").unwrap();
    assert_eq!(a + b, calendar_day_diff("2020-01-15", "2026-05-29").unwrap());
}

#[test]
fn leap_years() {
    assert!(is_leap(2024));
    assert!(is_leap(2000));
    assert!(!is_leap(1900));
    assert!(!is_leap(2026));
}

#[test]
fn dates_of_day_numbers() {
    assert_eq!(days_to_ymd(0), (1970, 1, 1));
    assert_eq!(days_to_ymd(31), (1970, 2, 1));
    assert_eq!(days_to_ymd(20602), (2026, 5, 29));
    assert_eq!(days_to_ymd(-3), (1970, 1, -2));
    for d in [0i32, 59, 365, 789, 11016, 19782, 20602] {
        let (y, m, dd) = days_to_ymd(d);
        assert_eq!(days_from_civil((y, m as u32, dd as u32)), d as i64);
    }
}

#[test]
fn clock_readings() {
    assert_eq!(ymd_of_reading(Some(0)), (1970, 1, 1));
    assert_eq!(ymd_of_reading(None), (1970, 1, 1));
    assert_eq!(ymd_of_reading(Some(1780012800)), (2026, 5, 29));
    assert_eq!(format_ymd(2026, 5, 9), "2026-05-09");
    assert_eq!(format_ymd(12345, 12, 31), "12345-12-31");
    let t = today_ymd();
    assert_eq!(t.len(), 10);
    assert!(parse_ymd(&t).is_some());
}
