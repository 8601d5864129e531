use fund_core::config::config_path_from;
use fund_core::holdings::{
    classify, covered_dates, date_days, day_window, group_by_code, window_points, period_reference, quarter_label, RangeError, HISTORY_DAYS,
    MONTH_DAYS, WEEK_DAYS,
};

#[test]
fn asset_classes() {
    assert_eq!(classify("货币型"), "货币");
    assert_eq!(classify("债券型-混合二级"), "债券");
    assert_eq!(classify("QDII-股票"), "QDII");
    assert_eq!(classify("指数型-股票"), "指数");
    assert_eq!(classify("ETF联接"), "指数");
    assert_eq!(classify("股票型"), "股票");
    assert_eq!(classify("混合型-偏债"), "混合");
    assert_eq!(classify("FOF-稳健型"), "FOF");
    assert_eq!(classify(""), "未知");
    assert_eq!(classify("REITs"), "其他");
}

#[test]
fn approximate_day_numbers() {
    assert_eq!(date_days("2026-05-29"), Some(2026 * 365 + 5 * 30 + 29));
    assert_eq!(date_days("2026-05"), None);
    assert_eq!(date_days("2026-05-29-x"), None);
    assert_eq!(date_days("-1-2-3"), None);
    assert_eq!(date_days("a-b-c"), None);
    assert_eq!((HISTORY_DAYS, WEEK_DAYS, MONTH_DAYS), (35, 7, 30));
}

fn strings(v: &[&str]) -> Vec<String> {
    v.iter().map(|s| s.to_string()).collect()
}

#[test]
fn reference_points_of_windows() {
    let dates = strings(&["2026-05-29", "2026-05-28", "2026-05-22", "2026-05-21", "2026-04-28"]);
    let d0 = date_days("2026-05-29").unwrap();
    let nonzero = vec![true; 5];
    assert_eq!(period_reference(&dates, &nonzero, d0, WEEK_DAYS), Some(2));
    assert_eq!(period_reference(&dates, &nonzero, d0, MONTH_DAYS), Some(4));
    // A zero net value is skipped.
    let skip = vec![true, true, false, true, true];
    assert_eq!(period_reference(&dates, &skip, d0, WEEK_DAYS), Some(3));
    // No point is old enough: the oldest one is used, unless its value is zero.
    assert_eq!(period_reference(&dates, &nonzero, d0, 100), Some(4));
    let last_zero = vec![true, true, true, true, false];
    assert_eq!(period_reference(&dates, &last_zero, d0, 100), None);
    assert_eq!(period_reference(&[], &[], d0, WEEK_DAYS), None);
}

#[test]
fn quarter_headings() {
    assert_eq!(quarter_label(2026, 5), "2026年2季度");
    assert_eq!(quarter_label(2026, 12), "2026年4季度");
    assert_eq!(quarter_label(2026, 1), "2026年1季度");
    assert_eq!(quarter_label(2026, 0), "2026年1季度");
    assert_eq!(quarter_label(2026, 4294967295), "2026年1季度");
    assert_eq!(quarter_label(2026, 4294967293), "2026年0季度");
    assert_eq!(quarter_label(2026, 2147483649), "2026年-715827881季度");
}

#[test]
fn holdings_file_priority() {
    assert_eq!(config_path_from(Some("/tmp/h.json"), true, Some("/home/u")), "/tmp/h.json");
    assert_eq!(config_path_from(None, true, Some("/home/u")), "holdings.json");
    assert_eq!(config_path_from(None, false, Some("/home/u")), "/home/u/.fund-rs/holdings.json");
    assert_eq!(config_path_from(None, false, Some("/home/u/")), "/home/u/.fund-rs/holdings.json");
    assert_eq!(config_path_from(None, false, None), "./.fund-rs/holdings.json");
    assert_eq!(config_path_from(None, false, Some("")), ".fund-rs/holdings.json");
}

#[test]
fn backfill_windows() {
    let a = date_days("2026-03-01").unwrap();
    let b = date_days("2026-03-31").unwrap();
    assert_eq!(day_window("2026-03-01", "2026-03-31").unwrap(), (a, b));
    assert_eq!(day_window("2026-03-01", "2026-03-01").unwrap(), (a, a));
    match day_window("bad", "also bad") {
        Err(RangeError::InvalidDate(d)) => assert_eq!(d, "bad"),
        other => panic!("unexpected {:?}", other),
    }
    let e = day_window("2026-03-01", "x").unwrap_err();
    assert_eq!(e.message(), "无效日期: x");
    let e = day_window("2026-03-31", "2026-03-01").unwrap_err();
    assert_eq!(e.message(), "from (2026-03-31) 不能晚于 to (2026-03-01)");
}

#[test]
fn lots_gathered_by_fund() {
    let codes = strings(&["000171", "020359", "000171", "420002", "020359", "000171"]);
    let g = group_by_code(&codes);
    assert_eq!(g.firsts, vec![0, 1, 3]);
    assert_eq!(g.slot, vec![0, 1, 0, 2, 1, 0]);
    let empty = group_by_code(&[]);
    assert!(empty.firsts.is_empty() && empty.slot.is_empty());
}

#[test]
fn backfill_points_and_dates() {
    let dates = strings(&["2026-04-01", "2026-03-31", "bad", "2026-03-01", "2026-02-28"]);
    let a = date_days("2026-03-01").unwrap();
    let b = date_days("2026-03-31").unwrap();
    // 2026-04-01 has the same approximate day number as 2026-03-31.
    assert_eq!(window_points(&dates, a, b), vec![0, 1, 3]);
    assert!(window_points(&dates, b, a).is_empty());
    let all = strings(&["2026-03-02", "2026-03-01", "2026-03-02", "2026-02-27", "2026-03-01"]);
    assert_eq!(covered_dates(&all), strings(&["2026-02-27", "2026-03-01", "2026-03-02"]));
    assert!(covered_dates(&[]).is_empty());
}

#[test]
fn approximate_days_stay_near_calendar_days() {
    let pairs = [("2026-02-28", "2026-03-01"), ("2026-01-31", "2026-02-01"), ("2026-05-02", "2026-05-29"), ("2024-02-01", "2024-03-31")];
    for (a, b) in pairs {
        let approx = date_days(b).unwrap() - date_days(a).unwrap();
        let exact = fund_core::calendar::calendar_day_diff(a, b).unwrap();
        assert!((approx - exact).abs() <= 3);
    }
    let approx = date_days("2026-01-01").unwrap() - date_days("2025-12-31").unwrap();
    assert_eq!(approx, 5);
}
