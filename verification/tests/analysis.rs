use fund_core::analysis::{as_of, wants_top_bonds, wants_top_stocks, SectionDates};
use fund_core::retry::retry_delay_ms;

fn strings(v: &[&str]) -> Vec<String> {
    v.iter().map(|s| s.to_string()).collect()
}

#[test]
fn holdings_reports_to_fetch() {
    assert!(wants_top_stocks("债券型-混合二级"));
    assert!(wants_top_stocks("债券型-中长债"));
    assert!(!wants_top_stocks("债券型-中短债"));
    assert!(!wants_top_stocks("货币型"));
    assert!(!wants_top_stocks("债券型-纯债"));
    assert!(wants_top_bonds("债券型-纯债"));
    assert!(!wants_top_bonds("股票型"));
}

#[test]
fn section_freshness() {
    let d = SectionDates {
        nav_history: strings(&["2026-05-29", "2026-05-28"]),
        nav_trend: strings(&["2026-05-20", "2026-05-29", "2026-05-21"]),
        accumulated_return: strings(&["2026-01-02", "2026-05-28"]),
        monthly_series: strings(&["2026-03", "2026-04"]),
        top_stocks: Some("2026-03-31".to_string()),
        top_bonds: None,
        asset_allocation: strings(&["2026-03-31", "2025-12-31"]),
        scale_changes: vec![],
        holder_structure: strings(&["2025-12-31"]),
    };
    let a = as_of(&d);
    assert_eq!(a.nav_history.as_deref(), Some("2026-05-29"));
    assert_eq!(a.nav_trend.as_deref(), Some("2026-05-29"));
    assert_eq!(a.accumulated_return.as_deref(), Some("2026-05-28"));
    assert_eq!(a.monthly_series.as_deref(), Some("2026-04"));
    assert_eq!(a.top_stocks.as_deref(), Some("2026-03-31"));
    assert_eq!(a.top_bonds, None);
    assert_eq!(a.asset_allocation.as_deref(), Some("2026-03-31"));
    assert_eq!(a.scale_changes, None);
    assert_eq!(a.holder_structure.as_deref(), Some("2025-12-31"));
}

#[test]
fn back_off_schedule() {
    assert_eq!(retry_delay_ms(0, 3), Some(100));
    assert_eq!(retry_delay_ms(1, 3), Some(200));
    assert_eq!(retry_delay_ms(2, 3), Some(400));
    assert_eq!(retry_delay_ms(3, 3), None);
    assert_eq!(retry_delay_ms(0, 0), None);
}
