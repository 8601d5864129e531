use fund_core::models::{FundRankParams, FundSearchItem, FundSearchResult};

#[test]
fn search_hits_become_results() {
    let r = FundSearchResult::from(FundSearchItem::new(
        "000171".to_string(),
        "易方达裕丰A".to_string(),
        Some("债券型-混合二级".to_string()),
    ));
    assert_eq!(r.code, "000171");
    assert_eq!(r.name, "易方达裕丰A");
    assert_eq!(r.fund_type, "债券型-混合二级");
    let bare = FundSearchResult::from(FundSearchItem::new("1".to_string(), "x".to_string(), None));
    assert_eq!(bare.fund_type, "");
}

#[test]
fn default_ranking_query() {
    let p = FundRankParams::default();
    assert_eq!(p.fund_type, "all");
    assert_eq!(p.sort_column, "DWJZ");
    assert_eq!(p.sort, "desc");
    assert_eq!((p.page_index, p.page_size), (1, 20));
    assert!(p.cltype.is_none() && p.buy.is_none() && p.discount.is_none());
    assert!(p.risk_level.is_none() && p.estab_date.is_none());
}
