use fund_core::f10::{
    amount_text, content_rows, detect_holding_constraints, extract_end_date, extract_period,
    extract_str_field, fee_rules_url, get_fee_rules, get_industry_list, holder_structure_url,
    industry_detail_url, industry_list_url, parse_fee_rules, parse_min_holding_days, percent_text,
    read_report_table, scale_changes_url, top_bonds_url, top_stocks_url,
};
use fund_core::f10::extract_box_section;
use fund_core::html::parse_table_rows;
use fund_core::quarter::latest_quarter_end;

const FEE_PAGE: &str = "<div class=\"box\"><div class=\"boxitem w790\"><h4 class=\"t\"><label class=\"left\">申购费率（前端）</label></h4><div class=\"boxcontent\"><table><thead><tr><th>适用金额</th><th>费率</th></tr></thead><tbody><tr><td>小于100万元</td><td><strike>1.50%</strike> | 0.15%</td></tr><tr><td>大于等于100万元</td><td>每笔1000元</td></tr></tbody></table></div></div><div class=\"box\"><div class=\"boxitem w790\"><h4 class=\"t\"><label class=\"left\">赎回费率</label></h4><div class=\"boxcontent\"><table><tbody><tr><td>小于7天</td><td>1.50%</td></tr><tr><td>大于等于7天</td><td>0.00%</td></tr></tbody></table></div></div><div class=\"box\">";

const JJCC_BODY: &str = "var apidata={ content:\"<div class='box'><h4><label class='left'><a>易方达</a>&nbsp;&nbsp;2026年1季度股票投资明细</label>&nbsp;&nbsp;&nbsp;&nbsp;<span>截止至：<font class='px12'>2026-03-31</font></span></h4><table><thead><tr><th>序号</th></tr></thead><tbody><tr><td>1</td><td>600519</td><td><a href='x'>贵州茅台</a></td><td>9.87%</td></tr><tr><td>2</td><td>000858</td><td>五粮液</td><td>1,234.50</td></tr></tbody></table></div>\",arryear:[2026,2025]};";

#[test]
fn fee_tables_are_read_by_section() {
    let rules = get_fee_rules(FEE_PAGE);
    let purchase: Vec<(&str, &str)> =
        rules.purchase.iter().map(|r| (r.scope.as_str(), r.rate.as_str())).collect();
    assert_eq!(purchase, vec![("小于100万元", "1.50% | 0.15%"), ("大于等于100万元", "每笔1000元")]);
    let redemption: Vec<(&str, &str)> =
        rules.redemption.iter().map(|r| (r.scope.as_str(), r.rate.as_str())).collect();
    assert_eq!(redemption, vec![("小于7天", "1.50%"), ("大于等于7天", "0.00%")]);
}

#[test]
fn fee_page_without_sections() {
    let rules = get_fee_rules("<html>no tables</html>");
    assert!(rules.purchase.is_empty());
    assert!(rules.redemption.is_empty());
}

#[test]
fn fee_rows_need_two_cells() {
    let rows = parse_fee_rules("<table><tbody><tr><td>only</td></tr><tr><td>a</td><td>b</td><td>c</td></tr></tbody></table>");
    assert_eq!(rows.len(), 1);
    assert_eq!(rows[0].scope, "a");
    assert_eq!(rows[0].rate, "b");
}

#[test]
fn string_fields() {
    assert_eq!(extract_str_field("x={quarter:\"2026年1季度\",a:1}", "quarter"), Some("2026年1季度".to_string()));
    assert_eq!(extract_str_field("x={content:\"\"}", "content"), Some(String::new()));
    assert_eq!(extract_str_field("x={content:\"open", "content"), None);
    assert_eq!(extract_str_field("nothing here", "content"), None);
}

#[test]
fn end_date_is_first_date_pattern() {
    assert_eq!(
        extract_end_date("<font class='px12'>2026-03-31</font> 2025-12-31"),
        Some("2026-03-31".to_string())
    );
    assert_eq!(extract_end_date("2026-3-31 and 20260331"), None);
    assert_eq!(extract_end_date(""), None);
}

#[test]
fn period_prefers_quarter_field() {
    assert_eq!(
        extract_period("var x={quarter:\"2025年4季度\",content:\"2026年1季度&nbsp;&nbsp;\"}"),
        Some("2025年4季度".to_string())
    );
    assert_eq!(extract_period(JJCC_BODY), Some("2026年1季度股票投资明细".to_string()));
    assert_eq!(extract_period("var x={content:\"no year here\"}"), None);
    assert_eq!(extract_period("var x={}"), None);
}

#[test]
fn report_table_of_stock_holdings() {
    let t = read_report_table(JJCC_BODY);
    assert_eq!(t.period, "2026年1季度股票投资明细");
    assert_eq!(t.end_date, "2026-03-31");
    assert_eq!(
        t.rows,
        vec![
            vec!["1".to_string(), "600519".to_string(), "贵州茅台".to_string(), "9.87%".to_string()],
            vec!["2".to_string(), "000858".to_string(), "五粮液".to_string(), "1,234.50".to_string()],
        ]
    );
    assert_eq!(content_rows(JJCC_BODY), t.rows);
    let empty = read_report_table("var apidata={};");
    assert_eq!(empty.period, "");
    assert_eq!(empty.end_date, "");
    assert!(empty.rows.is_empty());
}

#[test]
fn number_texts_of_cells() {
    assert_eq!(percent_text(" 9.87% "), "9.87");
    assert_eq!(percent_text("1,234.5%%"), "1234.5");
    assert_eq!(amount_text(" 1,234,567.00 "), "1234567.00");
    assert_eq!(amount_text("--"), "--");
}

#[test]
fn industry_list_keeps_csrc_letters() {
    let body = r#"var apidata={hylx:[["A","农、林、牧、渔业"],["C","制造业"],["20","工业"],["K", "房地产,业"],["ZZZ","合计"]]};"#;
    let list = get_industry_list(body);
    assert_eq!(
        list,
        vec![
            ("A".to_string(), "农、林、牧、渔业".to_string()),
            ("C".to_string(), "制造业".to_string()),
            ("K".to_string(), "房地产,业".to_string()),
        ]
    );
    assert!(get_industry_list("no list").is_empty());
    assert!(get_industry_list("hylx:[[\"A\",\"x\"]]").is_empty());
}

#[test]
fn holding_days_from_names() {
    assert_eq!(parse_min_holding_days("易方达稳健90天持有A"), Some(90));
    assert_eq!(parse_min_holding_days("3年封闭运作"), Some(1095));
    assert_eq!(parse_min_holding_days("持有期6月"), Some(180));
    assert_eq!(parse_min_holding_days("180天或1年持有"), Some(365));
    assert_eq!(parse_min_holding_days("持有 6 个月"), Some(180));
    assert_eq!(parse_min_holding_days("6个月持有期"), Some(180));
    assert_eq!(parse_min_holding_days("持有 3 年"), Some(1095));
    assert_eq!(parse_min_holding_days("持有 6 个 月"), Some(180));
    assert_eq!(parse_min_holding_days("持有 6 只"), None);
    assert_eq!(parse_min_holding_days("90天"), None);
    assert_eq!(parse_min_holding_days("0天持有"), None);
    assert_eq!(parse_min_holding_days("99999999999年持有"), Some(u32::MAX));
}

#[test]
fn holding_constraints_prefer_full_name() {
    let c = detect_holding_constraints("稳健90天持有A", "某某稳健收益债券型证券投资基金");
    assert_eq!(c.features, "某某稳健收益债券型证券投资基金");
    assert_eq!(c.min_holding_days, Some(90));
    assert_eq!(c.purchase_status, "");
    assert_eq!(c.redemption_status, "");
    let d = detect_holding_constraints("优选3年封闭运作", "");
    assert_eq!(d.features, "优选3年封闭运作");
    assert_eq!(d.min_holding_days, Some(1095));
    let e = detect_holding_constraints("普通A", "普通证券投资基金");
    assert_eq!(e.min_holding_days, None);
}

#[test]
fn archive_urls() {
    assert_eq!(
        top_stocks_url("000171", 2026, 3),
        "https://fundf10.eastmoney.com/FundArchivesDatas.aspx?type=jjcc&code=000171&topline=10&year=2026&month=03&rt=0"
    );
    assert_eq!(
        top_bonds_url("000171", 2025, 12),
        "https://fundf10.eastmoney.com/FundArchivesDatas.aspx?type=zqcc&code=000171&year=2025&month=12&rt=0"
    );
    assert_eq!(fee_rules_url("000171"), "https://fundf10.eastmoney.com/jjfl_000171.html");
    assert_eq!(
        industry_list_url("000171"),
        "https://fundf10.eastmoney.com/F10DataApi.aspx?pt=1&type=hylx&code=000171&rt=0"
    );
    assert_eq!(
        industry_detail_url("000171", "C"),
        "https://fundf10.eastmoney.com/F10DataApi.aspx?pt=1&type=hyxq&code=000171&hydm=C&rt=0"
    );
    assert_eq!(
        scale_changes_url("000171"),
        "https://fundf10.eastmoney.com/FundArchivesDatas.aspx?type=gmbd&mode=&code=000171&rt=0"
    );
    assert_eq!(
        holder_structure_url("000171"),
        "https://fundf10.eastmoney.com/FundArchivesDatas.aspx?type=cyrjg&code=000171&rt=0"
    );
}

#[test]
fn quarter_ends() {
    assert_eq!(latest_quarter_end(2026, 1), (2025, 9));
    assert_eq!(latest_quarter_end(2026, 2), (2025, 9));
    assert_eq!(latest_quarter_end(2026, 3), (2025, 12));
    assert_eq!(latest_quarter_end(2026, 4), (2025, 12));
    assert_eq!(latest_quarter_end(2026, 5), (2026, 3));
    assert_eq!(latest_quarter_end(2026, 7), (2026, 3));
    assert_eq!(latest_quarter_end(2026, 8), (2026, 6));
    assert_eq!(latest_quarter_end(2026, 10), (2026, 6));
    assert_eq!(latest_quarter_end(2026, 11), (2026, 9));
    assert_eq!(latest_quarter_end(2026, 12), (2026, 9));
    // Each quarter end lags its month by two to five months.
    for m in 1..=12u32 {
        let (qy, qm) = latest_quarter_end(2026, m);
        assert!(qm % 3 == 0);
        let lag = (2026 * 12 + m as i64) - (qy as i64 * 12 + qm as i64);
        assert!((2..=5).contains(&lag));
    }
}

#[test]
fn boxes_of_a_page() {
    let sec = extract_box_section(FEE_PAGE, "赎回费率").unwrap();
    assert!(sec.starts_with("<label class=\"left\">赎回费率"));
    assert!(sec.ends_with("</tbody></table>"));
    assert_eq!(parse_table_rows(&sec).len(), 2);
    assert!(extract_box_section(FEE_PAGE, "运作费用").is_none());
    let tail = extract_box_section("<label class=\"left\">x</label>rest", "x").unwrap();
    assert_eq!(tail, "<label class=\"left\">x</label>rest");
}
