use fund_core::html::{parse_table_rows_from_section, strip_html};
use fund_core::num::{parse_i32, parse_i64, parse_u32};
use fund_core::text::latest_of;

#[test]
fn tags_are_dropped_and_spaces_collapsed() {
    assert_eq!(strip_html("<a href='x'> 贵州\n茅台 </a>"), "贵州 茅台");
    assert_eq!(strip_html("a<b>b</b>  c"), "ab c");
    assert_eq!(strip_html("<<x>>y"), "y");
    assert_eq!(strip_html("   "), "");
    let once = strip_html("<td> 1 <i>2</i> </td>");
    assert_eq!(strip_html(&once), once);
    assert_eq!(strip_html("x<y>z>w"), "xzw");
    for s in ["a<b", "a>b<c>d", "<<<", ">>>x", "<td>1 &lt; 2</td>"] {
        let t = strip_html(s);
        assert!(!t.contains('<') && !t.contains('>'));
    }
}

#[test]
fn table_rows_come_from_the_body_only() {
    let html = "<table><thead><tr><th>h</th></tr></thead><tbody><tr class='a'><td>1</td><td> x <b>y</b></td></tr><tr></tr><tr><td>2</td></tr></tbody></table><tbody><tr><td>no</td></tr></tbody>";
    let rows = parse_table_rows_from_section(html);
    assert_eq!(rows, vec![vec!["1".to_string(), "x y".to_string()], vec!["2".to_string()]]);
    assert!(parse_table_rows_from_section("<table><tr><td>1</td></tr></table>").is_empty());
    let open = parse_table_rows_from_section("<tbody><tr><td>a<td>b");
    assert_eq!(open, vec![vec!["a".to_string(), "b".to_string()]]);
}

#[test]
fn integers() {
    let c = |s: &str| s.chars().collect::<Vec<char>>();
    assert_eq!(parse_i64(&c("-42")), Some(-42));
    assert_eq!(parse_i64(&c("+7")), Some(7));
    assert_eq!(parse_i64(&c("9223372036854775808")), None);
    assert_eq!(parse_i64(&c("-9223372036854775808")), Some(i64::MIN));
    assert_eq!(parse_i64(&c("")), None);
    assert_eq!(parse_i64(&c("1 ")), None);
    assert_eq!(parse_i32(&c("2147483648")), None);
    assert_eq!(parse_u32(&c("-1")), None);
    assert_eq!(parse_u32(&c("4294967295")), Some(u32::MAX));
}

#[test]
fn latest_text() {
    let v: Vec<String> =
        ["2026-05-28", "2026-05-29", "2025-12-31"].iter().map(|s| s.to_string()).collect();
    assert_eq!(latest_of(&v), "2026-05-29");
    assert_eq!(latest_of(&[]), "");
    let w: Vec<String> = ["b", "ab", "b"].iter().map(|s| s.to_string()).collect();
    assert_eq!(latest_of(&w), "b");
}
