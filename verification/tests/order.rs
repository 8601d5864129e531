use fund_core::order::order_by_date;

fn strings(v: &[&str]) -> Vec<String> {
    v.iter().map(|s| s.to_string()).collect()
}

#[test]
fn oldest_first_is_a_stable_sort() {
    let d = strings(&["2026-05-29", "2026-05-27", "2026-05-28", "2026-05-27"]);
    assert_eq!(order_by_date(&d, false), vec![1, 3, 2, 0]);
    let mut idx: Vec<usize> = (0..d.len()).collect();
    idx.sort_by(|a, b| d[*a].cmp(&d[*b]));
    assert_eq!(order_by_date(&d, false), idx);
}

#[test]
fn newest_first_keeps_ties_in_order() {
    let d = strings(&["2026-05-27", "2026-05-29", "2026-05-27", "2026-05-28"]);
    assert_eq!(order_by_date(&d, true), vec![1, 3, 0, 2]);
    let mut idx: Vec<usize> = (0..d.len()).collect();
    idx.sort_by(|a, b| d[*b].cmp(&d[*a]));
    assert_eq!(order_by_date(&d, true), idx);
    assert!(order_by_date(&[], true).is_empty());
}
