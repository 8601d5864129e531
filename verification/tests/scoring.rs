use fund_core::scoring::{bond_fund, combine_scores, select_benchmark, SubScores};

fn subs(r: u32, k: u32, s: u32, f: u32, sc: u32, m: u32, st: u32) -> SubScores {
    SubScores {
        return_s: r,
        risk_s: k,
        stability_s: s,
        fee_s: f,
        scale_s: sc,
        manager_s: m,
        style_s: st,
    }
}

#[test]
fn benchmark_prefers_tracked_index() {
    assert_eq!(select_benchmark("指数型-股票", "000905"), "000905");
    assert_eq!(select_benchmark("债券型-长债", ""), "H11001");
    assert_eq!(select_benchmark("混合型-偏股", ""), "000300");
    assert_eq!(select_benchmark("", ""), "000300");
}

#[test]
fn bond_detection() {
    assert!(bond_fund("债券型-混合二级"));
    assert!(bond_fund("混合型-偏债"));
    assert!(!bond_fund("股票型"));
}

#[test]
fn equity_weights() {
    let b = combine_scores("混合型-偏股", &subs(80, 70, 65, 55, 90, 80, 70));
    // 80*25 + 70*30 + 65*15 + 55*10 + 90*10 + 80*5 + 70*5 = 7275
    assert_eq!(b.overall, 72);
    let names: Vec<&str> = b.items.iter().map(|i| i.name.as_str()).collect();
    assert_eq!(names, vec!["收益", "风险", "稳定", "费用", "规模", "经理", "风格"]);
    let weights: Vec<u32> = b.items.iter().map(|i| i.weight).collect();
    assert_eq!(weights, vec![25, 30, 15, 10, 10, 5, 5]);
    let scores: Vec<u32> = b.items.iter().map(|i| i.score).collect();
    assert_eq!(scores, vec![80, 70, 65, 55, 90, 80, 70]);
}

#[test]
fn bond_weights() {
    let b = combine_scores("债券型-中长债", &subs(80, 70, 65, 55, 90, 80, 70));
    // 80*15 + 70*30 + 65*20 + 55*15 + 90*10 + 80*5 + 70*5 = 7075
    assert_eq!(b.overall, 70);
    let weights: Vec<u32> = b.items.iter().map(|i| i.weight).collect();
    assert_eq!(weights, vec![15, 30, 20, 15, 10, 5, 5]);
}

#[test]
fn overall_lies_between_partial_scores() {
    let cases = [
        subs(95, 50, 90, 40, 55, 60, 70),
        subs(50, 50, 50, 50, 50, 50, 50),
        subs(0, 95, 0, 95, 0, 95, 0),
    ];
    for s in cases.iter() {
        let all = [s.return_s, s.risk_s, s.stability_s, s.fee_s, s.scale_s, s.manager_s, s.style_s];
        let lo = *all.iter().min().unwrap();
        let hi = *all.iter().max().unwrap();
        for t in ["债券型", "股票型"] {
            let o = combine_scores(t, s).overall;
            assert!(lo <= o && o <= hi);
        }
    }
    assert_eq!(combine_scores("股票型", &subs(50, 50, 50, 50, 50, 50, 50)).overall, 50);
}

#[test]
fn largest_weighted_sum() {
    let s = subs(42949672, 42949672, 42949672, 42949672, 42949672, 42949672, 42949672);
    assert_eq!(combine_scores("股票型", &s).overall, 42949672);
    assert_eq!(combine_scores("债券型", &s).overall, 42949672);
}
