//! The benchmark a fund is measured against, and how its seven partial
//! scores combine into one overall score.
use vstd::prelude::*;
use crate::text::{chars_of, contains, contains_in};

verus! {

broadcast use {vstd::string::group_string_axioms, vstd::slice::group_slice_axioms};

/// A fund type that counts as a bond fund: its name mentions 债.
pub open spec fn is_bond_type(fund_type: Seq<char>) -> bool {
    contains(fund_type, "债"@)
}

/// The benchmark index: the fund's own tracked index when it names one, the
/// ChinaBond aggregate (H11001) for bond funds, the CSI 300 (000300) otherwise.
pub open spec fn benchmark_of(fund_type: Seq<char>, index_code: Seq<char>) -> Seq<char> {
    if index_code.len() > 0 {
        index_code
    } else if is_bond_type(fund_type) {
        "H11001"@
    } else {
        "000300"@
    }
}

/// Chooses the index that excess returns are measured against.
pub fn select_benchmark(fund_type: &str, index_code: &str) -> (r: String)
    ensures
        r@ == benchmark_of(fund_type@, index_code@),
{
    if !index_code.is_empty() {
        return index_code.to_owned();
    }
    if bond_fund(fund_type) {
        String::from_str("H11001")
    } else {
        String::from_str("000300")
    }
}

/// Whether a fund of type `fund_type` is scored as a bond fund.
pub fn bond_fund(fund_type: &str) -> (b: bool)
    ensures
        b == is_bond_type(fund_type@),
{
    contains_in(&chars_of(fund_type), &chars_of("债"))
}

/// The seven partial scores of a fund, each out of 100.
#[derive(Debug, Clone, Copy, PartialEq, Eq, Structural)]
pub struct SubScores {
    pub return_s: u32,
    pub risk_s: u32,
    pub stability_s: u32,
    pub fee_s: u32,
    pub scale_s: u32,
    pub manager_s: u32,
    pub style_s: u32,
}

/// One line of a score breakdown.
#[derive(Debug, Clone)]
pub struct ScoreItem {
    pub name: String,
    pub score: u32,
    pub weight: u32,
}

/// The overall score and the partial scores it was made of.
#[derive(Debug, Clone)]
pub struct ScoreBreakdown {
    pub overall: u32,
    pub items: Vec<ScoreItem>,
}

/// The partial scores in breakdown order.
pub open spec fn score_seq(s: SubScores) -> Seq<int> {
    seq![
        s.return_s as int,
        s.risk_s as int,
        s.stability_s as int,
        s.fee_s as int,
        s.scale_s as int,
        s.manager_s as int,
        s.style_s as int,
    ]
}

/// The weights (percent) of the partial scores: bond funds weigh risk,
/// stability and fees more and returns less.
pub open spec fn weight_seq(bond: bool) -> Seq<int> {
    if bond {
        seq![15int, 30, 20, 15, 10, 5, 5]
    } else {
        seq![25int, 30, 15, 10, 10, 5, 5]
    }
}

/// The names of the partial scores: return, risk, stability, fees, size,
/// manager, style.
pub open spec fn score_names() -> Seq<Seq<char>> {
    seq!["收益"@, "风险"@, "稳定"@, "费用"@, "规模"@, "经理"@, "风格"@]
}

/// The sum of `scores[i] * weights[i]`.
pub open spec fn weighted_sum(scores: Seq<int>, weights: Seq<int>) -> int
    decreases scores.len(),
{
    if scores.len() == 0 {
        0
    } else {
        weighted_sum(scores.drop_last(), weights.drop_last()) + scores.last() * weights.last()
    }
}

/// The overall score: the weighted mean of the partial scores, rounded down.
pub open spec fn overall_score(bond: bool, s: SubScores) -> int {
    weighted_sum(score_seq(s), weight_seq(bond)) / 100
}

/// The weighted sum of the partial scores fits in 32 bits.
pub open spec fn scores_fit(bond: bool, s: SubScores) -> bool {
    weighted_sum(score_seq(s), weight_seq(bond)) <= u32::MAX
}

proof fn lemma_weighted_sum_seven(a: Seq<int>, w: Seq<int>)
    requires
        a.len() == 7,
        w.len() == 7,
    ensures
        weighted_sum(a, w) == a[0] * w[0] + a[1] * w[1] + a[2] * w[2] + a[3] * w[3] + a[4] * w[4]
            + a[5] * w[5] + a[6] * w[6],
{
    reveal_with_fuel(weighted_sum, 8);
    assert(a.drop_last().drop_last().drop_last().drop_last().drop_last().drop_last().drop_last().len() == 0);
}

/// Combines the partial scores of a fund of type `fund_type` into its
/// overall score, and lists each partial score with its name and weight.
pub fn combine_scores(fund_type: &str, s: &SubScores) -> (r: ScoreBreakdown)
    requires
        scores_fit(is_bond_type(fund_type@), *s),
    ensures
        r.overall == overall_score(is_bond_type(fund_type@), *s),
        r.items@.len() == 7,
        forall|i: int|
            0 <= i < 7 ==> {
                &&& (#[trigger] r.items@[i]).name@ == score_names()[i]
                &&& r.items@[i].score == score_seq(*s)[i]
                &&& r.items@[i].weight == weight_seq(is_bond_type(fund_type@))[i]
            },
{
    let bond = bond_fund(fund_type);
    let w: [u32; 7] = if bond {
        [15, 30, 20, 15, 10, 5, 5]
    } else {
        [25, 30, 15, 10, 10, 5, 5]
    };
    let v: [u32; 7] = [s.return_s, s.risk_s, s.stability_s, s.fee_s, s.scale_s, s.manager_s, s.style_s];
    let ghost sv = score_seq(*s);
    let ghost wv = weight_seq(bond);
    assert(forall|i: int| 0 <= i < 7 ==> v@[i] == sv[i] && w@[i] == wv[i]);
    proof {
        lemma_weighted_sum_seven(sv, wv);
    }
    let total: u32 = if bond {
        assert(wv[0] == 15 && wv[1] == 30 && wv[2] == 20 && wv[3] == 15 && wv[4] == 10 && wv[5]
            == 5 && wv[6] == 5);
        s.return_s * 15 + s.risk_s * 30 + s.stability_s * 20 + s.fee_s * 15 + s.scale_s * 10
            + s.manager_s * 5 + s.style_s * 5
    } else {
        assert(wv[0] == 25 && wv[1] == 30 && wv[2] == 15 && wv[3] == 10 && wv[4] == 10 && wv[5]
            == 5 && wv[6] == 5);
        s.return_s * 25 + s.risk_s * 30 + s.stability_s * 15 + s.fee_s * 10 + s.scale_s * 10
            + s.manager_s * 5 + s.style_s * 5
    };
    let names = [
        String::from_str("收益"),
        String::from_str("风险"),
        String::from_str("稳定"),
        String::from_str("费用"),
        String::from_str("规模"),
        String::from_str("经理"),
        String::from_str("风格"),
    ];
    let mut items: Vec<ScoreItem> = Vec::new();
    let mut i: usize = 0;
    while i < 7
        invariant
            i <= 7,
            items@.len() == i,
            forall|j: int| 0 <= j < 7 ==> v@[j] == sv[j] && w@[j] == wv[j],
            forall|j: int| 0 <= j < 7 ==> (#[trigger] names@[j])@ == score_names()[j],
            forall|j: int|
                0 <= j < i ==> {
                    &&& (#[trigger] items@[j]).name@ == score_names()[j]
                    &&& items@[j].score == sv[j]
                    &&& items@[j].weight == wv[j]
                },
        decreases 7 - i,
    {
        let name = names[i].clone();
        items.push(ScoreItem { name, score: v[i], weight: w[i] });
        i = i + 1;
    }
    ScoreBreakdown { overall: total / 100, items }
}

/// The overall score lies between the lowest and the highest partial score:
/// the weights add up to 100.
pub proof fn lemma_overall_between(bond: bool, s: SubScores, lo: int, hi: int)
    requires
        forall|i: int| 0 <= i < 7 ==> lo <= #[trigger] score_seq(s)[i] <= hi,
    ensures
        lo <= overall_score(bond, s) <= hi,
{
    let a = score_seq(s);
    let w = weight_seq(bond);
    lemma_weighted_sum_seven(a, w);
    assert(lo <= a[0] <= hi && lo <= a[1] <= hi && lo <= a[2] <= hi && lo <= a[3] <= hi && lo
        <= a[4] <= hi && lo <= a[5] <= hi && lo <= a[6] <= hi);
    if bond {
        assert(w[0] == 15 && w[1] == 30 && w[2] == 20 && w[3] == 15 && w[4] == 10 && w[5] == 5
            && w[6] == 5);
        assert(weighted_sum(a, w) == 15 * a[0] + 30 * a[1] + 20 * a[2] + 15 * a[3] + 10 * a[4] + 5
            * a[5] + 5 * a[6]);
    } else {
        assert(w[0] == 25 && w[1] == 30 && w[2] == 15 && w[3] == 10 && w[4] == 10 && w[5] == 5
            && w[6] == 5);
        assert(weighted_sum(a, w) == 25 * a[0] + 30 * a[1] + 15 * a[2] + 10 * a[3] + 10 * a[4] + 5
            * a[5] + 5 * a[6]);
    }
    assert(100 * lo <= weighted_sum(a, w) <= 100 * hi);
}


/// A fund with a tracked index is measured against that index. Without one,
/// the benchmark is the ChinaBond aggregate (H11001) exactly when the fund
/// type mentions 债 and the CSI 300 (000300) otherwise, so a fund is a bond
/// fund for its benchmark exactly when it is one for its score weights.
pub proof fn lemma_benchmark_choice(fund_type: Seq<char>, index_code: Seq<char>)
    ensures
        index_code.len() > 0 ==> benchmark_of(fund_type, index_code) == index_code,
        index_code.len() == 0 ==> (benchmark_of(fund_type, index_code) == "H11001"@ <==> contains(
            fund_type,
            "债"@,
        )),
        index_code.len() == 0 ==> (benchmark_of(fund_type, index_code) == "000300"@ <==> !contains(
            fund_type,
            "债"@,
        )),
        index_code.len() == 0 ==> (benchmark_of(fund_type, index_code) == "H11001"@ <==> weight_seq(
            is_bond_type(fund_type),
        ) == seq![15int, 30, 20, 15, 10, 5, 5]),
{
    reveal_strlit("H11001");
    reveal_strlit("000300");
    assert("H11001"@[0] != "000300"@[0]);
    lemma_bond_weights(fund_type);
    assert(seq![25int, 30, 15, 10, 10, 5, 5][0] != seq![15int, 30, 20, 15, 10, 5, 5][0]);
}

/// A fund type that mentions 债 (中短债, 纯债, 偏债 and the like included)
/// is scored with the bond weights 15/30/20/15/10/5/5; any other with the
/// equity weights 25/30/15/10/10/5/5.
pub proof fn lemma_bond_weights(fund_type: Seq<char>)
    ensures
        contains(fund_type, "债"@) ==> weight_seq(is_bond_type(fund_type)) == seq![
            15int,
            30,
            20,
            15,
            10,
            5,
            5,
        ],
        !contains(fund_type, "债"@) ==> weight_seq(is_bond_type(fund_type)) == seq![
            25int,
            30,
            15,
            10,
            10,
            5,
            5,
        ],
{
}

/// The overall score of a fund whose type mentions 债 is its partial
/// scores weighted 15/30/20/15/10/5/5, summed and divided by 100 (rounded
/// down); for any other type the weights are 25/30/15/10/10/5/5.
pub proof fn lemma_overall_formula(fund_type: Seq<char>, s: SubScores)
    ensures
        contains(fund_type, "债"@) ==> overall_score(is_bond_type(fund_type), s) == (15
            * s.return_s + 30 * s.risk_s + 20 * s.stability_s + 15 * s.fee_s + 10 * s.scale_s + 5
            * s.manager_s + 5 * s.style_s) / 100,
        !contains(fund_type, "债"@) ==> overall_score(is_bond_type(fund_type), s) == (25
            * s.return_s + 30 * s.risk_s + 15 * s.stability_s + 10 * s.fee_s + 10 * s.scale_s + 5
            * s.manager_s + 5 * s.style_s) / 100,
{
    lemma_bond_weights(fund_type);
    let w = weight_seq(is_bond_type(fund_type));
    lemma_weighted_sum_seven(score_seq(s), w);
    assert(w[0] == seq![15int, 30, 20, 15, 10, 5, 5][0] || w[0] == 25);
}

} // verus!
