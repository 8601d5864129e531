use vstd::prelude::*;

verus! {

/// The most recent quarter-end whose holdings are likely published, for the
/// calendar month `month` of `year`.
pub open spec fn spec_latest_quarter_end(year: int, month: int) -> (int, int) {
    if month == 1 || month == 2 {
        (year - 1, 9)
    } else if month == 3 || month == 4 {
        (year - 1, 12)
    } else if 5 <= month <= 7 {
        (year, 3)
    } else if 8 <= month <= 10 {
        (year, 6)
    } else {
        (year, 9)
    }
}

/// Most recent quarter-end whose holdings are likely published.
///
/// Jan/Feb give last year's September, Mar/Apr last year's December,
/// May-Jul this year's March, Aug-Oct this year's June, and every other
/// month this year's September.
pub fn latest_quarter_end(year: u32, month: u32) -> (res: (u32, u32))
    requires
        (month == 1 || month == 2 || month == 3 || month == 4) ==> year >= 1,
    ensures
        (res.0 as int, res.1 as int) == spec_latest_quarter_end(year as int, month as int),
{
    match month {
        1 | 2 => (year - 1, 9),
        3 | 4 => (year - 1, 12),
        5..=7 => (year, 3),
        8..=10 => (year, 6),
        _ => (year, 9),
    }
}


/// Every calendar month maps to a quarter end (March, June, September or
/// December) that lies between two and five months before it.
pub proof fn lemma_quarter_end_lags(year: int, month: int)
    requires
        1 <= month <= 12,
    ensures
        ({
            let (qy, qm) = spec_latest_quarter_end(year, month);
            &&& qm == 3 || qm == 6 || qm == 9 || qm == 12
            &&& 2 <= (year * 12 + month) - (qy * 12 + qm) <= 5
        }),
{
}

} // verus!
