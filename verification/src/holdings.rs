//! Portfolio helpers: asset classes of fund types and approximate day
//! numbers of dates.
use vstd::prelude::*;
use vstd::slice::slice_subrange;
use crate::num::{decimal, decimal_chars, parse_i64, parse_i64_spec, signed_decimal, signed_decimal_chars};
use crate::order::{comes_before, in_date_order, is_permutation, lemma_permutation_onto, order_by_date};
use crate::text::{lemma_text_lt_transitive, text_lt, chars_of, contains, contains_in, find, find_in, push_all, same_chars, string_of};

verus! {

broadcast use {vstd::string::group_string_axioms, vstd::slice::group_slice_axioms};

/// Net values fetched per fund: 30 days plus 5 days of slack for holidays.
pub const HISTORY_DAYS: i32 = 35;

/// The weekly return window, in days.
pub const WEEK_DAYS: i64 = 7;

/// The monthly return window, in days.
pub const MONTH_DAYS: i64 = 30;

/// The asset class of a fund type text (FTYPE, e.g. "债券型-混合二级"):
/// the first of 货币, 债券, QDII, 指数 (index or ETF), 股票, 混合 and FOF that
/// the text mentions, 未知 for an empty text and 其他 otherwise.
pub open spec fn asset_class(t: Seq<char>) -> Seq<char> {
    if contains(t, "货币"@) {
        "货币"@
    } else if contains(t, "债券"@) {
        "债券"@
    } else if contains(t, "QDII"@) {
        "QDII"@
    } else if contains(t, "指数"@) || contains(t, "ETF"@) {
        "指数"@
    } else if contains(t, "股票"@) {
        "股票"@
    } else if contains(t, "混合"@) {
        "混合"@
    } else if contains(t, "FOF"@) {
        "FOF"@
    } else if t.len() == 0 {
        "未知"@
    } else {
        "其他"@
    }
}

fn mentions(t: &[char], word: &str) -> (b: bool)
    ensures
        b == contains(t@, word@),
{
    let w = chars_of(word);
    contains_in(t, &w)
}

/// Maps a fund's FTYPE to its asset-class label, so that allocation rows
/// line up across commands.
pub fn classify(ftype: &str) -> (class: &'static str)
    ensures
        class@ == asset_class(ftype@),
{
    let t = chars_of(ftype);
    if mentions(&t, "货币") {
        "货币"
    } else if mentions(&t, "债券") {
        "债券"
    } else if mentions(&t, "QDII") {
        "QDII"
    } else if mentions(&t, "指数") || mentions(&t, "ETF") {
        "指数"
    } else if mentions(&t, "股票") {
        "股票"
    } else if mentions(&t, "混合") {
        "混合"
    } else if mentions(&t, "FOF") {
        "FOF"
    } else if t.len() == 0 {
        "未知"
    } else {
        "其他"
    }
}

/// The three `-`-separated fields of a date text, as `splitn(3, '-')` gives
/// them: before the first dash, between the first and second, and the rest.
pub open spec fn date_fields(s: Seq<char>) -> Option<(Seq<char>, Seq<char>, Seq<char>)> {
    match find(s, "-"@) {
        None => None,
        Some(a) => {
            let rest = s.skip(a + 1);
            match find(rest, "-"@) {
                None => None,
                Some(b) => Some((s.take(a), rest.take(b), rest.skip(b + 1))),
            }
        },
    }
}

/// Year, month and day of a date text, each read as an `i64`.
pub open spec fn date_numbers(s: Seq<char>) -> Option<(int, int, int)> {
    match date_fields(s) {
        None => None,
        Some((y, m, d)) => match (parse_i64_spec(y), parse_i64_spec(m), parse_i64_spec(d)) {
            (Some(y), Some(m), Some(d)) => Some((y, m, d)),
            _ => None,
        },
    }
}

/// The approximate day number `365·y + 30·m + d` of a date. Within one
/// year, dates at most one month boundary apart are counted within three
/// days of their calendar distance (`lemma_day_number_near`), enough to find
/// the latest trading day inside a 7- or 30-day window; across a year end the
/// count can be further off (2025-12-31 to 2026-01-01 counts 5 days).
pub open spec fn day_number(y: int, m: int, d: int) -> int {
    y * 365 + m * 30 + d
}

/// The arithmetic of `day_number` stays within `i64` at every step.
pub open spec fn day_number_fits(s: Seq<char>) -> bool {
    match date_numbers(s) {
        None => true,
        Some((y, m, d)) => {
            &&& i64::MIN <= y * 365 <= i64::MAX
            &&& i64::MIN <= m * 30 <= i64::MAX
            &&& i64::MIN <= y * 365 + m * 30 <= i64::MAX
            &&& i64::MIN <= day_number(y, m, d) <= i64::MAX
        },
    }
}

/// The approximate day number of a `YYYY-MM-DD` date, or `None` when the
/// text does not split into three integers.
pub fn date_days(date: &str) -> (r: Option<i64>)
    requires
        day_number_fits(date@),
    ensures
        r matches Some(n) ==> date_numbers(date@) matches Some((y, m, d)) && n == day_number(
            y,
            m,
            d,
        ),
        r is None ==> date_numbers(date@) is None,
{
    let s = chars_of(date);
    let dash = chars_of("-");
    let a = match find_in(&s, &dash) {
        None => return None,
        Some(a) => a,
    };
    proof {
        reveal_strlit("-");
        crate::text::lemma_find(s@, dash@);
    }
    assert(a + 1 <= s.len());
    let rest = slice_subrange(&s, a + 1, s.len());
    assert(rest@ =~= s@.skip(a + 1));
    let b = match find_in(rest, &dash) {
        None => return None,
        Some(b) => b,
    };
    proof {
        crate::text::lemma_find(rest@, dash@);
    }
    let ys = slice_subrange(&s, 0, a);
    let ms = slice_subrange(rest, 0, b);
    let ds = slice_subrange(rest, b + 1, rest.len());
    assert(ys@ =~= s@.take(a as int));
    assert(ms@ =~= rest@.take(b as int));
    assert(ds@ =~= rest@.skip(b + 1));
    let y = match parse_i64(ys) {
        None => return None,
        Some(y) => y,
    };
    let m = match parse_i64(ms) {
        None => return None,
        Some(m) => m,
    };
    let d = match parse_i64(ds) {
        None => return None,
        Some(d) => d,
    };
    Some(y * 365 + m * 30 + d)
}


/// The day number of a date text, when it has one.
pub open spec fn date_day(s: Seq<char>) -> Option<int> {
    match date_numbers(s) {
        Some((y, m, d)) => Some(day_number(y, m, d)),
        None => None,
    }
}

/// The first point at or after `k` whose date falls on or before `target`
/// and whose net value is not zero.
pub open spec fn first_in_window(
    dates: Seq<String>,
    nonzero: Seq<bool>,
    target: int,
    k: int,
) -> Option<int>
    decreases dates.len() - k,
{
    if k < 0 || k >= dates.len() {
        None
    } else if (date_day(dates[k]@) matches Some(d) && d <= target) && nonzero[k] {
        Some(k)
    } else {
        first_in_window(dates, nonzero, target, k + 1)
    }
}

/// The point of a newest-first net value series that a return over the
/// last `window` days is measured from: the first point after the newest
/// one that is at least `window` days old and has a non-zero value; failing
/// that the oldest point when its value is not zero; failing that none.
pub open spec fn reference_of(
    dates: Seq<String>,
    nonzero: Seq<bool>,
    newest_day: int,
    window: int,
) -> Option<int> {
    match first_in_window(dates, nonzero, newest_day - window, 1) {
        Some(k) => Some(k),
        None => if dates.len() > 0 && nonzero[dates.len() - 1] {
            Some(dates.len() - 1)
        } else {
            None
        },
    }
}

/// Which point a period return is measured from, given the dates of a
/// newest-first series, which of its values are non-zero, the day number
/// of the newest point and the window; `None` means a return of zero.
pub fn period_reference(dates: &[String], nonzero: &[bool], newest_day: i64, window: i64) -> (r:
    Option<usize>)
    requires
        dates@.len() == nonzero@.len(),
        forall|i: int| 0 <= i < dates@.len() ==> day_number_fits(#[trigger] dates@[i]@),
        i64::MIN <= newest_day - window <= i64::MAX,
    ensures
        r matches Some(k) ==> reference_of(dates@, nonzero@, newest_day as int, window as int)
            == Some(k as int),
        r is None ==> reference_of(dates@, nonzero@, newest_day as int, window as int) is None,
{
    let target = newest_day - window;
    let mut k: usize = 1;
    while k < dates.len()
        invariant
            1 <= k,
            target == newest_day - window,
            dates@.len() == nonzero@.len(),
            forall|i: int| 0 <= i < dates@.len() ==> day_number_fits(#[trigger] dates@[i]@),
            first_in_window(dates@, nonzero@, target as int, 1) == first_in_window(
                dates@,
                nonzero@,
                target as int,
                k as int,
            ),
        decreases dates@.len() - k,
    {
        let day = date_days(dates[k].as_str());
        let inside = match day {
            Some(d) => d <= target,
            None => false,
        };
        if inside && nonzero[k] {
            return Some(k);
        }
        k = k + 1;
    }
    let n = dates.len();
    if n > 0 && nonzero[n - 1] {
        Some(n - 1)
    } else {
        None
    }
}


/// A month read as a 32-bit signed number (`month as i32`): values above
/// `i32::MAX` wrap around to negative ones.
pub open spec fn signed_month(month: nat) -> int {
    if month > i32::MAX {
        month - 0x1_0000_0000
    } else {
        month as int
    }
}

/// The quarter that month `month` falls in, as `(month as i32 - 1) / 3 + 1`
/// computes it with division rounding toward zero: 1 to 4 for the months
/// 1 to 12, and 1 for month 0.
pub open spec fn quarter_of(month: nat) -> int {
    let m = signed_month(month);
    if m >= 1 {
        (m - 1) / 3 + 1
    } else {
        1 - (1 - m) / 3
    }
}

/// The heading `<year>年<quarter>季度` of a holdings report.
pub open spec fn quarter_heading(year: nat, month: nat) -> Seq<char> {
    decimal(year) + "年"@ + signed_decimal(quarter_of(month)) + "季度"@
}

/// Names the quarter of `year` that month `month` falls in, as
/// `2026年2季度`.
pub fn quarter_label(year: u32, month: u32) -> (r: String)
    requires
        month != 0x8000_0000,
    ensures
        r@ == quarter_heading(year as nat, month as nat),
{
    let m: i64 = if month > 2147483647 {
        month as i64 - 4294967296
    } else {
        month as i64
    };
    let q: i64 = if m >= 1 {
        (m - 1) / 3 + 1
    } else {
        1 - (1 - m) / 3
    };
    let mut v = decimal_chars(year as u64);
    push_all(&mut v, &chars_of("年"));
    push_all(&mut v, &signed_decimal_chars(q));
    push_all(&mut v, &chars_of("季度"));
    string_of(&v)
}

/// Why a date range was refused.
#[derive(Debug, Clone)]
pub enum RangeError {
    /// This end of the range is not a `YYYY-MM-DD` date.
    InvalidDate(String),
    /// The range starts (first) after it ends (second).
    Reversed(String, String),
}

pub open spec fn range_error_text(e: RangeError) -> Seq<char> {
    match e {
        RangeError::InvalidDate(d) => "无效日期: "@ + d@,
        RangeError::Reversed(f, t) => "from ("@ + f@ + ") 不能晚于 to ("@ + t@ + ")"@,
    }
}

impl RangeError {
    /// The error message.
    pub fn message(&self) -> (m: String)
        ensures
            m@ == range_error_text(*self),
    {
        match self {
            RangeError::InvalidDate(d) => {
                let mut v = chars_of("无效日期: ");
                push_all(&mut v, &chars_of(d.as_str()));
                string_of(&v)
            },
            RangeError::Reversed(f, t) => {
                let mut v = chars_of("from (");
                push_all(&mut v, &chars_of(f.as_str()));
                push_all(&mut v, &chars_of(") 不能晚于 to ("));
                push_all(&mut v, &chars_of(t.as_str()));
                push_all(&mut v, &chars_of(")"));
                string_of(&v)
            },
        }
    }
}

/// The day numbers of a backfill range `from ..= to`: refused when either
/// end is not a date (the first such end is named) or when it starts after
/// it ends.
pub fn day_window(from: &str, to: &str) -> (r: Result<(i64, i64), RangeError>)
    requires
        day_number_fits(from@),
        day_number_fits(to@),
    ensures
        date_day(from@) is None ==> (r matches Err(RangeError::InvalidDate(d)) && d@ == from@),
        date_day(from@) is Some && date_day(to@) is None ==> (r matches Err(
            RangeError::InvalidDate(d),
        ) && d@ == to@),
        date_day(from@) is Some && date_day(to@) is Some ==> ({
            let a = date_day(from@)->0;
            let b = date_day(to@)->0;
            if a > b {
                r matches Err(RangeError::Reversed(f, t)) && f@ == from@ && t@ == to@
            } else {
                r == Ok::<(i64, i64), RangeError>((a as i64, b as i64))
            }
        }),
{
    let a = match date_days(from) {
        Some(a) => a,
        None => return Err(RangeError::InvalidDate(from.to_owned())),
    };
    let b = match date_days(to) {
        Some(b) => b,
        None => return Err(RangeError::InvalidDate(to.to_owned())),
    };
    if a > b {
        return Err(RangeError::Reversed(from.to_owned(), to.to_owned()));
    }
    Ok((a, b))
}


/// Lots of the same fund, gathered: `firsts` holds, in order, the position
/// of the first lot of each fund, and `slot[i]` names the entry of
/// `firsts` whose fund lot `i` belongs to.
#[derive(Debug, Clone)]
pub struct CodeGroups {
    pub firsts: Vec<usize>,
    pub slot: Vec<usize>,
}

/// `g` gathers the lots with fund codes `codes`: one entry per fund, in
/// the order of each fund's first lot, and every lot assigned to its fund.
pub open spec fn gathers(codes: Seq<String>, g: CodeGroups) -> bool {
    let f = g.firsts@;
    let s = g.slot@;
    &&& forall|a: int, b: int| 0 <= a < b < f.len() ==> #[trigger] f[a] < #[trigger] f[b]
    &&& forall|a: int| 0 <= a < f.len() ==> #[trigger] f[a] < codes.len()
    &&& forall|a: int, j: int|
        #![trigger codes[j], f[a]]
        0 <= a < f.len() && 0 <= j < f[a] ==> codes[j]@ != codes[f[a] as int]@
    &&& s.len() == codes.len()
    &&& forall|i: int|
        0 <= i < s.len() ==> #[trigger] s[i] < f.len() && codes[f[s[i] as int] as int]@ == codes[i]@
}

/// Gathers lots by fund code, keeping the funds in the order of their
/// first lot (as merging shares per code in a list does).
pub fn group_by_code(codes: &[String]) -> (g: CodeGroups)
    ensures
        gathers(codes@, g),
{
    let mut firsts: Vec<usize> = Vec::new();
    let mut slot: Vec<usize> = Vec::new();
    let mut i: usize = 0;
    while i < codes.len()
        invariant
            i <= codes@.len(),
            slot@.len() == i,
            forall|a: int, b: int| 0 <= a < b < firsts@.len() ==> #[trigger] firsts@[a] < #[trigger] firsts@[b],
            forall|a: int| 0 <= a < firsts@.len() ==> #[trigger] firsts@[a] < i,
            forall|a: int, j: int|
                #![trigger codes@[j], firsts@[a]]
                0 <= a < firsts@.len() && 0 <= j < firsts@[a] ==> codes@[j]@ != codes@[firsts@[a] as int]@,
            forall|k: int|
                0 <= k < i ==> #[trigger] slot@[k] < firsts@.len() && codes@[firsts@[slot@[k] as int] as int]@ == codes@[k]@,
        decreases codes@.len() - i,
    {
        let c = chars_of(codes[i].as_str());
        let mut j: usize = 0;
        let mut found = false;
        while j < firsts.len()
            invariant
                j <= firsts@.len(),
                i < codes@.len(),
                c@ == codes@[i as int]@,
                forall|a: int| 0 <= a < firsts@.len() ==> #[trigger] firsts@[a] < i,
                !found ==> forall|a: int| 0 <= a < j ==> codes@[#[trigger] firsts@[a] as int]@ != c@,
                found ==> j < firsts@.len() && codes@[firsts@[j as int] as int]@ == c@,
            ensures
                !found ==> forall|a: int| 0 <= a < firsts@.len() ==> codes@[#[trigger] firsts@[a] as int]@ != c@,
                found ==> j < firsts@.len() && codes@[firsts@[j as int] as int]@ == c@,
            decreases firsts@.len() - j,
        {
            let other = chars_of(codes[firsts[j]].as_str());
            if same_chars(&c, &other) {
                found = true;
                break;
            }
            j = j + 1;
        }
        if found {
            slot.push(j);
        } else {
            proof {
                assert forall|k: int| 0 <= k < i implies codes@[k]@ != codes@[i as int]@ by {
                    let a = slot@[k] as int;
                    assert(codes@[firsts@[a] as int]@ != c@);
                }
            }
            firsts.push(i);
            slot.push(firsts.len() - 1);
        }
        i = i + 1;
    }
    CodeGroups { firsts, slot }
}


/// The date text `s` falls in the day-number window `from_day ..= to_day`.
pub open spec fn in_window(s: Seq<char>, from_day: int, to_day: int) -> bool {
    match date_day(s) {
        Some(d) => from_day <= d <= to_day,
        None => false,
    }
}

/// The positions of the records whose dates fall in the window
/// `from_day ..= to_day`, in order: the trading days a backfill keeps.
pub fn window_points(dates: &[String], from_day: i64, to_day: i64) -> (r: Vec<usize>)
    requires
        forall|i: int| 0 <= i < dates@.len() ==> day_number_fits(#[trigger] dates@[i]@),
    ensures
        forall|a: int, b: int| 0 <= a < b < r@.len() ==> #[trigger] r@[a] < #[trigger] r@[b],
        forall|a: int|
            0 <= a < r@.len() ==> #[trigger] r@[a] < dates@.len() && in_window(
                dates@[r@[a] as int]@,
                from_day as int,
                to_day as int,
            ),
        forall|i: int|
            0 <= i < dates@.len() && in_window(#[trigger] dates@[i]@, from_day as int, to_day as int)
                ==> r@.contains(i as usize),
{
    let mut r: Vec<usize> = Vec::new();
    let mut i: usize = 0;
    while i < dates.len()
        invariant
            i <= dates@.len(),
            forall|k: int| 0 <= k < dates@.len() ==> day_number_fits(#[trigger] dates@[k]@),
            forall|a: int, b: int| 0 <= a < b < r@.len() ==> #[trigger] r@[a] < #[trigger] r@[b],
            forall|a: int|
                0 <= a < r@.len() ==> #[trigger] r@[a] < i && in_window(
                    dates@[r@[a] as int]@,
                    from_day as int,
                    to_day as int,
                ),
            forall|k: int|
                0 <= k < i && in_window(#[trigger] dates@[k]@, from_day as int, to_day as int)
                    ==> r@.contains(k as usize),
        decreases dates@.len() - i,
    {
        let inside = match date_days(dates[i].as_str()) {
            Some(d) => from_day <= d && d <= to_day,
            None => false,
        };
        if inside {
            let ghost before = r@;
            r.push(i);
            assert forall|k: int|
                0 <= k < i + 1 && in_window(#[trigger] dates@[k]@, from_day as int, to_day as int)
                    implies r@.contains(k as usize) by {
                if k < i {
                    let x = choose|x: int| 0 <= x < before.len() && before[x] == k as usize;
                    assert(r@[x] == k as usize);
                } else {
                    assert(r@[r@.len() - 1] == k as usize);
                }
            }
        }
        i = i + 1;
    }
    r
}

/// The distinct texts of `dates`, in ascending order (sorted, then with
/// repeats dropped).
pub fn covered_dates(dates: &[String]) -> (r: Vec<String>)
    ensures
        forall|a: int, b: int| 0 <= a < b < r@.len() ==> text_lt(#[trigger] r@[a]@, #[trigger] r@[b]@),
        forall|a: int| 0 <= a < r@.len() ==> exists|i: int| 0 <= i < dates@.len() && (#[trigger] r@[a])@ == (#[trigger] dates@[i])@,
        forall|i: int| 0 <= i < dates@.len() ==> exists|a: int| 0 <= a < r@.len() && (#[trigger] r@[a])@ == (#[trigger] dates@[i])@,
{
    let p = order_by_date(dates, false);
    let mut r: Vec<String> = Vec::new();
    let mut k: usize = 0;
    while k < p.len()
        invariant
            k <= p@.len(),
            is_permutation(p@, dates@.len() as int),
            in_date_order(dates@, false, p@),
            k > 0 ==> r@.len() > 0 && r@[r@.len() - 1]@ == dates@[p@[k - 1] as int]@,
            k == 0 ==> r@.len() == 0,
            forall|a: int, b: int| 0 <= a < b < r@.len() ==> text_lt(#[trigger] r@[a]@, #[trigger] r@[b]@),
            forall|a: int| 0 <= a < r@.len() ==> exists|i: int| 0 <= i < dates@.len() && (#[trigger] r@[a])@ == (#[trigger] dates@[i])@,
            forall|j: int| 0 <= j < k ==> exists|a: int| 0 <= a < r@.len() && (#[trigger] r@[a])@ == dates@[#[trigger] p@[j] as int]@,
        decreases p@.len() - k,
    {
        let x = p[k];
        let cur = chars_of(dates[x].as_str());
        let fresh = if r.len() == 0 {
            true
        } else {
            let last = chars_of(r[r.len() - 1].as_str());
            !same_chars(&last, &cur)
        };
        if fresh {
            let ghost before = r@;
            proof {
                if k > 0 {
                    let y = p@[k - 1] as int;
                    assert(comes_before(dates@, false, y, x as int));
                    let last = before[before.len() - 1]@;
                    assert forall|a: int| 0 <= a < before.len() implies text_lt(#[trigger] before[a]@, cur@) by {
                        if a < before.len() - 1 {
                            lemma_text_lt_transitive(before[a]@, last, cur@);
                        }
                    }
                }
            }
            r.push(dates[x].clone());
            proof {
                assert(r@[r@.len() - 1]@ == dates@[x as int]@);
                assert forall|a: int| 0 <= a < r@.len() implies exists|i: int| 0 <= i < dates@.len() && (#[trigger] r@[a])@ == (#[trigger] dates@[i])@ by {
                    if a < before.len() {
                        assert(r@[a] == before[a]);
                    } else {
                        assert(r@[a]@ == dates@[x as int]@);
                    }
                }
                assert forall|j: int| 0 <= j < k + 1 implies exists|a: int| 0 <= a < r@.len() && (#[trigger] r@[a])@ == dates@[#[trigger] p@[j] as int]@ by {
                    if j < k {
                        let a = choose|a: int| 0 <= a < before.len() && (#[trigger] before[a])@ == dates@[p@[j] as int]@;
                        assert(r@[a] == before[a]);
                    } else {
                        assert(r@[r@.len() - 1]@ == dates@[p@[j] as int]@);
                    }
                }
            }
        } else {
            proof {
                assert(r@[r@.len() - 1]@ == dates@[p@[k as int] as int]@);
            }
        }
        k = k + 1;
    }
    proof {
        assert forall|i: int| 0 <= i < dates@.len() implies exists|a: int| 0 <= a < r@.len() && (#[trigger] r@[a])@ == (#[trigger] dates@[i])@ by {
            lemma_permutation_onto(p@, dates@.len() as int, i);
            let j = choose|j: int| 0 <= j < p@.len() && p@[j] == i as usize;
            let a = choose|a: int| 0 <= a < r@.len() && (#[trigger] r@[a])@ == dates@[p@[j] as int]@;
        }
    }
    r
}


/// Money-market funds come first, bond funds next, then QDII funds: a type
/// that mentions QDII but neither 货币 nor 债券 is classed QDII whatever else
/// it mentions (指数, ETF, 股票, 混合 or FOF); one that mentions 货币 is
/// classed 货币, and one that mentions 债券 but not 货币 is classed 债券.
pub proof fn lemma_class_precedence(t: Seq<char>)
    ensures
        contains(t, "货币"@) ==> asset_class(t) == "货币"@,
        !contains(t, "货币"@) && contains(t, "债券"@) ==> asset_class(t) == "债券"@,
        !contains(t, "货币"@) && !contains(t, "债券"@) && contains(t, "QDII"@) ==> asset_class(t)
            == "QDII"@,
        !contains(t, "货币"@) && !contains(t, "债券"@) && !contains(t, "QDII"@) && (contains(
            t,
            "指数"@,
        ) || contains(t, "ETF"@)) ==> asset_class(t) == "指数"@,
{
}

} // verus!
