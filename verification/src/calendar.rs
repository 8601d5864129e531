//! Proleptic Gregorian calendar arithmetic: day numbers of dates, dates of
//! day numbers, and differences between `YYYY-MM-DD` texts.
use vstd::prelude::*;
use crate::holdings::day_number;
use vstd::slice::slice_subrange;
use crate::num::{parse_i32, parse_i32_spec, parse_u32, parse_u32_spec};
use crate::text::{chars_of, split, split_by, views};

verus! {

broadcast use {vstd::string::group_string_axioms, vstd::slice::group_slice_axioms};

/// `y` is a leap year of the Gregorian calendar.
pub open spec fn leap(y: int) -> bool {
    (y % 4 == 0 && y % 100 != 0) || y % 400 == 0
}

/// Days in year `y`.
pub open spec fn year_len(y: int) -> int {
    if leap(y) {
        366
    } else {
        365
    }
}

/// Days in month `m` (1-12) of year `y`.
pub open spec fn month_len(y: int, m: int) -> int {
    if m == 2 {
        if leap(y) {
            29
        } else {
            28
        }
    } else if m == 4 || m == 6 || m == 9 || m == 11 {
        30
    } else {
        31
    }
}

/// `y-m-d` is a real date.
pub open spec fn valid_date(y: int, m: int, d: int) -> bool {
    1 <= m <= 12 && 1 <= d <= month_len(y, m)
}

/// Day of a March-based year on which the first of month `m` falls
/// (March 1 is day 0, January 1 day 306).
pub open spec fn march_day(m: int) -> int {
    (153 * (if m > 2 {
        m - 3
    } else {
        m + 9
    }) + 2) / 5
}

/// Days from 1970-01-01 to `y-m-d`: 365 days a year plus one leap day per
/// year divisible by 4, less those divisible by 100, plus those divisible by
/// 400, counted in years that start in March.
pub open spec fn civil_days(y: int, m: int, d: int) -> int {
    let yy = if m <= 2 {
        y - 1
    } else {
        y
    };
    365 * yy + yy / 4 - yy / 100 + yy / 400 + march_day(m) + d - 1 - 719468
}

/// `days_from_civil` neither overflows nor underflows on these arguments:
/// the day is positive and, for January and February, the year has a
/// predecessor in `i32`.
pub open spec fn civil_args_ok(y: int, m: int, d: int) -> bool {
    d >= 1 && (m <= 2 ==> y > i32::MIN)
}

proof fn lemma_era(y: i64)
    requires
        i32::MIN - 1 <= y <= i32::MAX,
    ensures
        ({
            let era: int = if y >= 0 {
                y as int / 400
            } else {
                -((399 - y) / 400)
            };
            let yoe = y - era * 400;
            &&& era == y / 400
            &&& 0 <= yoe < 400
            &&& 146097 * era + 365 * yoe + yoe / 4 - yoe / 100 == 365 * y + y / 4 - y / 100 + y
                / 400
        }),
{
    let era: int = if y >= 0 {
        y as int / 400
    } else {
        -((399 - y) / 400)
    };
    assert(era == y / 400) by {
        if y < 0 {
            assert(-((399 - y) / 400) == y / 400) by (nonlinear_arith)
                requires
                    y < 0,
            ;
        }
    }
    let yoe = y - era * 400;
    assert(0 <= yoe < 400);
    assert(y / 4 == era * 100 + yoe / 4) by (nonlinear_arith)
        requires
            yoe == y - era * 400,
            0 <= yoe < 400,
    ;
    assert(y / 100 == era * 4 + yoe / 100) by (nonlinear_arith)
        requires
            yoe == y - era * 400,
            0 <= yoe < 400,
    ;
}

/// Howard Hinnant's `days_from_civil`: days from 1970-01-01 to `y-m-d` in the
/// proleptic Gregorian calendar.
pub fn days_from_civil(ymd: (i32, u32, u32)) -> (days: i64)
    requires
        civil_args_ok(ymd.0 as int, ymd.1 as int, ymd.2 as int),
    ensures
        days == civil_days(ymd.0 as int, ymd.1 as int, ymd.2 as int),
{
    let (y, m, d) = ymd;
    let y: i64 = if m <= 2 {
        (y - 1) as i64
    } else {
        y as i64
    };
    let era: i64 = if y >= 0 {
        y / 400
    } else {
        -((399 - y) / 400)
    };
    proof {
        lemma_era(y);
    }
    let yoe: u64 = (y - era * 400) as u64;
    let m: u64 = m as u64;
    let doy: u64 = (153 * (if m > 2 {
        m - 3
    } else {
        m + 9
    }) + 2) / 5 + d as u64 - 1;
    assert(yoe / 4 >= yoe / 100);
    let doe: u64 = yoe * 365 + yoe / 4 - yoe / 100 + doy;
    era * 146097 + doe as i64 - 719468
}

/// The fields of a `YYYY-MM-DD` text, when it has exactly three
/// `-`-separated fields that read as an `i32` year and `u32` month and day.
pub open spec fn ymd_of(s: Seq<char>) -> Option<(int, int, int)> {
    let parts = split(s, "-"@);
    if parts.len() != 3 {
        None
    } else {
        match (parse_i32_spec(parts[0]), parse_u32_spec(parts[1]), parse_u32_spec(parts[2])) {
            (Some(y), Some(m), Some(d)) => Some((y, m, d)),
            _ => None,
        }
    }
}

/// Reads `YYYY-MM-DD` as a year, month and day; `None` when the text does
/// not have three dash-separated numeric fields.
pub fn parse_ymd(s: &str) -> (r: Option<(i32, u32, u32)>)
    ensures
        r matches Some(v) ==> ymd_of(s@) == Some((v.0 as int, v.1 as int, v.2 as int)),
        r is None ==> ymd_of(s@) is None,
{
    let c = chars_of(s);
    let dash = chars_of("-");
    proof {
        reveal_strlit("-");
    }
    let parts = split_by(&c, &dash);
    if parts.len() != 3 {
        return None;
    }
    assert(views(parts@)[0] == parts@[0]@);
    assert(views(parts@)[1] == parts@[1]@);
    assert(views(parts@)[2] == parts@[2]@);
    let y = match parse_i32(&parts[0]) {
        None => return None,
        Some(y) => y,
    };
    let m = match parse_u32(&parts[1]) {
        None => return None,
        Some(m) => m,
    };
    let d = match parse_u32(&parts[2]) {
        None => return None,
        Some(d) => d,
    };
    Some((y, m, d))
}

/// A date text that `calendar_day_diff` can use without overflow: either it
/// does not read as a date, or its fields are acceptable to
/// `days_from_civil`.
pub open spec fn ymd_ok(s: Seq<char>) -> bool {
    match ymd_of(s) {
        Some((y, m, d)) => civil_args_ok(y, m, d),
        None => true,
    }
}

/// The calendar-day difference between two date texts.
pub open spec fn day_diff(start: Seq<char>, end: Seq<char>) -> Option<int> {
    match (ymd_of(start), ymd_of(end)) {
        (Some((y1, m1, d1)), Some((y2, m2, d2))) => Some(
            civil_days(y2, m2, d2) - civil_days(y1, m1, d1),
        ),
        _ => None,
    }
}

/// Calendar days from `start` to `end` (`YYYY-MM-DD`); `None` when either
/// does not read as a date.
pub fn calendar_day_diff(start: &str, end: &str) -> (r: Option<i64>)
    requires
        ymd_ok(start@),
        ymd_ok(end@),
    ensures
        r matches Some(n) ==> day_diff(start@, end@) == Some(n as int),
        r is None ==> day_diff(start@, end@) is None,
{
    let s = match parse_ymd(start) {
        None => return None,
        Some(s) => s,
    };
    let e = match parse_ymd(end) {
        None => return None,
        Some(e) => e,
    };
    Some(days_from_civil(e) - days_from_civil(s))
}


// ── Day numbers back to dates ──────────────────────────────────────────────

/// Gregorian leap-year test.
pub fn is_leap(y: i32) -> (b: bool)
    ensures
        b == leap(y as int),
{
    (y % 4 == 0 && y % 100 != 0) || y % 400 == 0
}

proof fn lemma_div_step(y: int, k: int)
    requires
        k > 0,
    ensures
        y / k - (y - 1) / k == (if y % k == 0 {
            1int
        } else {
            0int
        }),
{
    let q = y / k;
    let r = y % k;
    let q1 = (y - 1) / k;
    let r1 = (y - 1) % k;
    assert(y == k * q + r && 0 <= r < k) by (nonlinear_arith)
        requires
            k > 0,
            q == y / k,
            r == y % k,
    ;
    assert(y - 1 == k * q1 + r1 && 0 <= r1 < k) by (nonlinear_arith)
        requires
            k > 0,
            q1 == (y - 1) / k,
            r1 == (y - 1) % k,
    ;
    if r == 0 {
        assert(q1 == q - 1) by (nonlinear_arith)
            requires
                y == k * q,
                y - 1 == k * q1 + r1,
                0 <= r1 < k,
        ;
    } else {
        assert(q1 == q) by (nonlinear_arith)
            requires
                y == k * q + r,
                0 < r < k,
                y - 1 == k * q1 + r1,
                0 <= r1 < k,
        ;
    }
}

proof fn lemma_year_step(y: int)
    ensures
        civil_days(y + 1, 1, 1) == civil_days(y, 1, 1) + year_len(y),
{
    lemma_div_step(y, 4);
    lemma_div_step(y, 100);
    lemma_div_step(y, 400);
    assert(march_day(1) == 306);
}

proof fn lemma_month_step(y: int, m: int)
    requires
        1 <= m <= 11,
    ensures
        civil_days(y, m + 1, 1) == civil_days(y, m, 1) + month_len(y, m),
{
    if m == 2 {
        lemma_div_step(y, 4);
        lemma_div_step(y, 100);
        lemma_div_step(y, 400);
        assert(march_day(2) == 337);
        assert(march_day(3) == 0);
    } else {
        assert(march_day(m + 1) == march_day(m) + month_len(y, m));
    }
}

proof fn lemma_day_offset(y: int, m: int, d: int)
    ensures
        civil_days(y, m, d) == civil_days(y, m, 1) + d - 1,
{
}

proof fn lemma_year_len_months(y: int)
    ensures
        year_len(y) == month_len(y, 1) + month_len(y, 2) + month_len(y, 3) + month_len(y, 4)
            + month_len(y, 5) + month_len(y, 6) + month_len(y, 7) + month_len(y, 8) + month_len(
            y,
            9,
        ) + month_len(y, 10) + month_len(y, 11) + month_len(y, 12),
{
}

/// Days of months `1 ..= m` of year `y`.
pub open spec fn days_through(y: int, m: int) -> int
    decreases m,
{
    if m <= 0 {
        0
    } else {
        days_through(y, m - 1) + month_len(y, m)
    }
}

proof fn lemma_days_through(y: int, m: int)
    requires
        0 <= m <= 12,
    ensures
        civil_days(y, m + 1, 1) == civil_days(y, 1, 1) + days_through(y, m) || m == 12,
        m == 12 ==> days_through(y, m) == year_len(y),
        m < 12 ==> civil_days(y, m + 1, 1) == civil_days(y, 1, 1) + days_through(y, m),
    decreases m,
{
    if m > 0 {
        lemma_days_through(y, m - 1);
        if m < 12 {
            lemma_month_step(y, m);
        }
    }
    if m == 12 {
        lemma_year_len_months(y);
        reveal_with_fuel(days_through, 13);
    }
}

/// The date `days` days after 1970-01-01 (for `days >= 0`), counting whole
/// years and then whole months. A negative `days` gives `(1970, 1, days + 1)`.
pub fn days_to_ymd(days: i32) -> (r: (i32, i32, i32))
    ensures
        days >= 0 ==> r.0 >= 1970 && valid_date(r.0 as int, r.1 as int, r.2 as int) && civil_days(
            r.0 as int,
            r.1 as int,
            r.2 as int,
        ) == days,
        days < 0 ==> r.0 == 1970 && r.1 == 1 && r.2 == days + 1,
{
    let mut y: i32 = 1970;
    let mut d: i32 = days;
    assert(civil_days(1970, 1, 1) == 0);
    loop
        invariant
            1970 <= y,
            d <= days,
            days >= 0 ==> d >= 0 && civil_days(y as int, 1, 1) + d == days,
            days < 0 ==> y == 1970 && d == days,
            365 * (y - 1970) <= days - d,
        ensures
            1970 <= y,
            d < year_len(y as int),
            days >= 0 ==> d >= 0 && civil_days(y as int, 1, 1) + d == days,
            days < 0 ==> y == 1970 && d == days,
        decreases d,
    {
        let yd: i32 = if is_leap(y) {
            366
        } else {
            365
        };
        if d < yd {
            break;
        }
        proof {
            lemma_year_step(y as int);
        }
        d = d - yd;
        y = y + 1;
    }
    let months: [i32; 12] = [31, 28, 31, 30, 31, 30, 31, 31, 30, 31, 30, 31];
    let mut m: usize = 0;
    let mut dd: i32 = d;
    proof {
        lemma_days_through(y as int, 12);
    }
    while m < 12
        invariant_except_break
            m <= 12,
            days >= 0 ==> dd >= 0 && civil_days(y as int, 1, 1) + days_through(y as int, m as int)
                + dd == days && days_through(y as int, m as int) + dd < year_len(y as int),
            days < 0 ==> m == 0 && dd == d,
            months@ == seq![31i32, 28, 31, 30, 31, 30, 31, 31, 30, 31, 30, 31],
            days_through(y as int, 12) == year_len(y as int),
            days < 0 ==> d == days,
        ensures
            m < 12,
            days >= 0 ==> dd >= 0 && civil_days(y as int, 1, 1) + days_through(y as int, m as int)
                + dd == days && dd < month_len(y as int, m + 1),
            days < 0 ==> m == 0 && dd == d,
        decreases 12 - m,
    {
        let md: i32 = if m == 1 && is_leap(y) {
            29
        } else {
            months[m]
        };
        assert(md == month_len(y as int, m + 1));
        if dd < md {
            break;
        }
        dd = dd - md;
        m = m + 1;
        proof {
            if m == 12 && days >= 0 {
                lemma_days_through(y as int, 12);
                assert(false);
            }
        }
    }
    proof {
        if days >= 0 {
            lemma_days_through(y as int, m as int);
            lemma_day_offset(y as int, m + 1, dd + 1);
        }
    }
    (y, (m + 1) as i32, dd + 1)
}


/// Day differences add up along a chain of dates: from `a` to `b` and on to
/// `c` is as far as from `a` to `c`; from a date to itself is no day.
pub proof fn lemma_day_diff_chain(a: Seq<char>, b: Seq<char>, c: Seq<char>)
    requires
        ymd_of(a) is Some,
        ymd_of(b) is Some,
        ymd_of(c) is Some,
    ensures
        day_diff(a, a) == Some(0int),
        day_diff(a, b)->0 + day_diff(b, c)->0 == day_diff(a, c)->0,
        day_diff(a, b)->0 == -day_diff(b, a)->0,
{
}

/// The date after `(y, m, d)`.
pub open spec fn next_date(y: int, m: int, d: int) -> (int, int, int) {
    if d < month_len(y, m) {
        (y, m, d + 1)
    } else if m < 12 {
        (y, m + 1, 1)
    } else {
        (y + 1, 1, 1)
    }
}

/// Day numbers count calendar days: the day after a valid date has the next
/// number, across month and year ends and February 29th included.
pub proof fn lemma_next_day(y: int, m: int, d: int)
    requires
        valid_date(y, m, d),
    ensures
        valid_date(next_date(y, m, d).0, next_date(y, m, d).1, next_date(y, m, d).2),
        civil_days(next_date(y, m, d).0, next_date(y, m, d).1, next_date(y, m, d).2) == civil_days(
            y,
            m,
            d,
        ) + 1,
{
    lemma_day_offset(y, m, d);
    lemma_day_offset(y, m, d + 1);
    if d >= month_len(y, m) {
        if m < 12 {
            lemma_month_step(y, m);
        } else {
            lemma_year_step(y);
            lemma_days_through(y, 11);
            lemma_days_through(y, 12);
            lemma_day_offset(y, 12, 1);
            assert(days_through(y, 12) == days_through(y, 11) + 31);
        }
    }
}


proof fn lemma_year_starts_grow(y1: int, y2: int)
    requires
        y1 < y2,
    ensures
        civil_days(y1, 1, 1) + year_len(y1) <= civil_days(y2, 1, 1),
    decreases y2 - y1,
{
    lemma_year_step(y1);
    if y1 + 1 < y2 {
        lemma_year_starts_grow(y1 + 1, y2);
    }
}

proof fn lemma_days_through_grows(y: int, a: int, b: int)
    requires
        0 <= a <= b <= 12,
    ensures
        days_through(y, a) <= days_through(y, b),
    decreases b - a,
{
    if a < b {
        lemma_days_through_grows(y, a, b - 1);
    }
}

/// Where a valid date falls in its year: the days of the months before it
/// plus its day of the month.
proof fn lemma_date_in_year(y: int, m: int, d: int)
    requires
        valid_date(y, m, d),
    ensures
        civil_days(y, m, d) == civil_days(y, 1, 1) + days_through(y, m - 1) + d - 1,
        days_through(y, m - 1) + d <= days_through(y, m),
        civil_days(y, 1, 1) <= civil_days(y, m, d) < civil_days(y, 1, 1) + year_len(y),
{
    lemma_days_through(y, m - 1);
    lemma_days_through(y, 12);
    lemma_day_offset(y, m, d);
    if m == 1 {
        assert(days_through(y, 0) == 0);
    }
    lemma_days_through_grows(y, m, 12);
}

/// A day number names one date: two valid dates with the same day number
/// are the same date, so `days_to_ymd` gives back the date that
/// `days_from_civil` was given.
pub proof fn lemma_civil_days_injective(y1: int, m1: int, d1: int, y2: int, m2: int, d2: int)
    requires
        valid_date(y1, m1, d1),
        valid_date(y2, m2, d2),
        civil_days(y1, m1, d1) == civil_days(y2, m2, d2),
    ensures
        y1 == y2 && m1 == m2 && d1 == d2,
{
    lemma_date_in_year(y1, m1, d1);
    lemma_date_in_year(y2, m2, d2);
    if y1 < y2 {
        lemma_year_starts_grow(y1, y2);
    } else if y2 < y1 {
        lemma_year_starts_grow(y2, y1);
    } else {
        if m1 < m2 {
            lemma_days_through_grows(y1, m1, m2 - 1);
        } else if m2 < m1 {
            lemma_days_through_grows(y1, m2, m1 - 1);
        }
    }
}


/// Within one year, two dates in the same or in consecutive months are as
/// far apart in approximate day numbers (`365·y + 30·m + d`) as in calendar
/// days, give or take three days.
pub proof fn lemma_day_number_near(y: int, m1: int, d1: int, m2: int, d2: int)
    requires
        valid_date(y, m1, d1),
        valid_date(y, m2, d2),
        m1 <= m2 <= m1 + 1,
    ensures
        -3 <= (day_number(y, m2, d2) - day_number(y, m1, d1)) - (civil_days(y, m2, d2)
            - civil_days(y, m1, d1)) <= 3,
{
    lemma_date_in_year(y, m1, d1);
    lemma_date_in_year(y, m2, d2);
    if m2 == m1 + 1 {
        assert(days_through(y, m2 - 1) == days_through(y, m1 - 1) + month_len(y, m1));
    }
}

} // verus!
