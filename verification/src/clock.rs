//! Today's date, from the system clock, without a calendar library.
use vstd::prelude::*;
use crate::calendar::{civil_days, days_to_ymd, lemma_civil_days_injective, valid_date};
use crate::num::{decimal, zero_pad, zero_padded};
use crate::text::{push_all, string_of};

verus! {

/// Whole seconds since 1970-01-01 UTC on the system clock
/// (`UNIX_EPOCH.elapsed()`), or `None` when the clock reads earlier than
/// the epoch. Nothing is promised of the value: it is the time.
#[verifier::external_body]
fn seconds_since_epoch() -> (r: Option<u64>) {
    match std::time::UNIX_EPOCH.elapsed() {
        Ok(d) => Some(d.as_secs()),
        Err(_) => None,
    }
}

/// Integer division rounding toward zero, as Rust's `/` does.
pub open spec fn trunc_div(a: int, b: int) -> int {
    if a >= 0 {
        a / b
    } else {
        -((-a) / b)
    }
}

/// The day number that a clock reading gives: seconds as `i64`
/// (two's-complement), divided by 86400, truncated to `i32`.
pub open spec fn day_of_reading(secs: Option<u64>) -> i32 {
    let s: i64 = match secs {
        Some(x) => x as i64,
        None => 0,
    };
    trunc_div(s as int, 86400) as i32
}

/// `ymd` is the date of day number `days` as `days_to_ymd` gives it.
pub open spec fn date_of_day(ymd: (i32, i32, i32), days: i32) -> bool {
    &&& days >= 0 ==> ymd.0 >= 1970 && valid_date(ymd.0 as int, ymd.1 as int, ymd.2 as int)
        && civil_days(ymd.0 as int, ymd.1 as int, ymd.2 as int) == days
    &&& days < 0 ==> ymd.0 == 1970 && ymd.1 == 1 && ymd.2 == days + 1
}

/// The date of the clock reading `secs`, with each field cast to `u32`.
pub open spec fn reading_is(r: (u32, u32, u32), secs: Option<u64>) -> bool {
    exists|ymd: (i32, i32, i32)|
        #![trigger date_of_day(ymd, day_of_reading(secs))]
        date_of_day(ymd, day_of_reading(secs)) && r == (ymd.0 as u32, ymd.1 as u32, ymd.2 as u32)
}

/// The date of a clock reading.
pub fn ymd_of_reading(secs: Option<u64>) -> (r: (u32, u32, u32))
    ensures
        reading_is(r, secs),
{
    let s: i64 = match secs {
        Some(x) => x as i64,
        None => 0,
    };
    let wide: i128 = s as i128;
    let q: i128 = if wide >= 0 {
        wide / 86400
    } else {
        -((-wide) / 86400)
    };
    let days: i32 = q as i32;
    let ymd = days_to_ymd(days);
    assert(date_of_day(ymd, day_of_reading(secs)));
    (ymd.0 as u32, ymd.1 as u32, ymd.2 as u32)
}

/// Today's year, month and day (UTC) from the system clock.
pub fn current_ymd() -> (r: (u32, u32, u32))
    ensures
        exists|secs: Option<u64>| reading_is(r, secs),
{
    let secs = seconds_since_epoch();
    ymd_of_reading(secs)
}

/// Today's year and month (UTC). Local time differs by at most a day, which
/// does not move the quarter.
pub fn current_year_month() -> (r: (u32, u32))
    ensures
        exists|secs: Option<u64>, d: u32| reading_is((r.0, r.1, d), secs),
{
    let (y, m, d) = current_ymd();
    let r = (y, m);
    proof {
        let s = choose|s: Option<u64>| reading_is((y, m, d), s);
        assert(reading_is((r.0, r.1, d), s));
    }
    r
}

/// `YYYY-MM-DD`, each field zero-padded (`{:04}-{:02}-{:02}`).
pub open spec fn ymd_text(y: u32, m: u32, d: u32) -> Seq<char> {
    zero_pad(decimal(y as nat), 4) + "-"@ + zero_pad(decimal(m as nat), 2) + "-"@ + zero_pad(
        decimal(d as nat),
        2,
    )
}

/// Formats a date as `YYYY-MM-DD`.
pub fn format_ymd(y: u32, m: u32, d: u32) -> (s: String)
    ensures
        s@ == ymd_text(y, m, d),
{
    let mut v = zero_padded(y as u64, 4);
    v.push('-');
    push_all(&mut v, &zero_padded(m as u64, 2));
    v.push('-');
    push_all(&mut v, &zero_padded(d as u64, 2));
    proof {
        reveal_strlit("-");
    }
    assert(v@ =~= ymd_text(y, m, d));
    string_of(&v)
}

/// Today's date as `YYYY-MM-DD` (UTC).
pub fn today_ymd() -> (s: String)
    ensures
        exists|secs: Option<u64>, r: (u32, u32, u32)|
            reading_is(r, secs) && s@ == ymd_text(r.0, r.1, r.2),
{
    let r = current_ymd();
    format_ymd(r.0, r.1, r.2)
}


/// `days_to_ymd` undoes `days_from_civil`: the date it gives for the day
/// number of a valid date is that date.
pub proof fn lemma_date_of_day_round_trip(ymd: (i32, i32, i32), y: int, m: int, d: int)
    requires
        valid_date(y, m, d),
        0 <= civil_days(y, m, d) <= i32::MAX,
        date_of_day(ymd, civil_days(y, m, d) as i32),
    ensures
        ymd.0 == y && ymd.1 == m && ymd.2 == d,
{
    lemma_civil_days_injective(ymd.0 as int, ymd.1 as int, ymd.2 as int, y, m, d);
}

} // verus!
