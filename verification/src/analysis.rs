//! Decisions of a fund analysis that do not depend on market figures: which
//! holdings reports to ask for, and how fresh each section of the result is.
use vstd::prelude::*;
use crate::text::{chars_of, contains, contains_in, is_latest, latest_of};

verus! {

broadcast use {vstd::string::group_string_axioms, vstd::slice::group_slice_axioms};

/// A fund type whose stock holdings are worth fetching: all but money-market
/// (货币), pure-bond (纯债) and short-bond (短债) funds declare equity
/// exposure possible.
pub open spec fn wants_stocks(fund_type: Seq<char>) -> bool {
    !(contains(fund_type, "货币"@) || contains(fund_type, "纯债"@) || contains(fund_type, "短债"@))
}

/// Whether the top-10 stock holdings of a fund of type `fund_type` are
/// fetched for its analysis.
pub fn wants_top_stocks(fund_type: &str) -> (b: bool)
    ensures
        b == wants_stocks(fund_type@),
{
    let t = chars_of(fund_type);
    !(contains_in(&t, &chars_of("货币")) || contains_in(&t, &chars_of("纯债")) || contains_in(
        &t,
        &chars_of("短债"),
    ))
}

/// Whether the bond holdings of a fund of type `fund_type` are fetched: only
/// for bond funds (the type mentions 债).
pub fn wants_top_bonds(fund_type: &str) -> (b: bool)
    ensures
        b == contains(fund_type@, "债"@),
{
    contains_in(&chars_of(fund_type), &chars_of("债"))
}

/// The latest date seen in each section of an analysis, or `None` when the
/// section is empty or could not be fetched.
#[derive(Debug, Clone)]
pub struct AsOf {
    pub nav_history: Option<String>,
    pub nav_trend: Option<String>,
    pub accumulated_return: Option<String>,
    pub monthly_series: Option<String>,
    pub top_stocks: Option<String>,
    pub top_bonds: Option<String>,
    pub asset_allocation: Option<String>,
    pub scale_changes: Option<String>,
    pub holder_structure: Option<String>,
}

/// When an analysis was made, and how fresh each of its sections is.
#[derive(Debug, Clone)]
pub struct AnalysisMeta {
    pub generated_at: String,
    pub as_of: AsOf,
}

/// The dates carried by each section of an analysis, in the order the
/// section holds them: newest first for the net value history, the asset
/// allocation, the scale changes and the holder structure; oldest first for
/// the accumulated return and the monthly series; any order for the NAV
/// trend. The holdings reports carry one end date each.
#[derive(Debug, Clone)]
pub struct SectionDates {
    pub nav_history: Vec<String>,
    pub nav_trend: Vec<String>,
    pub accumulated_return: Vec<String>,
    pub monthly_series: Vec<String>,
    pub top_stocks: Option<String>,
    pub top_bonds: Option<String>,
    pub asset_allocation: Vec<String>,
    pub scale_changes: Vec<String>,
    pub holder_structure: Vec<String>,
}

pub open spec fn text_opt(o: Option<String>) -> Option<Seq<char>> {
    match o {
        Some(s) => Some(s@),
        None => None,
    }
}

pub open spec fn first_text(v: Seq<String>) -> Option<Seq<char>> {
    if v.len() == 0 {
        None
    } else {
        Some(v[0]@)
    }
}

pub open spec fn last_text(v: Seq<String>) -> Option<Seq<char>> {
    if v.len() == 0 {
        None
    } else {
        Some(v.last()@)
    }
}

fn first_of(v: &Vec<String>) -> (r: Option<String>)
    ensures
        text_opt(r) == first_text(v@),
{
    if v.len() == 0 {
        None
    } else {
        Some(v[0].clone())
    }
}

fn last_of(v: &Vec<String>) -> (r: Option<String>)
    ensures
        text_opt(r) == last_text(v@),
{
    if v.len() == 0 {
        None
    } else {
        Some(v[v.len() - 1].clone())
    }
}

fn copy_opt(o: &Option<String>) -> (r: Option<String>)
    ensures
        text_opt(r) == text_opt(*o),
{
    match o {
        Some(s) => Some(s.clone()),
        None => None,
    }
}

/// The freshness of each section: the first date of a newest-first
/// section, the last date of an oldest-first one, the greatest date of the
/// NAV trend, and the end date of each holdings report.
pub fn as_of(d: &SectionDates) -> (a: AsOf)
    ensures
        text_opt(a.nav_history) == first_text(d.nav_history@),
        d.nav_trend@.len() == 0 ==> a.nav_trend is None,
        d.nav_trend@.len() > 0 ==> (a.nav_trend matches Some(t) && is_latest(t@, d.nav_trend@)),
        text_opt(a.accumulated_return) == last_text(d.accumulated_return@),
        text_opt(a.monthly_series) == last_text(d.monthly_series@),
        text_opt(a.top_stocks) == text_opt(d.top_stocks),
        text_opt(a.top_bonds) == text_opt(d.top_bonds),
        text_opt(a.asset_allocation) == first_text(d.asset_allocation@),
        text_opt(a.scale_changes) == first_text(d.scale_changes@),
        text_opt(a.holder_structure) == first_text(d.holder_structure@),
{
    let nav_trend = if d.nav_trend.len() == 0 {
        None
    } else {
        Some(latest_of(d.nav_trend.as_slice()))
    };
    AsOf {
        nav_history: first_of(&d.nav_history),
        nav_trend,
        accumulated_return: last_of(&d.accumulated_return),
        monthly_series: last_of(&d.monthly_series),
        top_stocks: copy_opt(&d.top_stocks),
        top_bonds: copy_opt(&d.top_bonds),
        asset_allocation: first_of(&d.asset_allocation),
        scale_changes: first_of(&d.scale_changes),
        holder_structure: first_of(&d.holder_structure),
    }
}

} // verus!
