//! The fund archive ("F10") pages: holdings, fee tables and industry lists.
//!
//! Replies are not JSON but `var apidata={ ... }` JavaScript assignments
//! whose `content` field holds an HTML table. This module builds the request
//! URLs and reads those replies; fetching them is left to the caller.
use vstd::prelude::*;
use vstd::slice::slice_subrange;
use crate::html::{
    html_text, strings_view, html_text_chars, parse_table_rows_from_section, rows_view, table_rows, until,
};
use crate::num::{decimal, decimal_chars, zero_pad, zero_padded};
use crate::text::{
    all_digits, chars_of, contains, find, find_in, is_digit, is_ascii_digit, pieces_after,
    push_all, rfind, rfind_in, same_chars, split, split_by, string_of, trim, trim_matches,
    trim_ws, trim_char, views, digits_value, contains_in, is_ws, is_whitespace,
};

verus! {

broadcast use {vstd::string::group_string_axioms, vstd::slice::group_slice_axioms};

/// One row of a purchase or redemption fee table.
#[derive(Debug, Clone)]
pub struct FeeRule {
    pub scope: String,
    pub rate: String,
}

/// The purchase and redemption fee tables of a fund.
#[derive(Debug, Clone)]
pub struct FeeRules {
    pub purchase: Vec<FeeRule>,
    pub redemption: Vec<FeeRule>,
}

/// Purchase/redemption constraints of a fund, read from its name.
#[derive(Debug, Clone)]
pub struct HoldingConstraints {
    /// Purchase status text, e.g. "开放申购"; empty when unknown.
    pub purchase_status: String,
    /// Redemption status text, e.g. "开放赎回"; empty when unknown.
    pub redemption_status: String,
    /// Minimum holding period in days, when the name declares one.
    pub min_holding_days: Option<u32>,
    /// The text the constraints were read from.
    pub features: String,
}

pub open spec fn opt_view(o: Option<String>) -> Option<Seq<char>> {
    match o {
        Some(s) => Some(s@),
        None => None,
    }
}

pub open spec fn opt_chars(o: Option<Vec<char>>) -> Option<Seq<char>> {
    match o {
        Some(s) => Some(s@),
        None => None,
    }
}

// ── `field:"value"` extraction ─────────────────────────────────────────────

/// The value of the first `field:"…"` in `body`: the text after `field:"`
/// up to the next `"`. Values are assumed to hold no double quote (the pages
/// quote HTML attributes with single quotes).
pub open spec fn field_value(body: Seq<char>, field: Seq<char>) -> Option<Seq<char>> {
    let needle = field + seq![':', '"'];
    match find(body, needle) {
        None => None,
        Some(p) => {
            let rest = body.skip(p + needle.len());
            match find(rest, seq!['"']) {
                None => None,
                Some(e) => Some(rest.take(e)),
            }
        },
    }
}

fn field_value_chars(body: &[char], field: &[char]) -> (r: Option<Vec<char>>)
    ensures
        opt_chars(r) == field_value(body@, field@),
{
    let mut needle = crate::text::concat(field, &[':', '"']);
    assert(seq![':', '"'] =~= [':', '"']@);
    proof {
        crate::text::lemma_find(body@, needle@);
    }
    match find_in(body, &needle) {
        None => None,
        Some(p) => {
            assert(p + needle@.len() <= body.len());
            let rest = slice_subrange(body, p + needle.len(), body.len());
            assert(rest@ =~= body@.skip(p + needle@.len()));
            let q = ['"'];
            assert(q@ =~= seq!['"']);
            proof {
                crate::text::lemma_find(rest@, q@);
            }
            match find_in(rest, &q) {
                None => None,
                Some(e) => {
                    let v = crate::text::copy_range(rest, 0, e);
                    assert(v@ =~= rest@.take(e as int));
                    Some(v)
                },
            }
        },
    }
}

/// Extracts the content between the first `field:"` and the next `"`.
pub fn extract_str_field(body: &str, field: &str) -> (r: Option<String>)
    ensures
        opt_view(r) == field_value(body@, field@),
{
    let b = chars_of(body);
    let f = chars_of(field);
    match field_value_chars(&b, &f) {
        Some(v) => Some(string_of(&v)),
        None => None,
    }
}

// ── Boxed sections and fee tables ──────────────────────────────────────────

/// The box of a page that a `<label class="left">title` opens, up to the
/// start of the next box.
pub open spec fn box_section(html: Seq<char>, title: Seq<char>) -> Option<Seq<char>> {
    let marker = "<label class=\"left\">"@ + title;
    match find(html, marker) {
        None => None,
        Some(start) => Some(until(html.skip(start), "</div></div><div class=\"box"@)),
    }
}

fn box_section_chars(html: &[char], title: &[char]) -> (r: Option<Vec<char>>)
    ensures
        opt_chars(r) == box_section(html@, title@),
{
    let label = chars_of("<label class=\"left\">");
    let marker = crate::text::concat(&label, title);
    proof {
        crate::text::lemma_find(html@, marker@);
    }
    match find_in(html, &marker) {
        None => None,
        Some(start) => {
            let rest = slice_subrange(html, start, html.len());
            assert(rest@ =~= html@.skip(start as int));
            let end = chars_of("</div></div><div class=\"box");
            proof {
                crate::text::lemma_find(rest@, end@);
            }
            let stop = match find_in(rest, &end) {
                Some(e) => e,
                None => rest.len(),
            };
            let v = crate::text::copy_range(rest, 0, stop);
            assert(v@ =~= until(rest@, end@));
            Some(v)
        },
    }
}

/// The box of `html` titled `title`: from its `<label class="left">` up to
/// the start of the next box, or to the end of the page.
pub fn extract_box_section(html: &str, title: &str) -> (r: Option<String>)
    ensures
        opt_view(r) == box_section(html@, title@),
{
    let h = chars_of(html);
    let t = chars_of(title);
    match box_section_chars(&h, &t) {
        Some(v) => Some(string_of(&v)),
        None => None,
    }
}

/// A fee rule read from a table row: its first two cells.
pub open spec fn fee_rule_of(row: Seq<Seq<char>>) -> Option<(Seq<char>, Seq<char>)> {
    if row.len() >= 2 {
        Some((row[0], row[1]))
    } else {
        None
    }
}

/// The fee rules of a fee-table section: one per row with at least two
/// cells, scope from the first cell and rate from the second.
pub open spec fn fee_rules_in(section: Seq<char>) -> Seq<(Seq<char>, Seq<char>)> {
    table_rows(section).filter_map(|r: Seq<Seq<char>>| fee_rule_of(r))
}

pub open spec fn rules_view(v: Seq<FeeRule>) -> Seq<(Seq<char>, Seq<char>)> {
    v.map_values(|r: FeeRule| (r.scope@, r.rate@))
}

/// Fee rules from the rows of a fee-table section.
pub fn parse_fee_rules(section_html: &str) -> (rules: Vec<FeeRule>)
    ensures
        rules_view(rules@) == fee_rules_in(section_html@),
{
    let rows = parse_table_rows_from_section(section_html);
    let ghost rs = rows_view(rows@);
    let mut out: Vec<FeeRule> = Vec::new();
    let mut i: usize = 0;
    assert(rs.take(0) =~= Seq::<Seq<Seq<char>>>::empty());
    assert(rules_view(out@) =~= Seq::<(Seq<char>, Seq<char>)>::empty());
    while i < rows.len()
        invariant
            i <= rows@.len(),
            rs == rows_view(rows@),
            rules_view(out@) == rs.take(i as int).filter_map(|r: Seq<Seq<char>>| fee_rule_of(r)),
        decreases rows@.len() - i,
    {
        assert(rs.take(i + 1).drop_last() =~= rs.take(i as int));
        assert(rs.take(i + 1).last() == rs[i as int]);
        let row = &rows[i];
        if row.len() >= 2 {
            let rule = FeeRule { scope: row[0].clone(), rate: row[1].clone() };
            let ghost before = out@;
            out.push(rule);
            assert(rules_view(out@) =~= rules_view(before) + seq![(row@[0]@, row@[1]@)]);
        }
        i = i + 1;
    }
    assert(rs.take(rs.len() as int) =~= rs);
    out
}

/// The fee rules of the box titled `title`, or none when the page has no
/// such box.
pub open spec fn boxed_fee_rules(page: Seq<char>, title: Seq<char>) -> Seq<(Seq<char>, Seq<char>)> {
    match box_section(page, title) {
        Some(sec) => fee_rules_in(sec),
        None => seq![],
    }
}

fn boxed_rules(page: &[char], title: &str) -> (rules: Vec<FeeRule>)
    ensures
        rules_view(rules@) == boxed_fee_rules(page@, title@),
{
    let t = chars_of(title);
    match box_section_chars(page, &t) {
        Some(sec) => {
            let s = string_of(&sec);
            parse_fee_rules(s.as_str())
        },
        None => {
            let v: Vec<FeeRule> = Vec::new();
            assert(rules_view(v@) =~= Seq::<(Seq<char>, Seq<char>)>::empty());
            v
        },
    }
}

/// The purchase (申购费率) and redemption (赎回费率) fee rules of a fund's
/// fee page; a table that the page lacks comes back empty.
pub fn get_fee_rules(page: &str) -> (rules: FeeRules)
    ensures
        rules_view(rules.purchase@) == boxed_fee_rules(page@, "申购费率"@),
        rules_view(rules.redemption@) == boxed_fee_rules(page@, "赎回费率"@),
{
    let p = chars_of(page);
    let purchase = boxed_rules(&p, "申购费率");
    let redemption = boxed_rules(&p, "赎回费率");
    FeeRules { purchase, redemption }
}

// ── Report period and end date ─────────────────────────────────────────────

/// A `YYYY-MM-DD` pattern (ASCII digits and dashes) starts at `i`.
pub open spec fn date_at(s: Seq<char>, i: int) -> bool {
    &&& 0 <= i && i + 10 <= s.len()
    &&& s[i + 4] == '-' && s[i + 7] == '-'
    &&& forall|k: int| 0 <= k < 10 && k != 4 && k != 7 ==> is_digit(#[trigger] s[i + k])
}

/// The first position at or after `k` where a date pattern starts.
pub open spec fn first_date_from(s: Seq<char>, k: int) -> Option<int>
    decreases s.len() + 1 - k,
{
    if k < 0 || k + 10 > s.len() {
        None
    } else if date_at(s, k) {
        Some(k)
    } else {
        first_date_from(s, k + 1)
    }
}

/// The first `YYYY-MM-DD` in `content`.
pub open spec fn first_date(content: Seq<char>) -> Option<Seq<char>> {
    match first_date_from(content, 0) {
        Some(i) => Some(content.subrange(i, i + 10)),
        None => None,
    }
}

fn date_pattern_at(s: &[char], i: usize) -> (b: bool)
    requires
        i + 10 <= s.len(),
    ensures
        b == date_at(s@, i as int),
{
    if s[i + 4] != '-' || s[i + 7] != '-' {
        return false;
    }
    let mut k: usize = 0;
    while k < 10
        invariant
            i + 10 <= s.len(),
            k <= 10,
            forall|m: int| 0 <= m < k && m != 4 && m != 7 ==> is_digit(#[trigger] s@[i + m]),
        decreases 10 - k,
    {
        if k != 4 && k != 7 && !is_ascii_digit(s[i + k]) {
            return false;
        }
        k = k + 1;
    }
    true
}

/// The first `YYYY-MM-DD` in `content`, e.g. from `<font class='px12'>2026-03-31</font>`.
pub fn extract_end_date(content: &str) -> (r: Option<String>)
    ensures
        opt_view(r) == first_date(content@),
{
    let s = chars_of(content);
    let mut i: usize = 0;
    while i < s.len() && s.len() - i >= 10
        invariant
            i <= s.len(),
            s@ == content@,
            first_date_from(s@, 0) == first_date_from(s@, i as int),
        decreases s@.len() + 1 - i,
    {
        if date_pattern_at(&s, i) {
            assert(first_date_from(s@, i as int) == Some(i as int));
            let v = crate::text::copy_range(&s, i, i + 10);
            return Some(string_of(&v));
        }
        i = i + 1;
    }
    None
}

/// The first of `pieces` that contains `pat`.
pub open spec fn first_containing(pieces: Seq<Seq<char>>, pat: Seq<char>) -> Option<Seq<char>>
    decreases pieces.len(),
{
    if pieces.len() == 0 {
        None
    } else if contains(pieces[0], pat) {
        Some(pieces[0])
    } else {
        first_containing(pieces.drop_first(), pat)
    }
}

/// The report period text (e.g. "2026年1季度"): the `quarter` field when the
/// reply has one, else the `&nbsp;&nbsp;`-separated segment of the content
/// header that mentions 季度, as plain text.
pub open spec fn report_period(body: Seq<char>) -> Option<Seq<char>> {
    match field_value(body, "quarter"@) {
        Some(q) => Some(q),
        None => match field_value(body, "content"@) {
            None => None,
            Some(content) => if !contains(content, "年"@) {
                None
            } else {
                match first_containing(split(content, "&nbsp;&nbsp;"@), "季度"@) {
                    Some(seg) => Some(trim(html_text(seg))),
                    None => None,
                }
            },
        },
    }
}

/// Extracts the report period text.
pub fn extract_period(body: &str) -> (r: Option<String>)
    ensures
        opt_view(r) == report_period(body@),
{
    let b = chars_of(body);
    let quarter = chars_of("quarter");
    if let Some(q) = field_value_chars(&b, &quarter) {
        return Some(string_of(&q));
    }
    let content_name = chars_of("content");
    let content = match field_value_chars(&b, &content_name) {
        None => return None,
        Some(c) => c,
    };
    let year_mark = chars_of("年");
    if !contains_in(&content, &year_mark) {
        return None;
    }
    let sep = chars_of("&nbsp;&nbsp;");
    proof {
        reveal_strlit("&nbsp;&nbsp;");
    }
    let pieces = split_by(&content, &sep);
    let ghost ps = views(pieces@);
    let quarter_mark = chars_of("季度");
    let mut k: usize = 0;
    assert(ps.skip(0) =~= ps);
    while k < pieces.len()
        invariant
            k <= pieces@.len(),
            ps == views(pieces@),
            ps == split(content@, sep@),
            quarter_mark@ == "季度"@,
            b@ == body@,
            field_value(b@, "quarter"@) is None,
            field_value(b@, "content"@) == Some(content@),
            contains(content@, "年"@),
            sep@ == "&nbsp;&nbsp;"@,
            first_containing(ps, quarter_mark@) == first_containing(ps.skip(k as int), quarter_mark@),
        decreases pieces@.len() - k,
    {
        assert(ps.skip(k as int)[0] == pieces@[k as int]@);
        assert(ps.skip(k as int).drop_first() =~= ps.skip(k + 1));
        if contains_in(&pieces[k], &quarter_mark) {
            assert(first_containing(ps.skip(k as int), quarter_mark@) == Some(pieces@[k as int]@));
            assert(ps == split(content@, sep@));
            let t = html_text_chars(&pieces[k]);
            let tt = trim_ws(&t);
            return Some(string_of(&tt));
        }
        k = k + 1;
    }
    assert(ps.skip(k as int) =~= Seq::<Seq<char>>::empty());
    None
}


// ── Industry list ──────────────────────────────────────────────────────────

/// The raw `hylx:[ … ]}` array of an industry-list reply: the text after
/// the first `hylx:[` up to the last `]}` after it.
pub open spec fn industry_array(body: Seq<char>) -> Option<Seq<char>> {
    match find(body, "hylx:["@) {
        None => None,
        Some(i) => {
            let rest = body.skip(i + 6);
            match rfind(rest, "]}"@) {
                None => None,
                Some(e) => Some(rest.take(e)),
            }
        },
    }
}

/// The `(code, name)` pair that a piece following `[` holds: the text up to
/// the first `]`, split at its first comma, each side trimmed of whitespace
/// and then of double quotes. The total row (`ZZZ` / 合计) and the numeric
/// CSI codes are left out, so only the CSRC letter scheme remains.
pub open spec fn industry_pair(chunk: Seq<char>) -> Option<(Seq<char>, Seq<char>)> {
    match find(chunk, seq![']']) {
        None => None,
        Some(e) => {
            let pair = chunk.take(e);
            match find(pair, seq![',']) {
                None => None,
                Some(c) => {
                    let code = trim_char(trim(pair.take(c)), '"');
                    let name = trim_char(trim(pair.skip(c + 1)), '"');
                    if code == "ZZZ"@ || name == "合计"@ || all_digits(code) {
                        None
                    } else {
                        Some((code, name))
                    }
                },
            }
        },
    }
}

/// The industries of an industry-list reply, in page order.
pub open spec fn industry_list(body: Seq<char>) -> Seq<(Seq<char>, Seq<char>)> {
    match industry_array(body) {
        None => seq![],
        Some(raw) => pieces_after(raw, seq!['[']).filter_map(
            |c: Seq<char>| industry_pair(c),
        ),
    }
}

/// The industry list keeps one taxonomy only: no code of it is numeric
/// (the CSI scheme), and the total row (`ZZZ` / 合计) is never part of it,
/// so summing its exposures counts each holding once.
pub proof fn lemma_industry_list_is_csrc(body: Seq<char>)
    ensures
        forall|i: int|
            0 <= i < industry_list(body).len() ==> {
                let p = #[trigger] industry_list(body)[i];
                &&& !all_digits(p.0)
                &&& p.0 != "ZZZ"@
                &&& p.1 != "合计"@
            },
{
    match industry_array(body) {
        None => {},
        Some(raw) => {
            let s = pieces_after(raw, seq!['[']);
            let f = |c: Seq<char>| industry_pair(c);
            assert(industry_list(body) == s.filter_map(f));
            assert forall|i: int| 0 <= i < industry_list(body).len() implies {
                let p = #[trigger] industry_list(body)[i];
                &&& !all_digits(p.0)
                &&& p.0 != "ZZZ"@
                &&& p.1 != "合计"@
            } by {
                let elt = s.filter_map(f)[i];
                assert(s.filter_map(f).contains(elt));
                s.lemma_filter_map_contains(f, elt);
                let t = choose|t: Seq<char>| #[trigger] s.contains(t) && f(t) == Some(elt);
                assert(industry_pair(t) == Some(elt));
            }
        },
    }
}

pub open spec fn pairs_view(v: Seq<(String, String)>) -> Seq<(Seq<char>, Seq<char>)> {
    v.map_values(|p: (String, String)| (p.0@, p.1@))
}

fn all_ascii_digits(s: &[char]) -> (b: bool)
    ensures
        b == all_digits(s@),
{
    let mut i: usize = 0;
    while i < s.len()
        invariant
            i <= s@.len(),
            forall|k: int| 0 <= k < i ==> is_digit(#[trigger] s@[k]),
        decreases s@.len() - i,
    {
        if !is_ascii_digit(s[i]) {
            return false;
        }
        i = i + 1;
    }
    true
}

fn industry_pair_of(chunk: &[char]) -> (r: Option<(String, String)>)
    ensures
        r matches Some(p) ==> industry_pair(chunk@) == Some((p.0@, p.1@)),
        r is None ==> industry_pair(chunk@) is None,
{
    let close = [']'];
    assert(close@ =~= seq![']']);
    proof {
        crate::text::lemma_find(chunk@, close@);
    }
    let e = match find_in(chunk, &close) {
        None => return None,
        Some(e) => e,
    };
    let pair = slice_subrange(chunk, 0, e);
    assert(pair@ =~= chunk@.take(e as int));
    let comma = [','];
    assert(comma@ =~= seq![',']);
    proof {
        crate::text::lemma_find(pair@, comma@);
    }
    let c = match find_in(pair, &comma) {
        None => return None,
        Some(c) => c,
    };
    let left = slice_subrange(pair, 0, c);
    assert(left@ =~= pair@.take(c as int));
    let right = slice_subrange(pair, c + 1, pair.len());
    assert(right@ =~= pair@.skip(c + 1));
    let code = trim_matches(&trim_ws(left), '"');
    let name = trim_matches(&trim_ws(right), '"');
    let zzz = chars_of("ZZZ");
    let total = chars_of("合计");
    if same_chars(&code, &zzz) || same_chars(&name, &total) || all_ascii_digits(&code) {
        return None;
    }
    Some((string_of(&code), string_of(&name)))
}

/// `(industry_code, industry_name)` pairs of a fund's industry-list reply.
///
/// The reply mixes the CSRC letter scheme (A-Z) with the CSI two-digit
/// numeric scheme; both describe the same exposure, so only the letters are
/// kept. An unrecognised reply gives an empty list.
pub fn get_industry_list(body: &str) -> (list: Vec<(String, String)>)
    ensures
        pairs_view(list@) == industry_list(body@),
{
    let b = chars_of(body);
    let key = chars_of("hylx:[");
    proof {
        reveal_strlit("hylx:[");
        crate::text::lemma_find(b@, key@);
    }
    let mut out: Vec<(String, String)> = Vec::new();
    assert(pairs_view(out@) =~= Seq::<(Seq<char>, Seq<char>)>::empty());
    let start = match find_in(&b, &key) {
        None => return out,
        Some(i) => {
            assert(i + key@.len() <= b.len());
            i + key.len()
        },
    };
    let rest = slice_subrange(&b, start, b.len());
    assert(rest@ =~= b@.skip(start as int));
    let end_mark = chars_of("]}");
    let end = match rfind_in(rest, &end_mark) {
        None => return out,
        Some(e) => e,
    };
    proof {
        crate::text::lemma_rfind_from(rest@, end_mark@, rest@.len() - end_mark@.len());
    }
    let raw = slice_subrange(rest, 0, end);
    assert(raw@ =~= rest@.take(end as int));
    let open = ['['];
    assert(open@ =~= seq!['[']);
    let pieces = split_by(raw, &open);
    proof {
        crate::html::lemma_split_len(raw@, open@);
    }
    let ghost ps = views(pieces@);
    let mut k: usize = 1;
    assert(ps.subrange(1, 1) =~= Seq::<Seq<char>>::empty());
    while k < pieces.len()
        invariant
            1 <= k <= pieces@.len(),
            ps == views(pieces@),
            pairs_view(out@) == ps.subrange(1, k as int).filter_map(
                |c: Seq<char>| industry_pair(c),
            ),
        decreases pieces@.len() - k,
    {
        assert(ps.subrange(1, k + 1).drop_last() =~= ps.subrange(1, k as int));
        assert(ps.subrange(1, k + 1).last() == pieces@[k as int]@);
        match industry_pair_of(&pieces[k]) {
            Some(p) => {
                let ghost before = out@;
                out.push(p);
                assert(pairs_view(out@) =~= pairs_view(before) + seq![(p.0@, p.1@)]);
            },
            None => {},
        }
        k = k + 1;
    }
    assert(ps.subrange(1, ps.len() as int) =~= ps.drop_first());
    out
}


// ── Minimum holding period ─────────────────────────────────────────────────

/// The largest value a `u32` holds; counts saturate there.
pub open spec fn u32_cap(x: nat) -> nat {
    if x > u32::MAX {
        u32::MAX as nat
    } else {
        x
    }
}

/// A maximal run of ASCII digits starts at `i`.
pub open spec fn run_starts(t: Seq<char>, i: int) -> bool {
    0 <= i < t.len() && is_digit(t[i]) && (i == 0 || !is_digit(t[i - 1]))
}

/// The end of the run of ASCII digits that covers position `i`.
pub open spec fn digits_end(t: Seq<char>, i: int) -> int
    decreases t.len() - i,
{
    if 0 <= i < t.len() && is_digit(t[i]) {
        digits_end(t, i + 1)
    } else {
        i
    }
}

/// Days that `num` units of `unit` make: 天/日 count days, 月 30 days and
/// 年 365 days; any other character is no unit.
pub open spec fn unit_days(unit: char, num: nat) -> Option<nat> {
    if unit == '天' || unit == '日' {
        Some(num)
    } else if unit == '月' {
        Some(u32_cap(num * 30))
    } else if unit == '年' {
        Some(u32_cap(num * 365))
    } else {
        None
    }
}

/// The first position at or after `k` that is not whitespace.
pub open spec fn skip_ws(t: Seq<char>, k: int) -> int
    decreases t.len() - k,
{
    if 0 <= k < t.len() && is_ws(t[k]) {
        skip_ws(t, k + 1)
    } else {
        k
    }
}

/// Where the unit of a number ending at `j` stands: after optional
/// whitespace and an optional measure word 个 (itself followed by optional
/// whitespace), as in "6个月" or "6 个 月".
pub open spec fn unit_pos(t: Seq<char>, j: int) -> int {
    let a = skip_ws(t, j);
    if 0 <= a < t.len() && t[a] == '个' {
        skip_ws(t, a + 1)
    } else {
        a
    }
}

/// The period, in days, that the digit run starting at `i` declares: a
/// positive number (saturated to `u32`) followed by a unit, with optional
/// whitespace and 个 between them.
pub open spec fn period_at(t: Seq<char>, i: int) -> Option<nat> {
    if run_starts(t, i) {
        let j = digits_end(t, i);
        let num = u32_cap(digits_value(t.subrange(i, j)));
        let u = unit_pos(t, j);
        if u < t.len() && num > 0 {
            unit_days(t[u], num)
        } else {
            None
        }
    } else {
        None
    }
}

proof fn lemma_skip_ws_bounds(t: Seq<char>, k: int)
    requires
        0 <= k <= t.len(),
    ensures
        k <= skip_ws(t, k) <= t.len(),
    decreases t.len() - k,
{
    if k < t.len() && is_ws(t[k]) {
        lemma_skip_ws_bounds(t, k + 1);
    }
}

fn skip_whitespace(t: &[char], k: usize) -> (r: usize)
    requires
        k <= t@.len(),
    ensures
        r == skip_ws(t@, k as int),
        k <= r <= t@.len(),
{
    let mut r = k;
    proof {
        lemma_skip_ws_bounds(t@, k as int);
    }
    while r < t.len() && is_whitespace(t[r])
        invariant
            k <= r <= t@.len(),
            skip_ws(t@, k as int) == skip_ws(t@, r as int),
        decreases t@.len() - r,
    {
        r = r + 1;
    }
    r
}

fn unit_index(t: &[char], j: usize) -> (u: usize)
    requires
        j <= t@.len(),
    ensures
        u == unit_pos(t@, j as int),
        j <= u <= t@.len(),
{
    let a = skip_whitespace(t, j);
    if a < t.len() && t[a] == '个' {
        skip_whitespace(t, a + 1)
    } else {
        a
    }
}

/// `o` holds no value above `d`.
pub open spec fn at_most(o: Option<nat>, d: nat) -> bool {
    match o {
        Some(e) => e <= d,
        None => true,
    }
}

/// The text mentions a holding (持有) or closed (封闭) period.
pub open spec fn mentions_holding(t: Seq<char>) -> bool {
    contains(t, "持有"@) || contains(t, "封闭"@)
}

proof fn lemma_digits_end(t: Seq<char>, i: int, j: int)
    requires
        0 <= i <= j <= t.len(),
        forall|k: int| i <= k < j ==> is_digit(#[trigger] t[k]),
        j == t.len() || !is_digit(t[j]),
    ensures
        digits_end(t, i) == j,
    decreases j - i,
{
    if i < j {
        lemma_digits_end(t, i + 1, j);
    }
}

proof fn lemma_cap_step(v: nat, d: nat)
    requires
        d <= 9,
    ensures
        u32_cap(u32_cap(v) * 10 + d) == u32_cap(v * 10 + d),
{
    if v > u32::MAX {
        assert(v * 10 + d > u32::MAX) by (nonlinear_arith)
            requires
                v > u32::MAX,
        ;
    }
}

/// The minimum holding period, in days, that a fund name or feature blurb
/// declares.
///
/// Only texts that mention 持有 or 封闭 are read. Every maximal run of ASCII
/// digits with a positive value followed by 天/日, 月 or 年 is a candidate;
/// whitespace and the measure word 个 may stand between the number and its
/// unit ("90天持有期" gives 90, "持有 6 个月" 180, "3年封闭运作" 1095). The
/// answer is the largest candidate, counts saturating at `u32::MAX`.
pub fn parse_min_holding_days(text: &str) -> (r: Option<u32>)
    ensures
        r is None <==> (!mentions_holding(text@) || forall|i: int| #[trigger]
            period_at(text@, i) is None),
        r matches Some(d) ==> largest_period(text@, d as nat),
{
    let t = chars_of(text);
    let hold = chars_of("持有");
    let closed = chars_of("封闭");
    if !contains_in(&t, &hold) && !contains_in(&t, &closed) {
        return None;
    }
    let mut best: Option<u32> = None;
    let mut i: usize = 0;
    while i < t.len()
        invariant
            i <= t@.len(),
            t@ == text@,
            mentions_holding(t@),
            (i < t@.len() && is_digit(t@[i as int])) ==> run_starts(t@, i as int),
            best is None ==> forall|k: int| 0 <= k < i ==> #[trigger] period_at(t@, k) is None,
            best matches Some(d) ==> (exists|k: int| 0 <= k < i && #[trigger] period_at(t@, k)
                == Some(d as nat)) && forall|k: int|
                0 <= k < i ==> at_most(#[trigger] period_at(t@, k), d as nat),
        decreases t@.len() - i,
    {
        if is_ascii_digit(t[i]) {
            let mut j = i;
            let mut num: u64 = 0;
            assert(t@.subrange(i as int, i as int) =~= Seq::<char>::empty());
            while j < t.len() && is_ascii_digit(t[j])
                invariant
                    i <= j <= t@.len(),
                    forall|k: int| i <= k < j ==> is_digit(#[trigger] t@[k]),
                    num == u32_cap(digits_value(t@.subrange(i as int, j as int))),
                decreases t@.len() - j,
            {
                let d: u64 = (t[j] as u32 - '0' as u32) as u64;
                proof {
                    let before = t@.subrange(i as int, j as int);
                    let after = t@.subrange(i as int, j + 1);
                    assert(after.drop_last() =~= before);
                    assert(after.last() == t@[j as int]);
                    lemma_cap_step(digits_value(before), d as nat);
                }
                let next = num * 10 + d;
                num = if next > 4294967295u64 {
                    4294967295u64
                } else {
                    next
                };
                j = j + 1;
            }
            proof {
                lemma_digits_end(t@, i as int, j as int);
                assert forall|k: int| i < k < j implies !run_starts(t@, k) by {
                    assert(is_digit(t@[k - 1]));
                }
                assert forall|k: int| i < k < j implies #[trigger] period_at(t@, k) is None by {
                    assert(!run_starts(t@, k));
                }
            }
            let u = unit_index(&t, j);
            if u < t.len() && num > 0 {
                let c = t[u];
                let days: Option<u64> = if c == '天' || c == '日' {
                    Some(num)
                } else if c == '月' {
                    let x = num * 30;
                    Some(
                        if x > 4294967295u64 {
                            4294967295u64
                        } else {
                            x
                        },
                    )
                } else if c == '年' {
                    let x = num * 365;
                    Some(
                        if x > 4294967295u64 {
                            4294967295u64
                        } else {
                            x
                        },
                    )
                } else {
                    None
                };
                assert(period_at(t@, i as int) == match days {
                    Some(x) => Some(x as nat),
                    None => None::<nat>,
                });
                if let Some(dd) = days {
                    let dv = dd as u32;
                    best = match best {
                        None => Some(dv),
                        Some(p) => Some(
                            if p >= dv {
                                p
                            } else {
                                dv
                            },
                        ),
                    };
                }
            } else {
                assert(period_at(t@, i as int) is None);
            }
            i = j;
        } else {
            assert(period_at(t@, i as int) is None);
            i = i + 1;
        }
    }
    best
}

/// Holding-period constraints read from a fund's names.
///
/// The full name is preferred as the feature text (it is richer); when it is
/// empty the short name is used. The minimum holding period is read from the
/// feature text, and from the short name when the feature text declares
/// none. Purchase and redemption status are not published in a structured
/// form and stay empty.
pub fn detect_holding_constraints(short_name: &str, full_name: &str) -> (c: HoldingConstraints)
    ensures
        c.features@ == (if full_name@.len() == 0 {
            short_name@
        } else {
            full_name@
        }),
        c.min_holding_days == (match min_holding_spec(c.features@) {
            Some(d) => Some(d),
            None => min_holding_spec(short_name@),
        }),
        c.purchase_status@.len() == 0,
        c.redemption_status@.len() == 0,
{
    let features = if full_name.is_empty() {
        short_name.to_owned()
    } else {
        full_name.to_owned()
    };
    let first = parse_min_holding_days(features.as_str());
    proof {
        lemma_min_holding_spec(features@, first);
    }
    let min_holding_days = match first {
        Some(d) => Some(d),
        None => {
            let second = parse_min_holding_days(short_name);
            proof {
                lemma_min_holding_spec(short_name@, second);
            }
            second
        },
    };
    HoldingConstraints {
        purchase_status: String::new(),
        redemption_status: String::new(),
        min_holding_days,
        features,
    }
}

/// `d` is the largest holding period among the candidates of `t`.
pub open spec fn largest_period(t: Seq<char>, d: nat) -> bool {
    (exists|i: int| #[trigger] period_at(t, i) == Some(d)) && forall|i: int|
        at_most(#[trigger] period_at(t, i), d)
}

/// The minimum holding period that `t` declares, as `parse_min_holding_days`
/// reads it: the largest candidate of a text that mentions a holding period.
pub open spec fn min_holding_spec(t: Seq<char>) -> Option<u32> {
    if mentions_holding(t) && exists|i: int| #[trigger] period_at(t, i) is Some {
        Some(choose|d: u32| #[trigger] largest_period(t, d as nat))
    } else {
        None
    }
}

proof fn lemma_min_holding_spec(t: Seq<char>, r: Option<u32>)
    requires
        r is None <==> (!mentions_holding(t) || forall|i: int| #[trigger]
            period_at(t, i) is None),
        r matches Some(d) ==> largest_period(t, d as nat),
    ensures
        r == min_holding_spec(t),
{
    if let Some(d) = r {
        assert(largest_period(t, d as nat));
        let c = choose|x: u32| #[trigger] largest_period(t, x as nat);
        assert(largest_period(t, c as nat));
        let i1 = choose|i: int| #[trigger] period_at(t, i) == Some(d as nat);
        let i2 = choose|i: int| #[trigger] period_at(t, i) == Some(c as nat);
        assert(at_most(period_at(t, i1), c as nat));
        assert(at_most(period_at(t, i2), d as nat));
    }
}


// ── Report tables ──────────────────────────────────────────────────────────

/// The `content` field of a reply, or nothing when it has none.
pub open spec fn content_of(body: Seq<char>) -> Seq<char> {
    match field_value(body, "content"@) {
        Some(c) => c,
        None => seq![],
    }
}

pub open spec fn or_empty(o: Option<Seq<char>>) -> Seq<char> {
    match o {
        Some(s) => s,
        None => seq![],
    }
}

/// A holdings report read from an archive reply: its period text, its end
/// date and the rows of its table, each empty when the reply lacks it.
#[derive(Debug, Clone)]
pub struct ReportTable {
    pub period: String,
    pub end_date: String,
    pub rows: Vec<Vec<String>>,
}

/// The `content` field of a reply as characters.
fn content_chars(body: &[char]) -> (c: Vec<char>)
    ensures
        c@ == content_of(body@),
{
    let name = chars_of("content");
    match field_value_chars(body, &name) {
        Some(c) => c,
        None => Vec::new(),
    }
}

/// The table rows of a reply's `content` field.
pub fn content_rows(body: &str) -> (rows: Vec<Vec<String>>)
    ensures
        rows_view(rows@) == table_rows(content_of(body@)),
{
    let b = chars_of(body);
    let c = content_chars(&b);
    let cs = string_of(&c);
    parse_table_rows_from_section(cs.as_str())
}

/// Period, end date and rows of a quarterly holdings reply (`jjcc` stock or
/// `zqcc` bond holdings).
pub fn read_report_table(body: &str) -> (t: ReportTable)
    ensures
        t.period@ == or_empty(report_period(body@)),
        t.end_date@ == or_empty(first_date(content_of(body@))),
        rows_view(t.rows@) == table_rows(content_of(body@)),
{
    let b = chars_of(body);
    let c = content_chars(&b);
    let cs = string_of(&c);
    let period = match extract_period(body) {
        Some(p) => p,
        None => String::new(),
    };
    let end_date = match extract_end_date(cs.as_str()) {
        Some(d) => d,
        None => String::new(),
    };
    let rows = parse_table_rows_from_section(cs.as_str());
    ReportTable { period, end_date, rows }
}

/// `s` without any comma.
pub open spec fn drop_commas(s: Seq<char>) -> Seq<char>
    decreases s.len(),
{
    if s.len() == 0 {
        seq![]
    } else if s.last() == ',' {
        drop_commas(s.drop_last())
    } else {
        drop_commas(s.drop_last()).push(s.last())
    }
}

fn without_commas(s: &[char]) -> (r: Vec<char>)
    ensures
        r@ == drop_commas(s@),
{
    let mut r: Vec<char> = Vec::new();
    let mut i: usize = 0;
    assert(s@.take(0) =~= Seq::<char>::empty());
    while i < s.len()
        invariant
            i <= s@.len(),
            r@ == drop_commas(s@.take(i as int)),
        decreases s@.len() - i,
    {
        assert(s@.take(i + 1).drop_last() =~= s@.take(i as int));
        assert(s@.take(i + 1).last() == s@[i as int]);
        if s[i] != ',' {
            r.push(s[i]);
        }
        i = i + 1;
    }
    assert(s@.take(s@.len() as int) =~= s@);
    r
}

/// The number text of a percentage cell: trimmed, trailing `%` removed and
/// thousands separators dropped (e.g. " 1,234.5% " gives "1234.5").
pub fn percent_text(cell: &str) -> (r: String)
    ensures
        r@ == drop_commas(crate::text::trim_end_char(trim(cell@), '%')),
{
    let c = chars_of(cell);
    let t = trim_ws(&c);
    let u = crate::text::trim_end_matches(&t, '%');
    let v = without_commas(&u);
    string_of(&v)
}

/// The number text of an amount cell: trimmed, thousands separators dropped.
pub fn amount_text(cell: &str) -> (r: String)
    ensures
        r@ == drop_commas(trim(cell@)),
{
    let c = chars_of(cell);
    let t = trim_ws(&c);
    let v = without_commas(&t);
    string_of(&v)
}

// ── Request URLs ───────────────────────────────────────────────────────────

/// The archive host that all F10 requests go to.
pub open spec fn f10_base() -> Seq<char> {
    "https://fundf10.eastmoney.com"@
}

fn append(v: &mut Vec<char>, s: &str)
    ensures
        final(v)@ == old(v)@ + s@,
{
    let c = chars_of(s);
    push_all(v, &c);
}

pub open spec fn top_stocks_url_spec(code: Seq<char>, year: nat, month: nat) -> Seq<char> {
    f10_base() + "/FundArchivesDatas.aspx?type=jjcc&code="@ + code + "&topline=10&year="@
        + decimal(year) + "&month="@ + zero_pad(decimal(month), 2) + "&rt=0"@
}

/// URL of the top-10 stock holdings (jjcc) of a fund at a quarter-end.
pub fn top_stocks_url(code: &str, year: u32, month: u32) -> (url: String)
    ensures
        url@ == top_stocks_url_spec(code@, year as nat, month as nat),
{
    let mut v = chars_of("https://fundf10.eastmoney.com");
    append(&mut v, "/FundArchivesDatas.aspx?type=jjcc&code=");
    append(&mut v, code);
    append(&mut v, "&topline=10&year=");
    push_all(&mut v, &decimal_chars(year as u64));
    append(&mut v, "&month=");
    push_all(&mut v, &zero_padded(month as u64, 2));
    append(&mut v, "&rt=0");
    string_of(&v)
}

pub open spec fn top_bonds_url_spec(code: Seq<char>, year: nat, month: nat) -> Seq<char> {
    f10_base() + "/FundArchivesDatas.aspx?type=zqcc&code="@ + code + "&year="@ + decimal(year)
        + "&month="@ + zero_pad(decimal(month), 2) + "&rt=0"@
}

/// URL of the bond holdings (zqcc) of a fund at a quarter-end.
pub fn top_bonds_url(code: &str, year: u32, month: u32) -> (url: String)
    ensures
        url@ == top_bonds_url_spec(code@, year as nat, month as nat),
{
    let mut v = chars_of("https://fundf10.eastmoney.com");
    append(&mut v, "/FundArchivesDatas.aspx?type=zqcc&code=");
    append(&mut v, code);
    append(&mut v, "&year=");
    push_all(&mut v, &decimal_chars(year as u64));
    append(&mut v, "&month=");
    push_all(&mut v, &zero_padded(month as u64, 2));
    append(&mut v, "&rt=0");
    string_of(&v)
}

/// URL of a fund's fee page.
pub fn fee_rules_url(code: &str) -> (url: String)
    ensures
        url@ == f10_base() + "/jjfl_"@ + code@ + ".html"@,
{
    let mut v = chars_of("https://fundf10.eastmoney.com");
    append(&mut v, "/jjfl_");
    append(&mut v, code);
    append(&mut v, ".html");
    string_of(&v)
}

/// URL of a fund's industry list (hylx).
pub fn industry_list_url(code: &str) -> (url: String)
    ensures
        url@ == f10_base() + "/F10DataApi.aspx?pt=1&type=hylx&code="@ + code@ + "&rt=0"@,
{
    let mut v = chars_of("https://fundf10.eastmoney.com");
    append(&mut v, "/F10DataApi.aspx?pt=1&type=hylx&code=");
    append(&mut v, code);
    append(&mut v, "&rt=0");
    string_of(&v)
}

/// URL of one industry's allocation detail (hyxq) for a fund.
pub fn industry_detail_url(code: &str, hydm: &str) -> (url: String)
    ensures
        url@ == f10_base() + "/F10DataApi.aspx?pt=1&type=hyxq&code="@ + code@ + "&hydm="@
            + hydm@ + "&rt=0"@,
{
    let mut v = chars_of("https://fundf10.eastmoney.com");
    append(&mut v, "/F10DataApi.aspx?pt=1&type=hyxq&code=");
    append(&mut v, code);
    append(&mut v, "&hydm=");
    append(&mut v, hydm);
    append(&mut v, "&rt=0");
    string_of(&v)
}

/// URL of a fund's historical scale changes (gmbd).
pub fn scale_changes_url(code: &str) -> (url: String)
    ensures
        url@ == f10_base() + "/FundArchivesDatas.aspx?type=gmbd&mode=&code="@ + code@
            + "&rt=0"@,
{
    let mut v = chars_of("https://fundf10.eastmoney.com");
    append(&mut v, "/FundArchivesDatas.aspx?type=gmbd&mode=&code=");
    append(&mut v, code);
    append(&mut v, "&rt=0");
    string_of(&v)
}

/// URL of a fund's holder structure history (cyrjg).
pub fn holder_structure_url(code: &str) -> (url: String)
    ensures
        url@ == f10_base() + "/FundArchivesDatas.aspx?type=cyrjg&code="@ + code@ + "&rt=0"@,
{
    let mut v = chars_of("https://fundf10.eastmoney.com");
    append(&mut v, "/FundArchivesDatas.aspx?type=cyrjg&code=");
    append(&mut v, code);
    append(&mut v, "&rt=0");
    string_of(&v)
}


/// `t2` is `t` with one character `t[j]` replaced by `t2[j]`, neither of
/// them a digit, whitespace or 个.
pub open spec fn same_but_unit(t: Seq<char>, t2: Seq<char>, j: int) -> bool {
    &&& t2.len() == t.len()
    &&& 0 <= j < t.len()
    &&& forall|k: int| 0 <= k < t.len() && k != j ==> #[trigger] t2[k] == t[k]
    &&& !is_digit(t[j]) && !is_ws(t[j]) && t[j] != '个'
    &&& !is_digit(t2[j]) && !is_ws(t2[j]) && t2[j] != '个'
}

proof fn lemma_digits_end_same(t: Seq<char>, t2: Seq<char>, j: int, i: int)
    requires
        same_but_unit(t, t2, j),
    ensures
        digits_end(t, i) == digits_end(t2, i),
    decreases t.len() - i,
{
    if 0 <= i < t.len() && is_digit(t[i]) {
        assert(i != j);
        lemma_digits_end_same(t, t2, j, i + 1);
    } else if 0 <= i < t.len() {
        if i != j {
            assert(t2[i] == t[i]);
        }
    }
}

proof fn lemma_skip_ws_same(t: Seq<char>, t2: Seq<char>, j: int, k: int)
    requires
        same_but_unit(t, t2, j),
    ensures
        skip_ws(t, k) == skip_ws(t2, k),
    decreases t.len() - k,
{
    if 0 <= k < t.len() && k != j {
        assert(t2[k] == t[k]);
    }
    if 0 <= k < t.len() && is_ws(t[k]) {
        lemma_skip_ws_same(t, t2, j, k + 1);
    }
}

proof fn lemma_digit_run(t: Seq<char>, i: int)
    requires
        0 <= i <= t.len(),
    ensures
        i <= digits_end(t, i) <= t.len(),
        forall|k: int| i <= k < digits_end(t, i) ==> is_digit(#[trigger] t[k]),
    decreases t.len() - i,
{
    if i < t.len() && is_digit(t[i]) {
        lemma_digit_run(t, i + 1);
    }
}

/// Writing a unit with another character that is no digit, space or 个
/// changes a candidate only through that unit: with 日 for 天 (or 天 for
/// 日) every candidate period, and so the largest one, stays the same.
pub proof fn lemma_day_units_agree(t: Seq<char>, j: int)
    requires
        0 <= j < t.len(),
        t[j] == '天',
    ensures
        forall|i: int| #[trigger] period_at(t.update(j, '日'), i) == period_at(t, i),
        forall|d: nat| #[trigger] largest_period(t.update(j, '日'), d) == largest_period(t, d),
{
    let t2 = t.update(j, '日');
    assert(same_but_unit(t, t2, j));
    assert forall|i: int| #[trigger] period_at(t2, i) == period_at(t, i) by {
        lemma_period_same(t, t2, j, i);
    }
    assert forall|d: nat| #[trigger] largest_period(t2, d) == largest_period(t, d) by {
        if largest_period(t, d) {
            let i = choose|i: int| #[trigger] period_at(t, i) == Some(d);
            assert(period_at(t2, i) == Some(d));
            assert forall|k: int| at_most(#[trigger] period_at(t2, k), d) by {
                assert(period_at(t2, k) == period_at(t, k));
            }
        }
        if largest_period(t2, d) {
            let i = choose|i: int| #[trigger] period_at(t2, i) == Some(d);
            assert(period_at(t, i) == Some(d));
            assert forall|k: int| at_most(#[trigger] period_at(t, k), d) by {
                assert(period_at(t2, k) == period_at(t, k));
            }
        }
    }
}

proof fn lemma_period_same(t: Seq<char>, t2: Seq<char>, j: int, i: int)
    requires
        same_but_unit(t, t2, j),
        t[j] == '天' || t[j] == '日',
        t2[j] == '天' || t2[j] == '日',
    ensures
        period_at(t2, i) == period_at(t, i),
{
    assert forall|k: int| 0 <= k < t.len() implies is_digit(#[trigger] t2[k]) == is_digit(t[k]) by {
        if k != j {
            assert(t2[k] == t[k]);
        }
    }
    assert(run_starts(t2, i) == run_starts(t, i)) by {
        if 0 <= i < t.len() && i > 0 {
            assert(is_digit(t2[i - 1]) == is_digit(t[i - 1]));
        }
    }
    if run_starts(t, i) {
        lemma_digits_end_same(t, t2, j, i);
        lemma_digit_run(t, i);
        let e = digits_end(t, i);
        assert(t2.subrange(i, e) =~= t.subrange(i, e)) by {
            assert forall|k: int| 0 <= k < e - i implies t2.subrange(i, e)[k] == t.subrange(i, e)[k] by {
                assert(is_digit(t[i + k]));
                assert(i + k != j);
            }
        }
        lemma_skip_ws_same(t, t2, j, e);
        lemma_skip_ws_bounds(t, e);
        let a = skip_ws(t, e);
        if 0 <= a < t.len() && a != j {
            assert(t2[a] == t[a]);
        }
        lemma_skip_ws_same(t, t2, j, a + 1);
        if a < t.len() {
            lemma_skip_ws_bounds(t, a + 1);
        }
        assert(unit_pos(t2, e) == unit_pos(t, e));
        assert(digits_end(t2, i) == e);
        let num = u32_cap(digits_value(t.subrange(i, e)));
        let u = unit_pos(t, e);
        if 0 <= u < t.len() {
            if u != j {
                assert(t2[u] == t[u]);
            }
            assert(unit_days(t2[u], num) == unit_days(t[u], num));
        }
        assert(period_at(t, i) == if u < t.len() && num > 0 {
            unit_days(t[u], num)
        } else {
            None
        });
        assert(period_at(t2, i) == if u < t.len() && num > 0 {
            unit_days(t2[u], num)
        } else {
            None
        });
    }
}

/// A positive number directly followed by 日 declares that many days, as
/// with 天.
pub proof fn lemma_ri_counts_days(t: Seq<char>, i: int, e: int)
    requires
        run_starts(t, i),
        i < e < t.len(),
        forall|k: int| i <= k < e ==> is_digit(#[trigger] t[k]),
        t[e] == '日',
        digits_value(t.subrange(i, e)) > 0,
    ensures
        period_at(t, i) == Some(u32_cap(digits_value(t.subrange(i, e)))),
{
    lemma_digits_end(t, i, e);
    assert(!is_ws(t[e]));
}

} // verus!
