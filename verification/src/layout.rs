//! Small text layouts of the terminal reports: padded columns, rank
//! fractions, and the lists of fund codes a user types.
use vstd::prelude::*;
use unicode_width::UnicodeWidthStr;
use crate::num::{signed_decimal, signed_decimal_chars};
use crate::text::{
    chars_of, contains, contains_in, push_all, split, split_by, string_of, trim, trim_ws, views,
};

verus! {

broadcast use {vstd::string::group_string_axioms, vstd::slice::group_slice_axioms};

/// The displayed width of a text in terminal columns, as `unicode-width`
/// measures it (East Asian wide characters take two columns).
pub uninterp spec fn display_width(s: Seq<char>) -> nat;

/// `UnicodeWidthStr::width` of unicode-width: the displayed width of `s` in
/// columns. The contract says only that the width is a function of the
/// text (`display_width`); which width a given text has is left to the
/// crate's Unicode tables and is not stated.
#[verifier::external_body]
fn str_width(s: &str) -> (w: usize)
    ensures
        w == display_width(s@),
{
    UnicodeWidthStr::width(s)
}

/// `n` spaces.
pub open spec fn spaces(n: nat) -> Seq<char> {
    Seq::new(n, |i: int| ' ')
}

/// `s`, whose displayed width is `w`, padded with spaces on the right up to
/// `width` columns; a text that is already that wide stays as it is.
pub open spec fn padded(s: Seq<char>, w: nat, width: nat) -> Seq<char> {
    if w >= width {
        s
    } else {
        s + spaces((width - w) as nat)
    }
}

/// Pads `s`, whose displayed width is `w`, with spaces up to `width`.
pub fn pad_to_width(s: &str, w: usize, width: usize) -> (r: String)
    ensures
        r@ == padded(s@, w as nat, width as nat),
{
    if w >= width {
        return s.to_owned();
    }
    let mut v = chars_of(s);
    let ghost start = v@;
    let mut k: usize = 0;
    while k < width - w
        invariant
            k <= width - w,
            v@ == start + spaces(k as nat),
        decreases width - w - k,
    {
        v.push(' ');
        k = k + 1;
        assert(v@ =~= start + spaces(k as nat));
    }
    string_of(&v)
}

/// Pads `s` with spaces to `width` terminal columns, measuring East Asian
/// wide characters as two columns.
pub fn rpad(s: &str, width: usize) -> (r: String)
    ensures
        r@ == padded(s@, display_width(s@), width as nat),
{
    let w = str_width(s);
    pad_to_width(s, w, width)
}

/// `rank/total` when both are positive, `-` otherwise.
pub open spec fn rank_text(rank: i32, total: i32) -> Seq<char> {
    if rank > 0 && total > 0 {
        signed_decimal(rank as int) + "/"@ + signed_decimal(total as int)
    } else {
        "-"@
    }
}

/// Formats a rank as `rank/total`, or `-` when either is not positive.
pub fn format_rank(rank: i32, total: i32) -> (s: String)
    ensures
        s@ == rank_text(rank, total),
{
    if rank > 0 && total > 0 {
        let mut v = signed_decimal_chars(rank as i64);
        v.push('/');
        push_all(&mut v, &signed_decimal_chars(total as i64));
        proof {
            reveal_strlit("/");
        }
        assert(v@ =~= rank_text(rank, total));
        string_of(&v)
    } else {
        String::from_str("-")
    }
}

/// A fund type that may hold stocks: anything but pure-bond (纯债),
/// money-market (货币) and short/medium bond (短债, 中短债, 中长债) funds.
/// Secondary bond funds (债券型-混合二级) may hold up to 20% stocks and count.
pub open spec fn may_hold_stocks(ftype: Seq<char>) -> bool {
    !(contains(ftype, "纯债"@) || contains(ftype, "货币"@) || contains(ftype, "短债"@) || contains(
        ftype,
        "中短债"@,
    ) || contains(ftype, "中长债"@))
}

/// Whether a fund of type `ftype` may hold stocks.
pub fn has_stock_exposure(ftype: &str) -> (b: bool)
    ensures
        b == may_hold_stocks(ftype@),
{
    let t = chars_of(ftype);
    !(contains_in(&t, &chars_of("纯债")) || contains_in(&t, &chars_of("货币")) || contains_in(
        &t,
        &chars_of("短债"),
    ) || contains_in(&t, &chars_of("中短债")) || contains_in(&t, &chars_of("中长债")))
}

/// The pieces of `ps`, each trimmed, with the empty ones left out.
pub open spec fn kept_trimmed(ps: Seq<Seq<char>>) -> Seq<Seq<char>>
    decreases ps.len(),
{
    if ps.len() == 0 {
        seq![]
    } else {
        let rest = kept_trimmed(ps.drop_last());
        let t = trim(ps.last());
        if t.len() > 0 {
            rest.push(t)
        } else {
            rest
        }
    }
}

/// The codes of a comma-separated list, each trimmed, empty ones left out.
pub open spec fn code_list(s: Seq<char>) -> Seq<Seq<char>> {
    kept_trimmed(split(s, ","@))
}

pub open spec fn list_view(v: Seq<String>) -> Seq<Seq<char>> {
    v.map_values(|x: String| x@)
}

/// The trimmed, non-empty codes of a comma-separated list such as
/// `000171, 161725`; `None` when no code remains.
pub fn parse_code_list(codes: &str) -> (r: Option<Vec<String>>)
    ensures
        r matches Some(v) ==> list_view(v@) == code_list(codes@) && v@.len() > 0,
        r is None ==> code_list(codes@).len() == 0,
{
    let c = chars_of(codes);
    let comma = [','];
    assert(comma@ =~= ","@) by {
        reveal_strlit(",");
    }
    let pieces = split_by(&c, &comma);
    let ghost ps = views(pieces@);
    let mut out: Vec<String> = Vec::new();
    let mut i: usize = 0;
    assert(ps.take(0) =~= Seq::<Seq<char>>::empty());
    assert(list_view(out@) =~= Seq::<Seq<char>>::empty());
    while i < pieces.len()
        invariant
            i <= pieces@.len(),
            ps == views(pieces@),
            list_view(out@) == kept_trimmed(ps.take(i as int)),
        decreases pieces@.len() - i,
    {
        let t = trim_ws(&pieces[i]);
        assert(ps.take(i + 1).drop_last() =~= ps.take(i as int));
        assert(ps.take(i + 1).last() == pieces@[i as int]@);
        if t.len() > 0 {
            let ghost before = out@;
            out.push(string_of(&t));
            assert(list_view(out@) =~= list_view(before).push(t@));
        }
        i = i + 1;
    }
    assert(ps.take(ps.len() as int) =~= ps);
    if out.len() == 0 {
        return None;
    }
    Some(out)
}

} // verus!
