//! Stable ordering of records by their `YYYY-MM-DD` dates, as `sort_by` on
//! the date text orders them.
use vstd::prelude::*;
use crate::text::{chars_of, is_text_lt, lemma_text_lt_irreflexive, lemma_text_lt_transitive, text_lt};

verus! {

broadcast use {vstd::string::group_string_axioms, vstd::slice::group_slice_axioms};

/// Two different texts are ordered one way or the other.
pub proof fn lemma_text_lt_total(a: Seq<char>, b: Seq<char>)
    ensures
        a == b || text_lt(a, b) || text_lt(b, a),
    decreases a.len(),
{
    if a.len() > 0 && b.len() > 0 && a[0] == b[0] {
        lemma_text_lt_total(a.drop_first(), b.drop_first());
        if a.drop_first() == b.drop_first() {
            assert(a =~= seq![a[0]] + a.drop_first());
            assert(b =~= seq![b[0]] + b.drop_first());
        }
    } else if a.len() == 0 && b.len() == 0 {
        assert(a =~= b);
    }
}

/// Record `a` comes before record `b`: an earlier date first (or a later
/// one when `newest_first`), equal dates in their input order.
pub open spec fn comes_before(d: Seq<String>, newest_first: bool, a: int, b: int) -> bool {
    if newest_first {
        text_lt(d[b]@, d[a]@) || (d[a]@ == d[b]@ && a < b)
    } else {
        text_lt(d[a]@, d[b]@) || (d[a]@ == d[b]@ && a < b)
    }
}

/// `p` lists each record index below `n` exactly once.
pub open spec fn is_permutation(p: Seq<usize>, n: int) -> bool {
    &&& p.len() == n
    &&& forall|i: int| 0 <= i < p.len() ==> #[trigger] p[i] < n
    &&& forall|i: int, j: int| 0 <= i < j < p.len() ==> #[trigger] p[i] != #[trigger] p[j]
}

/// `p` lists the records in date order, ties in their input order.
pub open spec fn in_date_order(d: Seq<String>, newest_first: bool, p: Seq<usize>) -> bool {
    forall|i: int, j: int|
        0 <= i < j < p.len() ==> comes_before(d, newest_first, #[trigger] p[i] as int, #[trigger] p[j] as int)
}

proof fn lemma_before_chain(d: Seq<String>, newest_first: bool, a: int, b: int, c: int)
    requires
        comes_before(d, newest_first, a, b),
        comes_before(d, newest_first, b, c),
    ensures
        comes_before(d, newest_first, a, c),
{
    if newest_first {
        if text_lt(d[b]@, d[a]@) && text_lt(d[c]@, d[b]@) {
            lemma_text_lt_transitive(d[c]@, d[b]@, d[a]@);
        }
    } else {
        if text_lt(d[a]@, d[b]@) && text_lt(d[b]@, d[c]@) {
            lemma_text_lt_transitive(d[a]@, d[b]@, d[c]@);
        }
    }
}

/// Whether record `k` goes strictly after record `x` whose index is smaller.
fn goes_before(dk: &[char], dx: &[char], newest_first: bool) -> (b: bool)
    ensures
        b == (if newest_first {
            text_lt(dx@, dk@)
        } else {
            text_lt(dk@, dx@)
        }),
{
    if newest_first {
        is_text_lt(dx, dk)
    } else {
        is_text_lt(dk, dx)
    }
}

/// The record indices of `dates` in date order (oldest first, or newest
/// first), records with equal dates in their input order: the order
/// that a stable sort on the date text gives.
pub fn order_by_date(dates: &[String], newest_first: bool) -> (p: Vec<usize>)
    ensures
        is_permutation(p@, dates@.len() as int),
        in_date_order(dates@, newest_first, p@),
{
    let mut p: Vec<usize> = Vec::new();
    let mut k: usize = 0;
    while k < dates.len()
        invariant
            k <= dates@.len(),
            is_permutation(p@, k as int),
            in_date_order(dates@, newest_first, p@),
        decreases dates@.len() - k,
    {
        let dk = chars_of(dates[k].as_str());
        let mut pos: usize = 0;
        while pos < p.len()
            invariant
                pos <= p@.len(),
                k < dates@.len(),
                dk@ == dates@[k as int]@,
                is_permutation(p@, k as int),
                forall|i: int| 0 <= i < pos ==> comes_before(dates@, newest_first, #[trigger] p@[i] as int, k as int),
            ensures
                pos <= p@.len(),
                forall|i: int| 0 <= i < pos ==> comes_before(dates@, newest_first, #[trigger] p@[i] as int, k as int),
                pos < p@.len() ==> (if newest_first {
                    text_lt(dates@[p@[pos as int] as int]@, dates@[k as int]@)
                } else {
                    text_lt(dates@[k as int]@, dates@[p@[pos as int] as int]@)
                }),
            decreases p@.len() - pos,
        {
            let dx = chars_of(dates[p[pos]].as_str());
            if goes_before(&dk, &dx, newest_first) {
                break;
            }
            proof {
                let x = p@[pos as int] as int;
                lemma_text_lt_total(dates@[x]@, dates@[k as int]@);
            }
            pos = pos + 1;
        }
        let ghost old_p = p@;
        proof {
            if pos < old_p.len() {
                let x = old_p[pos as int] as int;
                assert(comes_before(dates@, newest_first, k as int, x));
                assert forall|i: int| pos <= i < old_p.len() implies comes_before(dates@, newest_first, k as int, #[trigger] old_p[i] as int) by {
                    if i > pos {
                        lemma_before_chain(dates@, newest_first, k as int, x, old_p[i] as int);
                    }
                }
            }
        }
        p.insert(pos, k);
        proof {
            assert(p@ =~= old_p.subrange(0, pos as int).push(k) + old_p.subrange(pos as int, old_p.len() as int));
            assert forall|i: int| 0 <= i < p@.len() implies #[trigger] p@[i] < k + 1 by {
                if i < pos {
                    assert(p@[i] == old_p[i]);
                } else if i > pos {
                    assert(p@[i] == old_p[i - 1]);
                }
            }
            assert forall|i: int, j: int| 0 <= i < j < p@.len() implies #[trigger] p@[i] != #[trigger] p@[j] by {
                if i < pos && j > pos {
                    assert(p@[j] == old_p[j - 1]);
                } else if i > pos {
                    assert(p@[i] == old_p[i - 1] && p@[j] == old_p[j - 1]);
                }
            }
            assert forall|i: int, j: int| 0 <= i < j < p@.len() implies comes_before(dates@, newest_first, #[trigger] p@[i] as int, #[trigger] p@[j] as int) by {
                if j < pos {
                } else if j == pos {
                } else if i < pos {
                    assert(p@[j] == old_p[j - 1]);
                    if pos < old_p.len() {
                        lemma_before_chain(dates@, newest_first, p@[i] as int, k as int, p@[j] as int);
                    }
                } else if i == pos {
                    assert(p@[j] == old_p[j - 1]);
                } else {
                    assert(p@[i] == old_p[i - 1] && p@[j] == old_p[j - 1]);
                }
            }
        }
        k = k + 1;
    }
    p
}


/// A permutation of `0..n` lists every index below `n`.
pub proof fn lemma_permutation_onto(p: Seq<usize>, n: int, i: int)
    requires
        is_permutation(p, n),
        0 <= i < n,
    ensures
        exists|j: int| 0 <= j < p.len() && p[j] == i as usize,
{
    let q = p.map_values(|x: usize| x as int);
    assert(q.no_duplicates()) by {
        assert forall|a: int, b: int| 0 <= a < q.len() && 0 <= b < q.len() && a != b implies q[a]
            != q[b] by {
            if a < b {
                assert(p[a] != p[b]);
            } else {
                assert(p[b] != p[a]);
            }
        }
    }
    q.unique_seq_to_set();
    vstd::seq_lib::seq_to_set_is_finite(q);
    vstd::set_lib::lemma_int_range(0, n);
    let r = vstd::set_lib::set_int_range(0, n);
    assert(q.to_set().subset_of(r)) by {
        assert forall|x: int| q.to_set().contains(x) implies r.contains(x) by {
            let j = choose|j: int| 0 <= j < q.len() && q[j] == x;
            assert(p[j] < n);
        }
    }
    vstd::set_lib::lemma_subset_equality(q.to_set(), r);
    assert(r.contains(i));
    assert(q.to_set().contains(i));
    let j = choose|j: int| 0 <= j < q.len() && q[j] == i;
    assert(p[j] == i as usize);
}

} // verus!
