//! Character-level text tools shared by the page readers and request builders.
//!
//! Everything here works on sequences of Unicode scalar values (`Seq<char>`),
//! the view that vstd gives `str` and `String`.
use vstd::prelude::*;
use vstd::slice::slice_subrange;
use vstd::slice::slice_to_vec;

verus! {

broadcast use {vstd::string::group_string_axioms, vstd::slice::group_slice_axioms};

/// The character sequences that a vector of character vectors holds.
pub open spec fn views(v: Seq<Vec<char>>) -> Seq<Seq<char>> {
    v.map_values(|x: Vec<char>| x@)
}

// ── Whitespace and digits ────────────────────────────────────────────────

/// Unicode `White_Space`, the property that `char::is_whitespace`,
/// `str::trim` and `str::split_whitespace` use.
pub open spec fn is_ws(c: char) -> bool {
    ||| ('\u{9}' <= c && c <= '\u{d}')
    ||| c == ' '
    ||| c == '\u{85}'
    ||| c == '\u{a0}'
    ||| c == '\u{1680}'
    ||| ('\u{2000}' <= c && c <= '\u{200a}')
    ||| c == '\u{2028}'
    ||| c == '\u{2029}'
    ||| c == '\u{202f}'
    ||| c == '\u{205f}'
    ||| c == '\u{3000}'
}

pub fn is_whitespace(c: char) -> (b: bool)
    ensures
        b == is_ws(c),
{
    ('\u{9}' <= c && c <= '\u{d}') || c == ' ' || c == '\u{85}' || c == '\u{a0}' || c
        == '\u{1680}' || ('\u{2000}' <= c && c <= '\u{200a}') || c == '\u{2028}' || c
        == '\u{2029}' || c == '\u{202f}' || c == '\u{205f}' || c == '\u{3000}'
}

/// An ASCII decimal digit.
pub open spec fn is_digit(c: char) -> bool {
    '0' <= c && c <= '9'
}

pub fn is_ascii_digit(c: char) -> (b: bool)
    ensures
        b == is_digit(c),
{
    '0' <= c && c <= '9'
}

pub open spec fn digit_value(c: char) -> nat {
    (c as int - '0' as int) as nat
}

pub open spec fn digit_char(d: int) -> char {
    ('0' as int + d) as char
}

pub open spec fn all_digits(s: Seq<char>) -> bool {
    forall|i: int| 0 <= i < s.len() ==> is_digit(#[trigger] s[i])
}

/// The number that the decimal digits `s` spell (most significant first).
pub open spec fn digits_value(s: Seq<char>) -> nat
    decreases s.len(),
{
    if s.len() == 0 {
        0
    } else {
        digits_value(s.drop_last()) * 10 + digit_value(s.last())
    }
}

// ── Conversions between `str`/`String` and character vectors ─────────────

/// The characters of `s`, in order.
pub fn chars_of(s: &str) -> (v: Vec<char>)
    ensures
        v@ == s@,
{
    let mut v: Vec<char> = Vec::new();
    for c in it: s.chars()
        invariant
            v@ == it.seq().take(it.index() as int),
            it.seq() == s@,
    {
        v.push(c);
    }
    v
}

/// Appends one character to a `String` (std's `String::push`).
#[verifier::external_body]
fn push_char(s: &mut String, c: char)
    ensures
        final(s)@ == old(s)@.push(c),
{
    s.push(c);
}

/// A `String` holding exactly the characters of `v`.
pub fn string_of(v: &[char]) -> (s: String)
    ensures
        s@ == v@,
{
    let mut s = String::new();
    let mut i: usize = 0;
    while i < v.len()
        invariant
            i <= v@.len(),
            s@ == v@.take(i as int),
        decreases v@.len() - i,
    {
        push_char(&mut s, v[i]);
        i = i + 1;
        assert(v@.take(i as int) == v@.take(i - 1).push(v@[i - 1]));
    }
    assert(v@.take(v@.len() as int) == v@);
    s
}

/// `s` followed by `t`, as a new vector.
pub fn concat(s: &[char], t: &[char]) -> (r: Vec<char>)
    ensures
        r@ == s@ + t@,
{
    let mut r = slice_to_vec(s);
    let mut i: usize = 0;
    while i < t.len()
        invariant
            i <= t@.len(),
            r@ == s@ + t@.take(i as int),
        decreases t@.len() - i,
    {
        r.push(t[i]);
        i = i + 1;
        assert(t@.take(i as int) == t@.take(i - 1).push(t@[i - 1]));
    }
    assert(t@.take(t@.len() as int) == t@);
    r
}

/// Appends the characters of `t` to `r`.
pub fn push_all(r: &mut Vec<char>, t: &[char])
    ensures
        final(r)@ == old(r)@ + t@,
{
    let ghost start = r@;
    let mut i: usize = 0;
    while i < t.len()
        invariant
            i <= t@.len(),
            r@ == start + t@.take(i as int),
        decreases t@.len() - i,
    {
        r.push(t[i]);
        i = i + 1;
        assert(t@.take(i as int) == t@.take(i - 1).push(t@[i - 1]));
    }
    assert(t@.take(t@.len() as int) == t@);
}

/// A copy of `s[a..b]`.
pub fn copy_range(s: &[char], a: usize, b: usize) -> (r: Vec<char>)
    requires
        a <= b <= s@.len(),
    ensures
        r@ == s@.subrange(a as int, b as int),
{
    slice_to_vec(slice_subrange(s, a, b))
}

/// Whether two character slices hold the same characters.
pub fn same_chars(s: &[char], t: &[char]) -> (b: bool)
    ensures
        b == (s@ == t@),
{
    if s.len() != t.len() {
        return false;
    }
    let mut i: usize = 0;
    while i < s.len()
        invariant
            s@.len() == t@.len(),
            i <= s@.len(),
            forall|j: int| 0 <= j < i ==> s@[j] == t@[j],
        decreases s@.len() - i,
    {
        if s[i] != t[i] {
            return false;
        }
        i = i + 1;
    }
    assert(s@ =~= t@);
    true
}

// ── Searching ─────────────────────────────────────────────────────────────

/// `pat` occurs in `s` starting at position `i`.
pub open spec fn occurs_at(s: Seq<char>, pat: Seq<char>, i: int) -> bool {
    0 <= i && i + pat.len() <= s.len() && s.subrange(i, i + pat.len()) == pat
}

/// The first position at or after `k` where `pat` occurs in `s`.
pub open spec fn find_from(s: Seq<char>, pat: Seq<char>, k: int) -> Option<int>
    decreases s.len() + 1 - k,
{
    if k < 0 || k + pat.len() > s.len() {
        None
    } else if occurs_at(s, pat, k) {
        Some(k)
    } else {
        find_from(s, pat, k + 1)
    }
}

/// The first position where `pat` occurs in `s` (`str::find`).
pub open spec fn find(s: Seq<char>, pat: Seq<char>) -> Option<int> {
    find_from(s, pat, 0)
}

/// `pat` occurs somewhere in `s` (`str::contains`).
pub open spec fn contains(s: Seq<char>, pat: Seq<char>) -> bool {
    find(s, pat) is Some
}

/// The last position at or before `k` where `pat` occurs in `s`.
pub open spec fn rfind_from(s: Seq<char>, pat: Seq<char>, k: int) -> Option<int>
    decreases k + 1,
{
    if k < 0 {
        None
    } else if occurs_at(s, pat, k) {
        Some(k)
    } else {
        rfind_from(s, pat, k - 1)
    }
}

/// The last position where `pat` occurs in `s` (`str::rfind`).
pub open spec fn rfind(s: Seq<char>, pat: Seq<char>) -> Option<int> {
    rfind_from(s, pat, s.len() - pat.len())
}

pub proof fn lemma_find_from(s: Seq<char>, pat: Seq<char>, k: int)
    requires
        k >= 0,
    ensures
        find_from(s, pat, k) matches Some(i) ==> k <= i && occurs_at(s, pat, i) && forall|j: int|
            k <= j < i ==> !occurs_at(s, pat, j),
        find_from(s, pat, k) is None ==> forall|j: int| k <= j ==> !occurs_at(s, pat, j),
    decreases s.len() + 1 - k,
{
    if k + pat.len() > s.len() {
    } else if occurs_at(s, pat, k) {
    } else {
        lemma_find_from(s, pat, k + 1);
    }
}

pub proof fn lemma_find(s: Seq<char>, pat: Seq<char>)
    ensures
        find(s, pat) matches Some(i) ==> 0 <= i && i + pat.len() <= s.len() && s.subrange(
            i,
            i + pat.len(),
        ) == pat && forall|j: int| 0 <= j < i ==> !occurs_at(s, pat, j),
        find(s, pat) is None ==> forall|j: int| 0 <= j ==> !occurs_at(s, pat, j),
{
    lemma_find_from(s, pat, 0);
}

pub proof fn lemma_rfind_from(s: Seq<char>, pat: Seq<char>, k: int)
    ensures
        rfind_from(s, pat, k) matches Some(i) ==> i <= k && occurs_at(s, pat, i) && forall|j: int|
            i < j <= k ==> !occurs_at(s, pat, j),
        rfind_from(s, pat, k) is None ==> forall|j: int| j <= k ==> !occurs_at(s, pat, j),
    decreases k + 1,
{
    if k < 0 {
    } else if occurs_at(s, pat, k) {
    } else {
        lemma_rfind_from(s, pat, k - 1);
    }
}

/// Whether `pat` occurs in `s` at position `i`.
pub fn matches_at(s: &[char], pat: &[char], i: usize) -> (b: bool)
    ensures
        b == occurs_at(s@, pat@, i as int),
{
    if i > s.len() || pat.len() > s.len() - i {
        return false;
    }
    let mut j: usize = 0;
    while j < pat.len()
        invariant
            i + pat@.len() <= s@.len(),
            j <= pat@.len(),
            forall|m: int| 0 <= m < j ==> s@[i + m] == pat@[m],
        decreases pat@.len() - j,
    {
        assert(i + j < s.len());
        if s[i + j] != pat[j] {
            assert(s@.subrange(i as int, i + pat@.len())[j as int] != pat@[j as int]);
            return false;
        }
        j = j + 1;
    }
    assert(s@.subrange(i as int, i + pat@.len()) =~= pat@);
    true
}

/// First position at or after `k` where `pat` occurs in `s`.
pub fn find_at(s: &[char], pat: &[char], k: usize) -> (r: Option<usize>)
    ensures
        r matches Some(i) ==> find_from(s@, pat@, k as int) == Some(i as int),
        r is None ==> find_from(s@, pat@, k as int) is None,
{
    let mut i = k;
    while i <= s.len() && pat.len() <= s.len() - i
        invariant
            k <= i,
            find_from(s@, pat@, k as int) == find_from(s@, pat@, i as int),
        decreases s@.len() + 1 - i,
    {
        if matches_at(s, pat, i) {
            return Some(i);
        }
        if i == s.len() {
            assert(pat@.len() == 0 ==> s@.subrange(i as int, i as int) =~= pat@);
            return None;
        }
        i = i + 1;
    }
    None
}

/// First position where `pat` occurs in `s`.
pub fn find_in(s: &[char], pat: &[char]) -> (r: Option<usize>)
    ensures
        r matches Some(i) ==> find(s@, pat@) == Some(i as int),
        r is None ==> find(s@, pat@) is None,
{
    find_at(s, pat, 0)
}

/// Whether `pat` occurs anywhere in `s`.
pub fn contains_in(s: &[char], pat: &[char]) -> (b: bool)
    ensures
        b == contains(s@, pat@),
{
    find_in(s, pat).is_some()
}

/// Last position where `pat` occurs in `s`.
pub fn rfind_in(s: &[char], pat: &[char]) -> (r: Option<usize>)
    ensures
        r matches Some(i) ==> rfind(s@, pat@) == Some(i as int),
        r is None ==> rfind(s@, pat@) is None,
{
    if pat.len() > s.len() {
        proof {
            lemma_rfind_from(s@, pat@, s@.len() - pat@.len());
            assert(rfind(s@, pat@) is None) by {
                if rfind(s@, pat@) is Some {
                    let i = rfind(s@, pat@)->0;
                    assert(occurs_at(s@, pat@, i));
                }
            }
        }
        return None;
    }
    let mut i: usize = s.len() - pat.len();
    loop
        invariant
            i + pat@.len() <= s@.len(),
            rfind(s@, pat@) == rfind_from(s@, pat@, i as int),
        decreases i,
    {
        if matches_at(s, pat, i) {
            return Some(i);
        }
        if i == 0 {
            assert(rfind_from(s@, pat@, -1) is None);
            return None;
        }
        i = i - 1;
    }
}

// ── Splitting ─────────────────────────────────────────────────────────────

/// The pieces of `s` between the occurrences of `pat`, scanned left to
/// right (`str::split` with a non-empty pattern).
pub open spec fn split(s: Seq<char>, pat: Seq<char>) -> Seq<Seq<char>>
    decreases s.len(),
{
    if pat.len() == 0 {
        seq![s]
    } else {
        match find(s, pat) {
            None => seq![s],
            Some(i) => {
                proof {
                    lemma_find(s, pat);
                }
                seq![s.subrange(0, i)] + split(s.subrange(i + pat.len(), s.len() as int), pat)
            },
        }
    }
}

/// The pieces of `s` that follow an occurrence of `pat`
/// (`s.split(pat).skip(1)`).
pub open spec fn pieces_after(s: Seq<char>, pat: Seq<char>) -> Seq<Seq<char>> {
    split(s, pat).drop_first()
}

proof fn lemma_find_suffix(s: Seq<char>, pat: Seq<char>, k: int, j: int)
    requires
        0 <= k <= j,
        k <= s.len(),
    ensures
        find_from(s.subrange(k, s.len() as int), pat, j - k) == (match find_from(s, pat, j) {
            Some(i) => Some(i - k),
            None => None,
        }),
    decreases s.len() + 1 - j,
{
    let t = s.subrange(k, s.len() as int);
    if j + pat.len() > s.len() {
    } else {
        assert(occurs_at(t, pat, j - k) == occurs_at(s, pat, j)) by {
            if j + pat.len() <= s.len() {
                assert(t.subrange(j - k, j - k + pat.len()) =~= s.subrange(j, j + pat.len()));
            }
        }
        if !occurs_at(s, pat, j) {
            lemma_find_suffix(s, pat, k, j + 1);
        }
    }
}

/// `s.split(pat)`, as vectors of characters.
pub fn split_by(s: &[char], pat: &[char]) -> (r: Vec<Vec<char>>)
    requires
        pat@.len() > 0,
    ensures
        views(r@) == split(s@, pat@),
{
    let mut r: Vec<Vec<char>> = Vec::new();
    let mut k: usize = 0;
    assert(s@.subrange(0, s@.len() as int) =~= s@);
    assert(views(r@) =~= Seq::<Seq<char>>::empty());
    loop
        invariant
            pat@.len() > 0,
            k <= s@.len(),
            views(r@) + split(s@.subrange(k as int, s@.len() as int), pat@) == split(
                s@,
                pat@,
            ),
        decreases s@.len() - k,
    {
        let ghost rest = s@.subrange(k as int, s@.len() as int);
        proof {
            lemma_find_suffix(s@, pat@, k as int, k as int);
            lemma_find_from(s@, pat@, k as int);
        }
        match find_at(s, pat, k) {
            None => {
                let piece = copy_range(s, k, s.len());
                let ghost old_r = views(r@);
                r.push(piece);
                assert(piece@ =~= rest);
                assert(views(r@) =~= old_r.push(rest));
                assert(split(rest, pat@) == seq![rest]);
                assert(old_r + seq![rest] =~= old_r.push(rest));
                return r;
            },
            Some(i) => {
                let piece = copy_range(s, k, i);
                let ghost old_r = views(r@);
                r.push(piece);
                assert(views(r@) =~= old_r.push(piece@));
                assert(find(rest, pat@) == Some(i - k));
                assert(piece@ =~= rest.subrange(0, i - k));
                assert(rest.subrange(i - k + pat@.len(), rest.len() as int) =~= s@.subrange(
                    i + pat@.len(),
                    s@.len() as int,
                ));
                assert(split(rest, pat@) == seq![piece@] + split(
                    s@.subrange(i + pat@.len(), s@.len() as int),
                    pat@,
                ));
                assert(old_r + (seq![piece@] + split(
                    s@.subrange(i + pat@.len(), s@.len() as int),
                    pat@,
                )) =~= old_r.push(piece@) + split(
                    s@.subrange(i + pat@.len(), s@.len() as int),
                    pat@,
                ));
                assert(i + pat@.len() <= s.len());
                k = i + pat.len();
            },
        }
    }
}

// ── Trimming ──────────────────────────────────────────────────────────────

/// Number of leading characters of `s` that satisfy `is_ws`.
pub open spec fn lead_ws(s: Seq<char>) -> nat
    decreases s.len(),
{
    if s.len() > 0 && is_ws(s[0]) {
        1 + lead_ws(s.drop_first())
    } else {
        0
    }
}

/// Number of trailing characters of `s` that satisfy `is_ws`.
pub open spec fn trail_ws(s: Seq<char>) -> nat
    decreases s.len(),
{
    if s.len() > 0 && is_ws(s.last()) {
        1 + trail_ws(s.drop_last())
    } else {
        0
    }
}

/// `s` without leading and trailing whitespace (`str::trim`).
pub open spec fn trim(s: Seq<char>) -> Seq<char> {
    let t = s.skip(lead_ws(s) as int);
    t.take(t.len() - trail_ws(t))
}

/// Number of leading copies of `c` in `s`.
pub open spec fn lead_char(s: Seq<char>, c: char) -> nat
    decreases s.len(),
{
    if s.len() > 0 && s[0] == c {
        1 + lead_char(s.drop_first(), c)
    } else {
        0
    }
}

/// Number of trailing copies of `c` in `s`.
pub open spec fn trail_char(s: Seq<char>, c: char) -> nat
    decreases s.len(),
{
    if s.len() > 0 && s.last() == c {
        1 + trail_char(s.drop_last(), c)
    } else {
        0
    }
}

/// `s` without trailing copies of `c` (`str::trim_end_matches`).
pub open spec fn trim_end_char(s: Seq<char>, c: char) -> Seq<char> {
    s.take(s.len() - trail_char(s, c))
}

/// `s` without leading and trailing copies of `c` (`str::trim_matches`).
pub open spec fn trim_char(s: Seq<char>, c: char) -> Seq<char> {
    let t = s.skip(lead_char(s, c) as int);
    t.take(t.len() - trail_char(t, c))
}

proof fn lemma_lead_ws_bound(s: Seq<char>)
    ensures
        lead_ws(s) <= s.len(),
    decreases s.len(),
{
    if s.len() > 0 && is_ws(s[0]) {
        lemma_lead_ws_bound(s.drop_first());
    }
}

proof fn lemma_trail_ws_bound(s: Seq<char>)
    ensures
        trail_ws(s) <= s.len(),
    decreases s.len(),
{
    if s.len() > 0 && is_ws(s.last()) {
        lemma_trail_ws_bound(s.drop_last());
    }
}

proof fn lemma_lead_char_bound(s: Seq<char>, c: char)
    ensures
        lead_char(s, c) <= s.len(),
    decreases s.len(),
{
    if s.len() > 0 && s[0] == c {
        lemma_lead_char_bound(s.drop_first(), c);
    }
}

proof fn lemma_trail_char_bound(s: Seq<char>, c: char)
    ensures
        trail_char(s, c) <= s.len(),
    decreases s.len(),
{
    if s.len() > 0 && s.last() == c {
        lemma_trail_char_bound(s.drop_last(), c);
    }
}

/// Counts the leading whitespace of `s`.
fn count_lead_ws(s: &[char]) -> (n: usize)
    ensures
        n == lead_ws(s@),
{
    let mut i: usize = 0;
    assert(s@.skip(0) =~= s@);
    while i < s.len() && is_whitespace(s[i])
        invariant
            i <= s@.len(),
            lead_ws(s@) == i + lead_ws(s@.skip(i as int)),
        decreases s@.len() - i,
    {
        assert(s@.skip(i as int).drop_first() =~= s@.skip(i + 1));
        i = i + 1;
    }
    i
}

/// Counts the trailing whitespace of `s`.
fn count_trail_ws(s: &[char]) -> (n: usize)
    ensures
        n == trail_ws(s@),
{
    let mut i: usize = s.len();
    assert(s@.take(s@.len() as int) =~= s@);
    while i > 0 && is_whitespace(s[i - 1])
        invariant
            i <= s@.len(),
            trail_ws(s@) == (s@.len() - i) + trail_ws(s@.take(i as int)),
        decreases i,
    {
        assert(s@.take(i as int).drop_last() =~= s@.take(i - 1));
        i = i - 1;
    }
    s.len() - i
}

/// `s` without leading and trailing whitespace.
pub fn trim_ws(s: &[char]) -> (r: Vec<char>)
    ensures
        r@ == trim(s@),
{
    let a = count_lead_ws(s);
    proof {
        lemma_lead_ws_bound(s@);
    }
    let t = slice_subrange(s, a, s.len());
    assert(t@ =~= s@.skip(a as int));
    let b = count_trail_ws(t);
    proof {
        lemma_trail_ws_bound(t@);
    }
    let r = copy_range(t, 0, t.len() - b);
    assert(r@ =~= t@.take(t@.len() - b));
    r
}

/// Counts the leading copies of `c` in `s`.
fn count_lead_char(s: &[char], c: char) -> (n: usize)
    ensures
        n == lead_char(s@, c),
{
    let mut i: usize = 0;
    assert(s@.skip(0) =~= s@);
    while i < s.len() && s[i] == c
        invariant
            i <= s@.len(),
            lead_char(s@, c) == i + lead_char(s@.skip(i as int), c),
        decreases s@.len() - i,
    {
        assert(s@.skip(i as int).drop_first() =~= s@.skip(i + 1));
        i = i + 1;
    }
    i
}

/// Counts the trailing copies of `c` in `s`.
fn count_trail_char(s: &[char], c: char) -> (n: usize)
    ensures
        n == trail_char(s@, c),
{
    let mut i: usize = s.len();
    assert(s@.take(s@.len() as int) =~= s@);
    while i > 0 && s[i - 1] == c
        invariant
            i <= s@.len(),
            trail_char(s@, c) == (s@.len() - i) + trail_char(s@.take(i as int), c),
        decreases i,
    {
        assert(s@.take(i as int).drop_last() =~= s@.take(i - 1));
        i = i - 1;
    }
    s.len() - i
}

/// `s` without trailing copies of `c`.
pub fn trim_end_matches(s: &[char], c: char) -> (r: Vec<char>)
    ensures
        r@ == trim_end_char(s@, c),
{
    let b = count_trail_char(s, c);
    proof {
        lemma_trail_char_bound(s@, c);
    }
    copy_range(s, 0, s.len() - b)
}

/// `s` without leading and trailing copies of `c`.
pub fn trim_matches(s: &[char], c: char) -> (r: Vec<char>)
    ensures
        r@ == trim_char(s@, c),
{
    let a = count_lead_char(s, c);
    proof {
        lemma_lead_char_bound(s@, c);
    }
    let t = slice_subrange(s, a, s.len());
    assert(t@ =~= s@.skip(a as int));
    let b = count_trail_char(t, c);
    proof {
        lemma_trail_char_bound(t@, c);
    }
    let r = copy_range(t, 0, t.len() - b);
    assert(r@ =~= t@.take(t@.len() - b));
    r
}


// ── Ordering ──────────────────────────────────────────────────────────────

/// `a` comes strictly before `b` in the order of `str`: character by
/// character, a proper prefix first.
pub open spec fn text_lt(a: Seq<char>, b: Seq<char>) -> bool
    decreases a.len(),
{
    if a.len() == 0 {
        b.len() > 0
    } else if b.len() == 0 {
        false
    } else if a[0] < b[0] {
        true
    } else if a[0] > b[0] {
        false
    } else {
        text_lt(a.drop_first(), b.drop_first())
    }
}

pub proof fn lemma_text_lt_transitive(a: Seq<char>, b: Seq<char>, c: Seq<char>)
    requires
        text_lt(a, b),
        text_lt(b, c),
    ensures
        text_lt(a, c),
    decreases a.len(),
{
    if a.len() > 0 && b.len() > 0 && c.len() > 0 && a[0] == b[0] && b[0] == c[0] {
        lemma_text_lt_transitive(a.drop_first(), b.drop_first(), c.drop_first());
    }
}

pub proof fn lemma_text_lt_irreflexive(a: Seq<char>)
    ensures
        !text_lt(a, a),
    decreases a.len(),
{
    if a.len() > 0 {
        lemma_text_lt_irreflexive(a.drop_first());
    }
}

/// Whether `a` comes strictly before `b`.
pub fn is_text_lt(a: &[char], b: &[char]) -> (r: bool)
    ensures
        r == text_lt(a@, b@),
{
    let mut i: usize = 0;
    assert(a@.skip(0) =~= a@);
    assert(b@.skip(0) =~= b@);
    while i < a.len() && i < b.len()
        invariant
            i <= a@.len(),
            i <= b@.len(),
            text_lt(a@, b@) == text_lt(a@.skip(i as int), b@.skip(i as int)),
        decreases a@.len() - i,
    {
        assert(a@.skip(i as int)[0] == a@[i as int]);
        assert(b@.skip(i as int)[0] == b@[i as int]);
        if a[i] < b[i] {
            return true;
        }
        if a[i] > b[i] {
            return false;
        }
        assert(a@.skip(i as int).drop_first() =~= a@.skip(i + 1));
        assert(b@.skip(i as int).drop_first() =~= b@.skip(i + 1));
        i = i + 1;
    }
    assert(a@.skip(i as int).len() == a@.len() - i);
    assert(b@.skip(i as int).len() == b@.len() - i);
    i == a.len() && i < b.len()
}

/// The greatest of `v` in the order of `str`, or the empty text when `v`
/// is empty.
pub open spec fn is_latest(r: Seq<char>, v: Seq<String>) -> bool {
    &&& v.len() == 0 ==> r.len() == 0
    &&& v.len() > 0 ==> exists|k: int| 0 <= k < v.len() && r == (#[trigger] v[k])@
    &&& forall|j: int| 0 <= j < v.len() ==> !text_lt(r, (#[trigger] v[j])@)
}

/// The greatest text of `v` (`Iterator::max` over `&str`), or `""` when `v`
/// is empty; used for the latest of a set of `YYYY-MM-DD` dates.
pub fn latest_of(v: &[String]) -> (r: String)
    ensures
        is_latest(r@, v@),
{
    if v.len() == 0 {
        return String::new();
    }
    let mut best = chars_of(v[0].as_str());
    let mut i: usize = 1;
    let ghost mut k: int = 0;
    proof {
        lemma_text_lt_irreflexive(best@);
    }
    while i < v.len()
        invariant
            1 <= i <= v@.len(),
            0 <= k < v@.len(),
            best@ == v@[k]@,
            forall|j: int| 0 <= j < i ==> !text_lt(best@, (#[trigger] v@[j])@),
        decreases v@.len() - i,
    {
        let cur = chars_of(v[i].as_str());
        if is_text_lt(&best, &cur) {
            proof {
                assert forall|j: int| 0 <= j < i + 1 implies !text_lt(cur@, (#[trigger] v@[j])@) by {
                    if j < i && text_lt(cur@, v@[j]@) {
                        lemma_text_lt_transitive(best@, cur@, v@[j]@);
                    }
                    if j == i {
                        lemma_text_lt_irreflexive(cur@);
                    }
                }
                k = i as int;
            }
            best = cur;
        }
        i = i + 1;
    }
    string_of(&best)
}

} // verus!
