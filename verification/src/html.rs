//! Reading the HTML fragments that the fund archive pages embed.
//!
//! The pages are read with a deliberately small grammar: tags are whatever
//! lies between `<` and `>`, tables are the `<tr>`/`<td>` chunks inside the
//! first `<tbody>`, and cell text has its whitespace collapsed.
use vstd::prelude::*;
use vstd::slice::slice_subrange;
use crate::text::{
    chars_of, find, find_in, is_whitespace, is_ws, pieces_after, push_all, split, split_by, string_of,
    views,
};

verus! {

broadcast use {vstd::string::group_string_axioms, vstd::slice::group_slice_axioms};

// ── Tag removal and whitespace collapsing ─────────────────────────────────

/// The characters of `s` that lie outside tags, when reading starts inside a
/// tag iff `in_tag`. `<` opens a tag, `>` closes one, and neither is kept.
pub open spec fn untag(s: Seq<char>, in_tag: bool) -> Seq<char>
    decreases s.len(),
{
    if s.len() == 0 {
        seq![]
    } else if s[0] == '<' {
        untag(s.drop_first(), true)
    } else if s[0] == '>' {
        untag(s.drop_first(), false)
    } else if in_tag {
        untag(s.drop_first(), true)
    } else {
        seq![s[0]] + untag(s.drop_first(), false)
    }
}

/// Length of the run of non-whitespace characters that starts `t`.
pub open spec fn run_len(t: Seq<char>) -> nat
    decreases t.len(),
{
    if t.len() > 0 && !is_ws(t[0]) {
        1 + run_len(t.drop_first())
    } else {
        0
    }
}

/// The maximal runs of non-whitespace characters of `t`, in order
/// (`str::split_whitespace`).
pub open spec fn words(t: Seq<char>) -> Seq<Seq<char>>
    decreases t.len(),
{
    if t.len() == 0 {
        seq![]
    } else if is_ws(t[0]) {
        words(t.drop_first())
    } else {
        proof {
            lemma_run_len_bound(t);
        }
        seq![t.take(run_len(t) as int)] + words(t.skip(run_len(t) as int))
    }
}

/// The words `ws` joined by single spaces.
pub open spec fn join_words(ws: Seq<Seq<char>>) -> Seq<char>
    decreases ws.len(),
{
    if ws.len() == 0 {
        seq![]
    } else if ws.len() == 1 {
        ws[0]
    } else {
        join_words(ws.drop_last()) + seq![' '] + ws.last()
    }
}

/// The text of an HTML fragment: tags removed, then whitespace runs
/// collapsed to single spaces and trimmed at both ends.
pub open spec fn html_text(s: Seq<char>) -> Seq<char> {
    join_words(words(untag(s, false)))
}

pub proof fn lemma_run_len_bound(t: Seq<char>)
    ensures
        run_len(t) <= t.len(),
        t.len() > 0 && !is_ws(t[0]) ==> run_len(t) >= 1,
    decreases t.len(),
{
    if t.len() > 0 && !is_ws(t[0]) {
        lemma_run_len_bound(t.drop_first());
    }
}

proof fn lemma_run_len_exact(t: Seq<char>, m: int)
    requires
        0 <= m <= t.len(),
        forall|k: int| 0 <= k < m ==> !is_ws(#[trigger] t[k]),
        m == t.len() || is_ws(t[m]),
    ensures
        run_len(t) == m,
    decreases m,
{
    if m > 0 {
        let u = t.drop_first();
        assert forall|k: int| 0 <= k < m - 1 implies !is_ws(#[trigger] u[k]) by {
            assert(u[k] == t[k + 1]);
        }
        lemma_run_len_exact(u, m - 1);
    }
}

/// The characters of `s` outside tags.
fn untag_chars(s: &[char]) -> (r: Vec<char>)
    ensures
        r@ == untag(s@, false),
{
    let mut r: Vec<char> = Vec::new();
    let mut in_tag = false;
    let mut i: usize = 0;
    assert(s@.skip(0) =~= s@);
    while i < s.len()
        invariant
            i <= s@.len(),
            r@ + untag(s@.skip(i as int), in_tag) == untag(s@, false),
        decreases s@.len() - i,
    {
        let ghost rest = s@.skip(i as int);
        assert(rest.drop_first() =~= s@.skip(i + 1));
        let ch = s[i];
        if ch == '<' {
            in_tag = true;
        } else if ch == '>' {
            in_tag = false;
        } else if !in_tag {
            let ghost before = r@;
            r.push(ch);
            assert(before + (seq![ch] + untag(s@.skip(i + 1), false)) =~= r@ + untag(
                s@.skip(i + 1),
                false,
            ));
        }
        i = i + 1;
    }
    assert(untag(s@.skip(i as int), in_tag) == Seq::<char>::empty());
    assert(r@ + Seq::<char>::empty() =~= r@);
    r
}

/// `t` with whitespace runs collapsed to single spaces and trimmed
/// (`split_whitespace` joined by `" "`).
pub fn collapse_whitespace(t: &[char]) -> (r: Vec<char>)
    ensures
        r@ == join_words(words(t@)),
{
    let mut r: Vec<char> = Vec::new();
    let ghost mut done: Seq<Seq<char>> = seq![];
    let mut any = false;
    let mut i: usize = 0;
    assert(t@.skip(0) =~= t@);
    while i < t.len()
        invariant
            i <= t@.len(),
            any == (done.len() > 0),
            words(t@) == done + words(t@.skip(i as int)),
            r@ == join_words(done),
        decreases t@.len() - i,
    {
        let ghost rest = t@.skip(i as int);
        if is_whitespace(t[i]) {
            assert(rest.drop_first() =~= t@.skip(i + 1));
            i = i + 1;
        } else {
            let mut j = i;
            while j < t.len() && !is_whitespace(t[j])
                invariant
                    i <= j <= t@.len(),
                    forall|k: int| i <= k < j ==> !is_ws(#[trigger] t@[k]),
                decreases t@.len() - j,
            {
                j = j + 1;
            }
            proof {
                assert forall|k: int| 0 <= k < j - i implies !is_ws(#[trigger] rest[k]) by {
                    assert(rest[k] == t@[i + k]);
                }
                lemma_run_len_exact(rest, j - i);
                assert(rest.take(j - i) =~= t@.subrange(i as int, j as int));
                assert(rest.skip(j - i) =~= t@.skip(j as int));
            }
            let ghost word = t@.subrange(i as int, j as int);
            if any {
                r.push(' ');
            }
            any = true;
            push_all(&mut r, slice_subrange(t, i, j));
            proof {
                let old_done = done;
                done = done.push(word);
                assert(done.drop_last() =~= old_done);
                if old_done.len() > 0 {
                    assert(join_words(done) == join_words(old_done) + seq![' '] + word);
                } else {
                    assert(join_words(old_done) =~= Seq::<char>::empty());
                    assert(join_words(done) == word);
                }
                assert(old_done + (seq![word] + words(t@.skip(j as int))) =~= done + words(
                    t@.skip(j as int),
                ));
            }
            i = j;
        }
    }
    assert(words(t@.skip(i as int)) == Seq::<Seq<char>>::empty());
    assert(done + Seq::<Seq<char>>::empty() =~= done);
    r
}

/// The text of an HTML fragment given as characters.
pub fn html_text_chars(s: &[char]) -> (r: Vec<char>)
    ensures
        r@ == html_text(s@),
{
    let u = untag_chars(s);
    collapse_whitespace(&u)
}

/// Strips nested HTML tags from a cell and collapses its whitespace.
pub fn strip_html(s: &str) -> (r: String)
    ensures
        r@ == html_text(s@),
{
    let cs = chars_of(s);
    let t = html_text_chars(&cs);
    string_of(&t)
}


// ── Tables ─────────────────────────────────────────────────────────────────

/// The character sequences of a vector of strings.
pub open spec fn strings_view(v: Seq<String>) -> Seq<Seq<char>> {
    v.map_values(|x: String| x@)
}

/// The rows of a table as nested character sequences.
pub open spec fn rows_view(v: Seq<Vec<String>>) -> Seq<Seq<Seq<char>>> {
    v.map_values(|r: Vec<String>| strings_view(r@))
}

/// `s` up to the first occurrence of `pat`, or all of `s` when it has none.
pub open spec fn until(s: Seq<char>, pat: Seq<char>) -> Seq<char> {
    match find(s, pat) {
        Some(e) => s.take(e),
        None => s,
    }
}

/// `s` after the first `>`, when it has one.
pub open spec fn after_gt(s: Seq<char>) -> Option<Seq<char>> {
    match find(s, seq!['>']) {
        Some(g) => Some(s.skip(g + 1)),
        None => None,
    }
}

/// The `<tbody` block of a section: from the first `<tbody` up to the first
/// `</tbody>` after it, or to the end of the section.
pub open spec fn tbody_of(section: Seq<char>) -> Option<Seq<char>> {
    match find(section, "<tbody"@) {
        None => None,
        Some(a) => Some(until(section.skip(a), "</tbody>"@)),
    }
}

/// The text of the cell that a piece following `<td` opens, if its opening
/// tag is closed.
pub open spec fn cell_text(chunk: Seq<char>) -> Option<Seq<char>> {
    match after_gt(chunk) {
        None => None,
        Some(inner) => Some(html_text(until(inner, "</td>"@))),
    }
}

/// The cells of the row that a piece following `<tr` opens.
pub open spec fn row_cells(chunk: Seq<char>) -> Seq<Seq<char>> {
    match after_gt(chunk) {
        None => seq![],
        Some(after) => pieces_after(until(after, "</tr>"@), "<td"@).filter_map(
            |c: Seq<char>| cell_text(c),
        ),
    }
}

/// The row that a piece following `<tr` gives, when it has a cell.
pub open spec fn row_of(chunk: Seq<char>) -> Option<Seq<Seq<char>>> {
    let cells = row_cells(chunk);
    if cells.len() > 0 {
        Some(cells)
    } else {
        None
    }
}

/// The rows of the first table body of `section`; rows without cells are
/// left out, and so is the header (`<thead>`), which lies outside `<tbody>`.
pub open spec fn table_rows(section: Seq<char>) -> Seq<Seq<Seq<char>>> {
    match tbody_of(section) {
        None => seq![],
        Some(body) => pieces_after(body, "<tr"@).filter_map(|c: Seq<char>| row_of(c)),
    }
}

pub proof fn lemma_split_len(s: Seq<char>, pat: Seq<char>)
    ensures
        split(s, pat).len() >= 1,
{
    if pat.len() > 0 {
        crate::text::lemma_find(s, pat);
    }
}

/// `s` up to the first occurrence of `pat`, or all of `s`.
fn until_chars<'a>(s: &'a [char], pat: &[char]) -> (r: &'a [char])
    ensures
        r@ == until(s@, pat@),
{
    proof {
        crate::text::lemma_find(s@, pat@);
    }
    match find_in(s, pat) {
        Some(e) => slice_subrange(s, 0, e),
        None => s,
    }
}

/// `s` after its first `>`.
fn after_gt_chars<'a>(s: &'a [char]) -> (r: Option<&'a [char]>)
    ensures
        r matches Some(x) ==> after_gt(s@) == Some(x@),
        r is None ==> after_gt(s@) is None,
{
    let gt = ['>'];
    assert(gt@ =~= seq!['>']);
    proof {
        crate::text::lemma_find(s@, gt@);
    }
    match find_in(s, &gt) {
        Some(g) => {
            assert(g + 1 <= s.len());
            Some(slice_subrange(s, g + 1, s.len()))
        },
        None => None,
    }
}

/// The text of the cell that `chunk` (a piece following `<td`) opens.
fn cell_of(chunk: &[char]) -> (r: Option<String>)
    ensures
        r matches Some(x) ==> cell_text(chunk@) == Some(x@),
        r is None ==> cell_text(chunk@) is None,
{
    match after_gt_chars(chunk) {
        None => None,
        Some(inner) => {
            let close = chars_of("</td>");
            let body = until_chars(inner, &close);
            let t = html_text_chars(body);
            Some(string_of(&t))
        },
    }
}

/// The cells of the row that `chunk` (a piece following `<tr`) opens.
fn row_cells_of(chunk: &[char]) -> (cells: Vec<String>)
    ensures
        strings_view(cells@) == row_cells(chunk@),
{
    match after_gt_chars(chunk) {
        None => {
            let v: Vec<String> = Vec::new();
            assert(strings_view(v@) =~= Seq::<Seq<char>>::empty());
            v
        },
        Some(after) => {
            let close = chars_of("</tr>");
            let row = until_chars(after, &close);
            let td = chars_of("<td");
            proof {
                reveal_strlit("<td");
            }
            let pieces = split_by(row, &td);
            proof {
                lemma_split_len(row@, td@);
            }
            let ghost ps = views(pieces@);
            let mut cells: Vec<String> = Vec::new();
            let mut k: usize = 1;
            assert(ps.subrange(1, 1) =~= Seq::<Seq<char>>::empty());
            assert(strings_view(cells@) =~= Seq::<Seq<char>>::empty());
            while k < pieces.len()
                invariant
                    1 <= k <= pieces@.len(),
                    ps == views(pieces@),
                    strings_view(cells@) == ps.subrange(1, k as int).filter_map(
                        |c: Seq<char>| cell_text(c),
                    ),
                decreases pieces@.len() - k,
            {
                let ghost before = ps.subrange(1, k as int);
                assert(ps.subrange(1, k + 1).drop_last() =~= before);
                assert(ps.subrange(1, k + 1).last() == pieces@[k as int]@);
                let c = cell_of(&pieces[k]);
                match c {
                    Some(x) => {
                        let ghost old_cells = cells@;
                        cells.push(x);
                        assert(strings_view(cells@) =~= strings_view(old_cells) + seq![x@]);
                    },
                    None => {},
                }
                k = k + 1;
            }
            assert(ps.subrange(1, ps.len() as int) =~= ps.drop_first());
            cells
        },
    }
}

/// Rows of cells from the first `<tbody>` block of an HTML section; the
/// header (`<thead>`) never leaks into the data, and rows without cells are
/// dropped.
pub fn parse_table_rows_from_section(section: &str) -> (rows: Vec<Vec<String>>)
    ensures
        rows_view(rows@) == table_rows(section@),
{
    let s = chars_of(section);
    let open = chars_of("<tbody");
    proof {
        crate::text::lemma_find(s@, open@);
    }
    let start = match find_in(&s, &open) {
        None => {
            let v: Vec<Vec<String>> = Vec::new();
            assert(rows_view(v@) =~= Seq::<Seq<Seq<char>>>::empty());
            return v;
        },
        Some(a) => a,
    };
    let close = chars_of("</tbody>");
    let body = until_chars(slice_subrange(&s, start, s.len()), &close);
    assert(s@.subrange(start as int, s@.len() as int) =~= s@.skip(start as int));
    let tr = chars_of("<tr");
    proof {
        reveal_strlit("<tr");
    }
    let pieces = split_by(body, &tr);
    proof {
        lemma_split_len(body@, tr@);
    }
    let ghost ps = views(pieces@);
    let mut rows: Vec<Vec<String>> = Vec::new();
    let mut k: usize = 1;
    assert(ps.subrange(1, 1) =~= Seq::<Seq<char>>::empty());
    assert(rows_view(rows@) =~= Seq::<Seq<Seq<char>>>::empty());
    while k < pieces.len()
        invariant
            1 <= k <= pieces@.len(),
            ps == views(pieces@),
            rows_view(rows@) == ps.subrange(1, k as int).filter_map(|c: Seq<char>| row_of(c)),
        decreases pieces@.len() - k,
    {
        let ghost before = ps.subrange(1, k as int);
        assert(ps.subrange(1, k + 1).drop_last() =~= before);
        assert(ps.subrange(1, k + 1).last() == pieces@[k as int]@);
        let cells = row_cells_of(&pieces[k]);
        if cells.len() > 0 {
            let ghost old_rows = rows@;
            rows.push(cells);
            assert(rows_view(rows@) =~= rows_view(old_rows) + seq![strings_view(cells@)]);
        }
        k = k + 1;
    }
    assert(ps.subrange(1, ps.len() as int) =~= ps.drop_first());
    rows
}


/// `t` holds no angle bracket.
pub open spec fn bracket_free(t: Seq<char>) -> bool {
    forall|i: int| 0 <= i < t.len() ==> #[trigger] t[i] != '<' && t[i] != '>'
}

proof fn lemma_untag_bracket_free(s: Seq<char>, in_tag: bool)
    ensures
        bracket_free(untag(s, in_tag)),
    decreases s.len(),
{
    if s.len() > 0 {
        lemma_untag_bracket_free(s.drop_first(), true);
        lemma_untag_bracket_free(s.drop_first(), false);
        if s[0] != '<' && s[0] != '>' && !in_tag {
            let rest = untag(s.drop_first(), false);
            assert forall|i: int| 0 <= i < (seq![s[0]] + rest).len() implies #[trigger] (seq![
                s[0],
            ] + rest)[i] != '<' && (seq![s[0]] + rest)[i] != '>' by {
                if i > 0 {
                    assert((seq![s[0]] + rest)[i] == rest[i - 1]);
                }
            }
        }
    }
}

proof fn lemma_words_bracket_free(t: Seq<char>)
    requires
        bracket_free(t),
    ensures
        forall|k: int| 0 <= k < words(t).len() ==> bracket_free(#[trigger] words(t)[k]),
    decreases t.len(),
{
    if t.len() > 0 {
        if is_ws(t[0]) {
            let u = t.drop_first();
            assert forall|i: int| 0 <= i < u.len() implies #[trigger] u[i] != '<' && u[i] != '>' by {
                assert(u[i] == t[i + 1]);
            }
            lemma_words_bracket_free(u);
            assert(words(t) == words(u));
        } else {
            lemma_run_len_bound(t);
            let n = run_len(t) as int;
            let head = t.take(n);
            let tail = t.skip(n);
            assert forall|i: int| 0 <= i < head.len() implies #[trigger] head[i] != '<' && head[i]
                != '>' by {
                assert(head[i] == t[i]);
            }
            assert forall|i: int| 0 <= i < tail.len() implies #[trigger] tail[i] != '<' && tail[i]
                != '>' by {
                assert(tail[i] == t[i + n]);
            }
            lemma_words_bracket_free(tail);
            let ws = words(t);
            assert(ws == seq![head] + words(tail));
            assert forall|k: int| 0 <= k < ws.len() implies bracket_free(#[trigger] ws[k]) by {
                if k > 0 {
                    assert(ws[k] == words(tail)[k - 1]);
                }
            }
        }
    }
}

proof fn lemma_join_bracket_free(ws: Seq<Seq<char>>)
    requires
        forall|k: int| 0 <= k < ws.len() ==> bracket_free(#[trigger] ws[k]),
    ensures
        bracket_free(join_words(ws)),
    decreases ws.len(),
{
    if ws.len() > 1 {
        let init = ws.drop_last();
        assert forall|k: int| 0 <= k < init.len() implies bracket_free(#[trigger] init[k]) by {
            assert(init[k] == ws[k]);
        }
        lemma_join_bracket_free(init);
        let a = join_words(init);
        let b = a + seq![' '] + ws.last();
        assert(bracket_free(ws[ws.len() - 1]));
        assert forall|i: int| 0 <= i < b.len() implies #[trigger] b[i] != '<' && b[i] != '>' by {
            if i < a.len() {
                assert(b[i] == a[i]);
            } else if i > a.len() {
                assert(b[i] == ws.last()[i - a.len() - 1]);
            }
        }
    } else if ws.len() == 1 {
        assert(bracket_free(ws[0]));
    }
}

/// The text of a fragment holds no `<` or `>`: every tag is gone, and the
/// brackets themselves are never kept.
pub proof fn lemma_text_is_bracket_free(s: Seq<char>)
    ensures
        bracket_free(html_text(s)),
{
    lemma_untag_bracket_free(s, false);
    lemma_words_bracket_free(untag(s, false));
    lemma_join_bracket_free(words(untag(s, false)));
}


/// The body rows of the first table of `html`.
pub fn parse_table_rows(html: &str) -> (rows: Vec<Vec<String>>)
    ensures
        rows_view(rows@) == table_rows(html@),
{
    parse_table_rows_from_section(html)
}

} // verus!
