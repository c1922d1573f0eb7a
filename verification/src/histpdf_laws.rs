//! The order of the count columns of a historic report does not matter.

use crate::columns::{column_from, count_column, header_text};
use crate::ffl::Versions;
use crate::histpdf::{
    grouped_count, header_columns, in_range, is_column_header, is_section_row, lemma_placed,
    pair_columns, placed_counts, scan_line, scan_lines, section_rec, state_position, Scan,
};
use crate::text::{phrase, trimmed, upper, words};
use vstd::prelude::*;

verus! {

/// Whether the numbers from zero on stand in some order.
pub open spec fn is_permutation(p: Seq<int>) -> bool {
    &&& forall|i: int| 0 <= i < p.len() ==> 0 <= #[trigger] p[i] < p.len()
    &&& p.no_duplicates()
    &&& forall|j: int| 0 <= j < p.len() ==> #[trigger] p.contains(j)
}

/// Whether `b` holds what `a` holds, in the order that `p` gives.
pub open spec fn is_reordered<A>(a: Seq<A>, b: Seq<A>, p: Seq<int>) -> bool {
    &&& a.len() == p.len()
    &&& b.len() == p.len()
    &&& forall|i: int| 0 <= i < p.len() ==> #[trigger] b[i] == a[p[i]]
}

/// The last `n` words.
pub open spec fn last_words(ws: Seq<Seq<char>>, n: int) -> Seq<Seq<char>> {
    ws.skip(ws.len() - n)
}

/// Whether two lines below a header are the same line under its columns in two
/// orders: the counts at its end are reordered as the columns are, or it is no
/// row of the section and names no columns.
pub open spec fn same_but_for_order(a: Seq<char>, b: Seq<char>, p: Seq<int>) -> bool {
    let (s, t) = (trimmed(a), trimmed(b));
    let (v, w) = (words(s), words(t));
    let n = p.len() as int;
    ||| {
        &&& !is_column_header(s) && !is_column_header(t)
        &&& v.len() == w.len() && v.len() > n
        &&& v.take(v.len() - n) == w.take(w.len() - n)
        &&& is_reordered(last_words(v, n), last_words(w, n), p)
    }
    ||| {
        &&& s == t
        &&& !is_column_header(s) ==> !is_section_row(v, n)
        &&& is_column_header(s) ==> header_columns(s).len() == 0
    }
}

/// Whether the lines are none, or begin with a header that names columns.
pub open spec fn begins_section(ls: Seq<Seq<char>>) -> bool {
    ls.len() > 0 ==> is_column_header(trimmed(ls[0])) && header_columns(trimmed(ls[0])).len() > 0
}

/// Whether two scans agree in what they found.
pub open spec fn found_the_same(a: Scan, b: Scan) -> bool {
    a.entries == b.entries && a.sections == b.sections && a.unsplit == b.unsplit
}

spec fn scan_from(scan: Scan, ls: Seq<Seq<char>>, year: int, versions: Versions) -> Scan
    decreases ls.len(),
{
    if ls.len() == 0 {
        scan
    } else {
        scan_line(scan_from(scan, ls.drop_last(), year, versions), ls.last(), year, versions)
    }
}

proof fn lemma_scan_append(a: Seq<Seq<char>>, b: Seq<Seq<char>>, year: int, versions: Versions)
    ensures
        scan_lines(a + b, year, versions) == scan_from(
            scan_lines(a, year, versions),
            b,
            year,
            versions,
        ),
    decreases b.len(),
{
    if b.len() == 0 {
        assert(a + b == a);
    } else {
        lemma_scan_append(a, b.drop_last(), year, versions);
        assert((a + b).drop_last() == a + b.drop_last());
    }
}

proof fn lemma_column_in_range(n: Seq<char>, from: int)
    requires
        0 <= from,
    ensures
        column_from(n, from) matches Some(c) ==> 0 <= c < 22,
    decreases 22 - from,
{
    if from < 22 {
        lemma_column_in_range(n, from + 1);
    }
}

proof fn lemma_pairs_in_range(ws: Seq<Seq<char>>, from: int)
    ensures
        in_range(pair_columns(ws, from)),
    decreases ws.len() - from,
{
    if from + 1 < ws.len() {
        lemma_pairs_in_range(ws, from + 2);
        lemma_column_in_range(header_text(phrase(ws.subrange(from, from + 2))), 0);
        let rest = pair_columns(ws, from + 2);
        let now = pair_columns(ws, from);
        assert forall|i: int| 0 <= i < now.len() implies 0 <= #[trigger] now[i] < 22 by {
            if now.len() > rest.len() && i > 0 {
                assert(now[i] == rest[i - 1]);
            } else if now.len() == rest.len() {
                assert(now[i] == rest[i]);
            }
        }
    }
}

proof fn lemma_columns_in_range(line: Seq<char>)
    ensures
        in_range(header_columns(line)),
{
    let ws = words(line);
    let at = state_position(ws, 0);
    lemma_pairs_in_range(ws, at + 1);
    lemma_column_in_range(header_text(phrase(ws.skip(at + 1))), 0);
}

/// Counts that are reordered as their columns are go to the same places.
proof fn lemma_same_places(
    v: Seq<Seq<char>>,
    w: Seq<Seq<char>>,
    cols: Seq<int>,
    reordered: Seq<int>,
    p: Seq<int>,
)
    requires
        is_permutation(p),
        in_range(cols),
        in_range(reordered),
        cols.no_duplicates(),
        is_reordered(cols, reordered, p),
        v.len() == w.len(),
        v.len() > p.len(),
        is_reordered(last_words(v, p.len() as int), last_words(w, p.len() as int), p),
    ensures
        placed_counts(v, cols, p.len() as int) == placed_counts(w, reordered, p.len() as int),
{
    let n = p.len() as int;
    let m = v.len() - n;
    assert(reordered.no_duplicates()) by {
        assert forall|i: int, j: int| 0 <= i < n && 0 <= j < n && i != j implies reordered[i]
            != reordered[j] by {
            assert(p[i] != p[j]);
            assert(reordered[i] == cols[p[i]]);
            assert(reordered[j] == cols[p[j]]);
        }
    }
    lemma_placed(v, cols, n);
    lemma_placed(w, reordered, n);
    let a = placed_counts(v, cols, n);
    let b = placed_counts(w, reordered, n);
    assert forall|c: int| 0 <= c < 22 implies a[c] == b[c] by {
        if exists|i: int| 0 <= i < n && #[trigger] reordered[i] == c {
            let i = choose|i: int| 0 <= i < n && #[trigger] reordered[i] == c;
            assert(b[reordered[i]] == grouped_count(w[m + i])->0 as i64);
            assert(cols[p[i]] == c);
            assert(a[cols[p[i]]] == grouped_count(v[m + p[i]])->0 as i64);
            assert(last_words(w, n)[i] == last_words(v, n)[p[i]]);
        } else {
            assert forall|j: int| 0 <= j < n implies #[trigger] cols[j] != c by {
                assert(p.contains(j));
                let i = choose|i: int| 0 <= i < p.len() && p[i] == j;
                assert(reordered[i] == cols[j]);
            }
            assert(a[c] == 0);
            assert(b[c] == 0);
        }
    }
    assert(a =~= b);
}

proof fn lemma_same_row(v: Seq<Seq<char>>, w: Seq<Seq<char>>, p: Seq<int>)
    requires
        is_permutation(p),
        v.len() == w.len(),
        v.len() > p.len(),
        v.take(v.len() - p.len()) == w.take(w.len() - p.len()),
        is_reordered(last_words(v, p.len() as int), last_words(w, p.len() as int), p),
    ensures
        is_section_row(v, p.len() as int) == is_section_row(w, p.len() as int),
{
    let n = p.len() as int;
    let m = v.len() - n;
    assert(v.take(m)[0] == w.take(m)[0]);
    assert(v.take(m)[m - 1] == w.take(m)[m - 1]);
    if is_section_row(v, n) {
        assert forall|i: int| 0 <= i < n implies grouped_count(
            #[trigger] w[w.len() - n + i],
        ) is Some by {
            assert(last_words(w, n)[i] == last_words(v, n)[p[i]]);
            assert(grouped_count(v[v.len() - n + p[i]]) is Some);
        }
    }
    if is_section_row(w, n) {
        assert forall|j: int| 0 <= j < n implies grouped_count(
            #[trigger] v[v.len() - n + j],
        ) is Some by {
            assert(p.contains(j));
            let i = choose|i: int| 0 <= i < p.len() && p[i] == j;
            assert(last_words(w, n)[i] == last_words(v, n)[p[i]]);
            assert(grouped_count(w[w.len() - n + i]) is Some);
        }
    }
}

proof fn lemma_body_line(
    x: Scan,
    y: Scan,
    a: Seq<char>,
    b: Seq<char>,
    p: Seq<int>,
    year: int,
    versions: Versions,
)
    requires
        is_permutation(p),
        p.len() > 0,
        in_range(x.cols),
        in_range(y.cols),
        x.cols.no_duplicates(),
        is_reordered(x.cols, y.cols, p),
        found_the_same(x, y),
        same_but_for_order(a, b, p),
    ensures
        ({
            let x2 = scan_line(x, a, year, versions);
            let y2 = scan_line(y, b, year, versions);
            found_the_same(x2, y2) && x2.cols == x.cols && y2.cols == y.cols
        }),
{
    let (s, t) = (trimmed(a), trimmed(b));
    let (v, w) = (words(s), words(t));
    let n = p.len() as int;
    if !is_column_header(s) && !is_column_header(t) && v.len() == w.len() && v.len() > n && v.take(
        v.len() - n,
    ) == w.take(w.len() - n) && is_reordered(last_words(v, n), last_words(w, n), p) {
        lemma_same_row(v, w, p);
        if is_section_row(v, n) {
            let m = v.len() - n;
            lemma_same_places(v, w, x.cols, y.cols, p);
            assert(v.take(m)[0] == w.take(m)[0]);
            assert(v.take(m)[m - 1] == w.take(m)[m - 1]);
            assert(v.subrange(1, m - 1) == v.take(m).subrange(1, m - 1));
            assert(w.subrange(1, m - 1) == w.take(m).subrange(1, m - 1));
            let version = crate::ffl::effective(versions, v[0], year);
            assert(section_rec(v, x.cols, version) == section_rec(w, y.cols, version));
        }
    }
}

proof fn lemma_body(
    x: Scan,
    y: Scan,
    a: Seq<Seq<char>>,
    b: Seq<Seq<char>>,
    p: Seq<int>,
    year: int,
    versions: Versions,
)
    requires
        is_permutation(p),
        p.len() > 0,
        in_range(x.cols),
        in_range(y.cols),
        x.cols.no_duplicates(),
        is_reordered(x.cols, y.cols, p),
        found_the_same(x, y),
        a.len() == b.len(),
        forall|i: int| 0 <= i < a.len() ==> same_but_for_order(#[trigger] a[i], b[i], p),
    ensures
        ({
            let x2 = scan_from(x, a, year, versions);
            let y2 = scan_from(y, b, year, versions);
            found_the_same(x2, y2) && x2.cols == x.cols && y2.cols == y.cols
        }),
    decreases a.len(),
{
    if a.len() > 0 {
        let (c, d) = (a.drop_last(), b.drop_last());
        assert forall|i: int| 0 <= i < c.len() implies same_but_for_order(
            #[trigger] c[i],
            d[i],
            p,
        ) by {
            assert(same_but_for_order(a[i], b[i], p));
        }
        lemma_body(x, y, c, d, p, year, versions);
        let k = a.len() - 1;
        assert(same_but_for_order(a[k], b[k], p));
        lemma_body_line(
            scan_from(x, c, year, versions),
            scan_from(y, d, year, versions),
            a[k],
            b[k],
            p,
            year,
            versions,
        );
    }
}

proof fn lemma_rest(x: Scan, y: Scan, ls: Seq<Seq<char>>, year: int, versions: Versions)
    requires
        found_the_same(x, y),
        begins_section(ls),
    ensures
        found_the_same(scan_from(x, ls, year, versions), scan_from(y, ls, year, versions)),
        ls.len() > 0 ==> scan_from(x, ls, year, versions) == scan_from(y, ls, year, versions),
    decreases ls.len(),
{
    if ls.len() == 1 {
        assert(ls.drop_last() == Seq::<Seq<char>>::empty());
        assert(scan_from(x, ls.drop_last(), year, versions) == x);
        assert(scan_from(y, ls.drop_last(), year, versions) == y);
    } else if ls.len() > 1 {
        assert(ls.drop_last()[0] == ls[0]);
        lemma_rest(x, y, ls.drop_last(), year, versions);
    }
}

/// A report gives the same rows and statistics where the count columns of a
/// section stand in another order, if the counts of the rows below do too. The
/// columns of the section must differ from each other.
pub proof fn law_column_order_does_not_matter(
    before: Seq<Seq<char>>,
    header: Seq<char>,
    reordered: Seq<char>,
    body: Seq<Seq<char>>,
    reordered_body: Seq<Seq<char>>,
    after: Seq<Seq<char>>,
    p: Seq<int>,
    year: int,
    versions: Versions,
)
    requires
        is_permutation(p),
        is_column_header(trimmed(header)),
        is_column_header(trimmed(reordered)),
        is_reordered(header_columns(trimmed(header)), header_columns(trimmed(reordered)), p),
        header_columns(trimmed(header)).no_duplicates(),
        body.len() == reordered_body.len(),
        forall|i: int|
            0 <= i < body.len() ==> same_but_for_order(#[trigger] body[i], reordered_body[i], p),
        begins_section(after),
        p.len() > 0,
    ensures
        found_the_same(
            scan_lines(before + seq![header] + body + after, year, versions),
            scan_lines(before + seq![reordered] + reordered_body + after, year, versions),
        ),
{
    lemma_columns_in_range(trimmed(header));
    lemma_columns_in_range(trimmed(reordered));
    let start = scan_lines(before, year, versions);
    let x = scan_line(start, header, year, versions);
    let y = scan_line(start, reordered, year, versions);
    lemma_scan_append(before + seq![header] + body, after, year, versions);
    lemma_scan_append(before + seq![reordered] + reordered_body, after, year, versions);
    lemma_scan_append(before + seq![header], body, year, versions);
    lemma_scan_append(before + seq![reordered], reordered_body, year, versions);
    assert((before + seq![header]).drop_last() == before);
    assert((before + seq![reordered]).drop_last() == before);
    assert(scan_lines(before + seq![header], year, versions) == x);
    assert(scan_lines(before + seq![reordered], year, versions) == y);
    lemma_body(x, y, body, reordered_body, p, year, versions);
    lemma_rest(
        scan_from(x, body, year, versions),
        scan_from(y, reordered_body, year, versions),
        after,
        year,
        versions,
    );
}

/// The words of the column at place `i` of a header that names its columns two by
/// two from position `m` on.
pub open spec fn pair_at(ws: Seq<Seq<char>>, m: int, i: int) -> Seq<Seq<char>> {
    ws.subrange(m + 2 * i, m + 2 * i + 2)
}

/// Whether two words name a count column by caliber.
pub open spec fn is_caliber(pair: Seq<Seq<char>>) -> bool {
    (upper(pair[0]) == "PISTOL"@ || upper(pair[0]) == "REVOLVER"@) && count_column(
        phrase(pair),
    ) is Some
}

/// Whether the words of a header from position `m` on name `n` columns by
/// caliber, with the state column right in front of them.
pub open spec fn names_calibers(ws: Seq<Seq<char>>, m: int, n: int) -> bool {
    &&& 1 <= m
    &&& ws.len() == m + 2 * n
    &&& state_position(ws, 0) == m - 1
    &&& forall|i: int| 0 <= i < n ==> is_caliber(#[trigger] pair_at(ws, m, i))
}

proof fn lemma_pair_columns(ws: Seq<Seq<char>>, m: int, n: int, k: int)
    requires
        0 <= k <= n,
        names_calibers(ws, m, n),
    ensures
        pair_columns(ws, m + 2 * k).len() == n - k,
        forall|i: int|
            k <= i < n ==> pair_columns(ws, m + 2 * k)[i - k] == count_column(
                phrase(#[trigger] pair_at(ws, m, i)),
            )->0,
    decreases n - k,
{
    if k < n {
        lemma_pair_columns(ws, m, n, k + 1);
        assert(is_caliber(pair_at(ws, m, k)));
        let rest = pair_columns(ws, m + 2 * (k + 1));
        let now = pair_columns(ws, m + 2 * k);
        let c = count_column(phrase(pair_at(ws, m, k)))->0;
        assert(now == seq![c] + rest);
        assert forall|i: int| k <= i < n implies now[i - k] == count_column(
            phrase(#[trigger] pair_at(ws, m, i)),
        )->0 by {
            if i > k {
                assert(now[i - k] == rest[i - (k + 1)]);
            }
        }
    }
}

/// A header that names calibers names their columns.
pub proof fn lemma_caliber_columns(line: Seq<char>, m: int, n: int)
    requires
        0 < n,
        names_calibers(words(line), m, n),
    ensures
        header_columns(line).len() == n,
        forall|i: int|
            0 <= i < n ==> header_columns(line)[i] == count_column(
                phrase(#[trigger] pair_at(words(line), m, i)),
            )->0,
{
    let ws = words(line);
    lemma_pair_columns(ws, m, n, 0);
    assert(is_caliber(pair_at(ws, m, 0)));
    assert(pair_at(ws, m, 0)[0] == ws[m]);
    let cols = header_columns(line);
    assert(cols == pair_columns(ws, m + 2 * 0));
    assert forall|i: int| 0 <= i < n implies cols[i] == count_column(
        phrase(#[trigger] pair_at(ws, m, i)),
    )->0 by {
        assert(cols[i] == cols[i - 0]);
    }
}

/// The columns of a section by caliber stand in the order in which its header
/// names them: where the pairs of words are reordered, so are the columns.
pub proof fn law_columns_follow_the_pairs(
    header: Seq<char>,
    reordered: Seq<char>,
    m: int,
    p: Seq<int>,
)
    requires
        p.len() > 0,
        is_permutation(p),
        names_calibers(words(header), m, p.len() as int),
        names_calibers(words(reordered), m, p.len() as int),
        forall|i: int|
            0 <= i < p.len() ==> #[trigger] pair_at(words(reordered), m, i) == pair_at(
                words(header),
                m,
                p[i],
            ),
    ensures
        is_reordered(header_columns(header), header_columns(reordered), p),
{
    let n = p.len() as int;
    lemma_caliber_columns(header, m, n);
    lemma_caliber_columns(reordered, m, n);
    let a = header_columns(header);
    let b = header_columns(reordered);
    assert forall|i: int| 0 <= i < n implies #[trigger] b[i] == a[p[i]] by {
        assert(pair_at(words(reordered), m, i) == pair_at(words(header), m, p[i]));
    }
}

} // verus!
