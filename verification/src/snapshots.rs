//! The dates of the snapshots of the license list, and the order in which they
//! are loaded.

use crate::number::{
    lemma_padded, lemma_short_padded, padded, padded_int, padded_of, padded_of_signed, parse_i32, parse_u32, signed,
    ten_to, unsigned, value,
};
use crate::text::{
    all_digits, chars_of, differ_first, ends_with, first_index, is_all_digits, is_digit, law_text_order_is_total,
    lemma_first_index_is, lower, same,
    starts_with, string_of, strip_prefix, strip_suffix, text_before, texts, to_lower,
};
use vstd::prelude::*;

verus! {

/// A file of the license list and the date of its snapshot.
pub struct Snapshot {
    /// The position of the file among those that were named.
    pub source: usize,
    /// The date as `YYYY-MM`.
    pub label: String,
    pub year: i32,
    pub month: u32,
}

/// What a dated file holds.
pub struct DatedText {
    pub source: int,
    pub label: Seq<char>,
    pub year: i32,
    pub month: u32,
}

impl View for Snapshot {
    type V = DatedText;

    open spec fn view(&self) -> DatedText {
        DatedText {
            source: self.source as int,
            label: self.label@,
            year: self.year,
            month: self.month,
        }
    }
}

/// The kinds of files that hold a license list.
#[derive(Clone, Copy)]
pub enum FileKind {
    Csv,
    Xlsx,
}

/// The kind of file with an extension.
pub open spec fn kind_named(extension: Option<&str>) -> Option<FileKind> {
    match extension {
        Some(e) => if e@ == "csv"@ {
            Some(FileKind::Csv)
        } else if e@ == "xlsx"@ {
            Some(FileKind::Xlsx)
        } else {
            None
        },
        None => None,
    }
}

/// The kind of a file by its extension, none where it holds no license list.
pub fn file_kind(extension: Option<&str>) -> (r: Option<FileKind>)
    ensures
        r == kind_named(extension),
{
    match extension {
        Some(e) => if same(e, "csv") {
            Some(FileKind::Csv)
        } else if same(e, "xlsx") {
            Some(FileKind::Xlsx)
        } else {
            None
        },
        None => None,
    }
}

/// The year and month of a file name in front of `-ffl-list`: `YYYY-MM`, or
/// `MMYY` of this century.
pub open spec fn list_date(prefix: Seq<char>) -> Option<(int, nat)> {
    let dash = first_index(prefix, '-');
    if dash < prefix.len() {
        let y = prefix.take(dash);
        let m = prefix.skip(dash + 1);
        if y.len() == 4 && m.len() == 2 {
            match (signed(y, i32::MAX as nat), unsigned(m, u32::MAX as nat)) {
                (Some(year), Some(month)) => Some((year, month)),
                _ => None,
            }
        } else {
            None
        }
    } else if prefix.len() == 4 && all_digits(prefix) {
        Some((2000 + value(prefix.skip(2)) as int, value(prefix.take(2))))
    } else {
        None
    }
}

/// The year and month of the snapshot that a file name, without its extension,
/// tells: `2024-02-ffl-list`, `0224-ffl-list`, or `rds-2024` for January.
pub open spec fn snapshot_date(stem: Seq<char>) -> Option<(int, nat)> {
    if starts_with(stem, "rds-"@) {
        let rest = stem.skip("rds-"@.len() as int);
        if rest.len() < 4 {
            None
        } else {
            match signed(rest.take(4), i32::MAX as nat) {
                Some(year) => Some((year, 1)),
                None => None,
            }
        }
    } else if ends_with(stem, "-ffl-list"@) {
        list_date(stem.take(stem.len() - "-ffl-list"@.len()))
    } else {
        None
    }
}

/// The label of a date: the year in four digits and the month in two.
pub open spec fn date_label(year: int, month: nat) -> Seq<char> {
    padded_int(year, 4) + "-"@ + padded(month, 2)
}

/// The dated file at a position, none where its name tells no date. Letter case
/// does not matter.
pub open spec fn dated(stems: Seq<Seq<char>>, k: int) -> Option<DatedText> {
    match snapshot_date(lower(stems[k])) {
        Some((year, month)) => Some(
            DatedText {
                source: k,
                label: date_label(year, month),
                year: year as i32,
                month: month as u32,
            },
        ),
        None => None,
    }
}

/// Whether `a` is loaded before `b`: by year, then by month, then by position.
pub open spec fn loads_before(a: DatedText, b: DatedText) -> bool {
    ||| a.year < b.year
    ||| a.year == b.year && a.month < b.month
    ||| a.year == b.year && a.month == b.month && a.source < b.source
}

pub open spec fn is_ordered(order: Seq<DatedText>) -> bool {
    forall|i: int, j: int|
        0 <= i < j < order.len() ==> loads_before(#[trigger] order[i], #[trigger] order[j])
}

/// Whether `order` holds the dated files among the first `n`, and only those, in
/// chronological order.
pub open spec fn is_load_order(order: Seq<DatedText>, stems: Seq<Seq<char>>, n: int) -> bool {
    &&& is_ordered(order)
    &&& forall|i: int|
        0 <= i < order.len() ==> 0 <= (#[trigger] order[i]).source < n && dated(
            stems,
            order[i].source,
        ) == Some(order[i])
    &&& forall|k: int|
        0 <= k < n && #[trigger] dated(stems, k) is Some ==> exists|i: int|
            0 <= i < order.len() && (#[trigger] order[i]).source == k
}

pub open spec fn order_text(order: Seq<Snapshot>) -> Seq<DatedText> {
    Seq::new(order.len(), |i: int| order[i]@)
}

/// A date and the way in which contracts write it.
pub open spec fn date_text(d: Option<(i32, u32)>) -> Option<(int, nat)> {
    match d {
        Some((y, m)) => Some((y as int, m as nat)),
        None => None,
    }
}

fn parse_list_date(prefix: &str) -> (r: Option<(i32, u32)>)
    ensures
        date_text(r) == list_date(prefix@),
{
    let chars = chars_of(prefix);
    let n: usize = chars.len();
    let mut dash: usize = 0;
    while dash < n && chars[dash] != '-'
        invariant
            chars@ == prefix@,
            n == chars@.len(),
            dash <= n,
            forall|i: int| 0 <= i < dash ==> prefix@[i] != '-',
        decreases n - dash,
    {
        dash += 1;
    }
    proof {
        lemma_first_index_is(prefix@, '-', dash as int);
    }
    if dash < n {
        if dash == 4 && n == 7 {
            let y = string_of(&chars, 0, 4);
            let m = string_of(&chars, 5, 7);
            assert(y@ == prefix@.take(4));
            assert(m@ == prefix@.skip(5));
            match (parse_i32(y.as_str()), parse_u32(m.as_str())) {
                (Some(year), Some(month)) => Some((year, month)),
                _ => None,
            }
        } else {
            None
        }
    } else if n == 4 && is_all_digits(prefix) {
        let m = string_of(&chars, 0, 2);
        let y = string_of(&chars, 2, 4);
        assert(m@ == prefix@.take(2));
        assert(y@ == prefix@.skip(2));
        proof {
            lemma_two_digits(m@);
            lemma_two_digits(y@);
        }
        match (parse_u32(m.as_str()), parse_u32(y.as_str())) {
            (Some(month), Some(yy)) => Some((2000 + yy as i32, month)),
            _ => None,
        }
    } else {
        None
    }
}

proof fn lemma_two_digits(s: Seq<char>)
    requires
        s.len() == 2,
        all_digits(s),
    ensures
        value(s) < 100,
        unsigned(s, u32::MAX as nat) == Some(value(s)),
{
    reveal_with_fuel(value, 3);
    assert(is_digit(s[0]));
    assert(is_digit(s[1]));
    assert(s.drop_last()[0] == s[0]);
}

/// The year and month that a file name, in lower case and without its extension,
/// tells.
pub fn parse_snapshot_date(stem: &str) -> (r: Option<(i32, u32)>)
    ensures
        date_text(r) == snapshot_date(stem@),
{
    if let Some(rest) = strip_prefix(stem, "rds-") {
        let chars = chars_of(rest.as_str());
        if chars.len() < 4 {
            return None;
        }
        let y = string_of(&chars, 0, 4);
        assert(y@ == rest@.take(4));
        match parse_i32(y.as_str()) {
            Some(year) => Some((year, 1)),
            None => None,
        }
    } else if let Some(prefix) = strip_suffix(stem, "-ffl-list") {
        parse_list_date(prefix.as_str())
    } else {
        None
    }
}

/// The label of a date.
fn label_of(year: i32, month: u32) -> (r: String)
    ensures
        r@ == date_label(year as int, month as nat),
{
    let mut label = padded_of_signed(year, 4);
    label.append("-");
    label.append(padded_of(month as u64, 2).as_str());
    label
}

/// The files with a date in chronological order, those of one month in the order
/// in which they are named.
pub fn load_order(stems: &Vec<String>) -> (r: Vec<Snapshot>)
    ensures
        is_load_order(order_text(r@), texts(stems@), stems@.len() as int),
{
    let ghost all = texts(stems@);
    let mut order: Vec<Snapshot> = Vec::new();
    let mut k: usize = 0;
    while k < stems.len()
        invariant
            k <= stems@.len(),
            all == texts(stems@),
            is_load_order(order_text(order@), all, k as int),
        decreases stems@.len() - k,
    {
        let ghost before = order_text(order@);
        let stem = to_lower(stems[k].as_str());
        assert(stem@ == lower(all[k as int]));
        if let Some((year, month)) = parse_snapshot_date(stem.as_str()) {
            let snap = Snapshot { source: k, label: label_of(year, month), year, month };
            let ghost text = snap@;
            assert(dated(all, k as int) == Some(text));
            let mut at: usize = order.len();
            while at > 0 && (order[at - 1].year > year || (order[at - 1].year == year && order[at
                - 1].month > month))
                invariant
                    at <= order@.len(),
                    before == order_text(order@),
                    forall|i: int| at <= i < order@.len() ==> loads_before(text, #[trigger] before[i]),
                    text.year == year,
                    text.month == month,
                decreases at,
            {
                assert(before[at - 1] == order@[at - 1]@);
                at -= 1;
            }
            order.insert(at, snap);
            proof {
                let now = order_text(order@);
                assert(now == before.insert(at as int, text));
                if at > 0 {
                    assert(before[at - 1] == order@[at - 1]@);
                }
                lemma_insert_ordered(before, all, k as int, at as int, text);
            }
        } else {
            assert(dated(all, k as int) is None);
        }
        k += 1;
    }
    order
}

proof fn lemma_insert_ordered(
    before: Seq<DatedText>,
    stems: Seq<Seq<char>>,
    k: int,
    at: int,
    text: DatedText,
)
    requires
        0 <= k,
        is_load_order(before, stems, k),
        dated(stems, k) == Some(text),
        text.source == k,
        0 <= at <= before.len(),
        forall|i: int| at <= i < before.len() ==> loads_before(text, #[trigger] before[i]),
        at > 0 ==> loads_before(before[at - 1], text),
    ensures
        is_load_order(before.insert(at, text), stems, k + 1),
{
    let now = before.insert(at, text);
    lemma_insert_sorted(before, at, text);
    assert forall|i: int| 0 <= i < now.len() implies 0 <= (#[trigger] now[i]).source < k + 1
        && dated(stems, now[i].source) == Some(now[i]) by {
        if i < at {
            assert(now[i] == before[i]);
        } else if i > at {
            assert(now[i] == before[i - 1]);
        }
    }
    assert forall|c: int| 0 <= c < k + 1 && #[trigger] dated(stems, c) is Some implies exists|
        i: int,
    |
        0 <= i < now.len() && (#[trigger] now[i]).source == c by {
        if c == k {
            assert(now[at].source == c);
        } else {
            let i = choose|i: int| 0 <= i < before.len() && (#[trigger] before[i]).source == c;
            if i < at {
                assert(now[i] == before[i]);
            } else {
                assert(now[i + 1] == before[i]);
            }
        }
    }
}

proof fn lemma_insert_sorted(before: Seq<DatedText>, at: int, text: DatedText)
    requires
        is_ordered(before),
        0 <= at <= before.len(),
        forall|i: int| at <= i < before.len() ==> loads_before(text, #[trigger] before[i]),
        at > 0 ==> loads_before(before[at - 1], text),
    ensures
        is_ordered(before.insert(at, text)),
{
    let now = before.insert(at, text);
    assert forall|i: int, j: int| 0 <= i < j < now.len() implies loads_before(
        #[trigger] now[i],
        #[trigger] now[j],
    ) by {
        if i == at {
            assert(now[j] == before[j - 1]);
        } else if j == at {
            assert(now[i] == before[i]);
            if i < at - 1 {
                assert(loads_before(before[i], before[at - 1]));
            }
        } else {
            let ii = if i < at { i } else { i - 1 };
            let jj = if j < at { j } else { j - 1 };
            assert(now[i] == before[ii]);
            assert(now[j] == before[jj]);
            assert(loads_before(before[ii], before[jj]));
        }
    }
}

proof fn lemma_digits_unique(a: Seq<char>, b: Seq<char>)
    requires
        a.len() == b.len(),
        all_digits(a),
        all_digits(b),
        value(a) == value(b),
    ensures
        a == b,
    decreases a.len(),
{
    if a.len() > 0 {
        assert(is_digit(a.last()) && is_digit(b.last()));
        lemma_digits_unique(a.drop_last(), b.drop_last());
        assert(a == a.drop_last().push(a.last()));
        assert(b == b.drop_last().push(b.last()));
    }
}

proof fn lemma_digits_sort_by_value(a: Seq<char>, b: Seq<char>)
    requires
        a.len() == b.len(),
        all_digits(a),
        all_digits(b),
        value(a) < value(b),
    ensures
        exists|i: int| #[trigger] differ_first(a, b, i) && i < a.len() && a[i] < b[i],
    decreases a.len(),
{
    if a.len() > 0 {
        let x = a.drop_last();
        let y = b.drop_last();
        assert(is_digit(a.last()) && is_digit(b.last()));
        if value(x) < value(y) {
            lemma_digits_sort_by_value(x, y);
            let i = choose|i: int| #[trigger] differ_first(x, y, i) && i < x.len() && x[i] < y[i];
            assert(a.take(i) == x.take(i));
            assert(b.take(i) == y.take(i));
            assert(differ_first(a, b, i));
        } else {
            assert(value(x) == value(y));
            lemma_digits_unique(x, y);
            let i = a.len() - 1;
            assert(a.take(i) == x);
            assert(b.take(i) == y);
            assert(differ_first(a, b, i));
        }
    }
}

proof fn lemma_label(year: nat, month: nat)
    requires
        year < 10_000,
        month < 100,
    ensures
        padded(year, 4).len() == 4,
        all_digits(padded(year, 4)),
        value(padded(year, 4)) == year,
        padded(month, 2).len() == 2,
        all_digits(padded(month, 2)),
        value(padded(month, 2)) == month,
        "-"@ == seq!['-'],
        date_label(year as int, month) == padded(year, 4) + seq!['-'] + padded(month, 2),
{
    reveal_with_fuel(ten_to, 5);
    lemma_short_padded(year, 4);
    lemma_short_padded(month, 2);
    lemma_padded(year, 4);
    lemma_padded(month, 2);
    reveal_strlit("-");
    assert("-"@ == seq!['-']);
}

/// The labels of two dates of this calendar sort as text as the dates do.
pub proof fn law_labels_sort_by_date(year: nat, month: nat, later_year: nat, later_month: nat)
    requires
        year < 10_000,
        month < 100,
        later_year < 10_000,
        later_month < 100,
        year < later_year || (year == later_year && month < later_month),
    ensures
        text_before(
            date_label(year as int, month),
            date_label(later_year as int, later_month),
        ),
{
    lemma_label(year, month);
    lemma_label(later_year, later_month);
    let a = date_label(year as int, month);
    let b = date_label(later_year as int, later_month);
    if year < later_year {
        let x = padded(year, 4);
        let y = padded(later_year, 4);
        lemma_digits_sort_by_value(x, y);
        let i = choose|i: int| #[trigger] differ_first(x, y, i) && i < x.len() && x[i] < y[i];
        assert(a.take(i) == x.take(i));
        assert(b.take(i) == y.take(i));
        assert(a[i] == x[i] && b[i] == y[i]);
        assert(differ_first(a, b, i));
    } else {
        let x = padded(month, 2);
        let y = padded(later_month, 2);
        lemma_digits_sort_by_value(x, y);
        let i = choose|i: int| #[trigger] differ_first(x, y, i) && i < x.len() && x[i] < y[i];
        assert(a.take(i + 5) == padded(year, 4) + seq!['-'] + x.take(i));
        assert(b.take(i + 5) == padded(year, 4) + seq!['-'] + y.take(i));
        assert(a[i + 5] == x[i] && b[i + 5] == y[i]);
        assert(differ_first(a, b, i + 5));
    }
}

proof fn lemma_no_rds(stem: Seq<char>)
    requires
        stem.len() > 0,
        is_digit(stem[0]),
    ensures
        !starts_with(stem, "rds-"@),
{
    reveal_strlit("rds-");
    if starts_with(stem, "rds-"@) {
        assert(stem.take(4)[0] == stem[0]);
    }
}

proof fn lemma_list_stem(prefix: Seq<char>)
    ensures
        ({
            let stem = prefix + "-ffl-list"@;
            ends_with(stem, "-ffl-list"@) && stem.take(stem.len() - "-ffl-list"@.len()) == prefix
        }),
{
    let stem = prefix + "-ffl-list"@;
    assert(stem.skip(stem.len() - "-ffl-list"@.len()) == "-ffl-list"@);
    assert(stem.take(stem.len() - "-ffl-list"@.len()) == prefix);
}

proof fn lemma_digits_read(s: Seq<char>, max: nat)
    requires
        s.len() > 0,
        all_digits(s),
        value(s) <= max,
    ensures
        unsigned(s, max) == Some(value(s)),
        signed(s, max) == Some(value(s) as int),
{
    assert(is_digit(s[0]));
}

/// A list that is named by the label of a date is of that date.
pub proof fn law_labelled_list_reads_back(year: nat, month: nat)
    requires
        year < 10_000,
        month < 100,
    ensures
        snapshot_date(date_label(year as int, month) + "-ffl-list"@) == Some((year as int, month)),
{
    lemma_label(year, month);
    let prefix = date_label(year as int, month);
    let y = padded(year, 4);
    let m = padded(month, 2);
    lemma_list_stem(prefix);
    assert(is_digit(y[0]));
    assert((prefix + "-ffl-list"@)[0] == y[0]);
    lemma_no_rds(prefix + "-ffl-list"@);
    assert forall|i: int| 0 <= i < 4 implies prefix[i] != '-' by {
        assert(is_digit(y[i]));
    }
    lemma_first_index_is(prefix, '-', 4);
    assert(prefix.take(4) == y);
    assert(prefix.skip(5) == m);
    lemma_digits_read(y, i32::MAX as nat);
    lemma_digits_read(m, u32::MAX as nat);
}

/// A list that is named by two digits of the month and two of the year is of
/// that month of this century.
pub proof fn law_short_list_name(month: nat, yy: nat)
    requires
        month < 100,
        yy < 100,
    ensures
        snapshot_date(padded(month, 2) + padded(yy, 2) + "-ffl-list"@) == Some(
            (2000 + yy as int, month),
        ),
{
    lemma_label(0, month);
    lemma_label(0, yy);
    let m = padded(month, 2);
    let y = padded(yy, 2);
    let prefix = m + y;
    lemma_list_stem(prefix);
    assert(is_digit(m[0]));
    assert((prefix + "-ffl-list"@)[0] == m[0]);
    lemma_no_rds(prefix + "-ffl-list"@);
    assert forall|i: int| 0 <= i < prefix.len() implies is_digit(#[trigger] prefix[i]) by {
        if i < 2 {
            assert(prefix[i] == m[i]);
        } else {
            assert(prefix[i] == y[i - 2]);
        }
    }
    assert forall|i: int| 0 <= i < 4 implies prefix[i] != '-' by {
        assert(is_digit(prefix[i]));
    }
    lemma_first_index_is(prefix, '-', 4);
    assert(prefix.take(2) == m);
    assert(prefix.skip(2) == y);
}

/// A file that is named `rds-` and a year, whatever follows, is of January of
/// that year.
pub proof fn law_rds_name(year: nat, rest: Seq<char>)
    requires
        year < 10_000,
    ensures
        snapshot_date("rds-"@ + padded(year, 4) + rest) == Some((year as int, 1nat)),
{
    lemma_label(year, 0);
    reveal_strlit("rds-");
    let y = padded(year, 4);
    let stem = "rds-"@ + y + rest;
    assert(stem.take(4) == "rds-"@);
    assert(stem.skip(4).take(4) == y);
    lemma_digits_read(y, i32::MAX as nat);
}

proof fn lemma_value_bound(s: Seq<char>)
    requires
        all_digits(s),
    ensures
        value(s) < ten_to(s.len()),
    decreases s.len(),
{
    if s.len() > 0 {
        assert(is_digit(s.last()));
        lemma_value_bound(s.drop_last());
    }
}

proof fn lemma_short_number(s: Seq<char>, max: nat)
    requires
        s.len() <= 4,
    ensures
        signed(s, max) matches Some(n) ==> -10_000 < n < 10_000,
        s.len() <= 2 ==> (unsigned(s, max) matches Some(n) ==> n < 100),
{
    reveal_with_fuel(ten_to, 5);
    if s.len() > 0 && all_digits(s) {
        lemma_value_bound(s);
    }
    if s.len() > 0 && all_digits(s.skip(1)) {
        lemma_value_bound(s.skip(1));
    }
}

/// A year of a snapshot has at most four digits and a month at most two.
proof fn lemma_date_bounds(stem: Seq<char>)
    ensures
        snapshot_date(stem) matches Some((y, m)) ==> -10_000 < y < 10_000 && m < 100,
{
    if let Some((y, m)) = snapshot_date(stem) {
        if starts_with(stem, "rds-"@) {
            lemma_short_number(stem.skip("rds-"@.len() as int).take(4), i32::MAX as nat);
        } else {
            let prefix = stem.take(stem.len() - "-ffl-list"@.len());
            let dash = first_index(prefix, '-');
            if dash < prefix.len() {
                lemma_short_number(prefix.take(dash), i32::MAX as nat);
                lemma_short_number(prefix.skip(dash + 1), u32::MAX as nat);
            } else {
                lemma_two_digits(prefix.take(2));
                lemma_two_digits(prefix.skip(2));
            }
        }
    }
}

/// Whether the labels, as text, are in the order of the files.
pub open spec fn labels_ascend(order: Seq<DatedText>) -> bool {
    forall|i: int, j: int|
        0 <= i <= j < order.len() ==> !text_before(
            (#[trigger] order[j]).label,
            (#[trigger] order[i]).label,
        )
}

/// Whether at most one year is before the year zero.
pub open spec fn has_one_negative_year(order: Seq<DatedText>) -> bool {
    forall|i: int, j: int|
        0 <= i < order.len() && 0 <= j < order.len() && (#[trigger] order[i]).year < 0 && (
        #[trigger] order[j]).year < 0 ==> order[i].year == order[j].year
}

proof fn lemma_months_sort(year: int, month: nat, later_month: nat)
    requires
        month < later_month < 100,
    ensures
        text_before(date_label(year, month), date_label(year, later_month)),
{
    lemma_label(0, month);
    lemma_label(0, later_month);
    let front = padded_int(year, 4) + "-"@;
    let a = date_label(year, month);
    let b = date_label(year, later_month);
    let x = padded(month, 2);
    let y = padded(later_month, 2);
    let n = front.len() as int;
    lemma_digits_sort_by_value(x, y);
    let i = choose|i: int| #[trigger] differ_first(x, y, i) && i < x.len() && x[i] < y[i];
    assert(a.take(n + i) == front + x.take(i));
    assert(b.take(n + i) == front + y.take(i));
    assert(a[n + i] == x[i] && b[n + i] == y[i]);
    assert(differ_first(a, b, n + i));
}

proof fn lemma_negative_years_sort(year: int, month: nat, later_year: nat, later_month: nat)
    requires
        year < 0,
        later_year < 10_000,
        later_month < 100,
    ensures
        text_before(date_label(year, month), date_label(later_year as int, later_month)),
{
    lemma_label(later_year, later_month);
    let a = date_label(year, month);
    let b = date_label(later_year as int, later_month);
    assert(is_digit(padded(later_year, 4)[0]));
    assert(b[0] == padded(later_year, 4)[0]);
    assert(a[0] == '-');
    assert(a.take(0) == b.take(0));
    assert(differ_first(a, b, 0));
}

/// Files that are loaded in chronological order have labels that ascend as text.
/// The one exception are different years before the year zero, such as those of
/// `rds--002` and `rds--001`.
pub proof fn law_load_order_labels_ascend(order: Seq<DatedText>, stems: Seq<Seq<char>>, n: int)
    requires
        is_load_order(order, stems, n),
        has_one_negative_year(order),
    ensures
        labels_ascend(order),
{
    assert forall|i: int, j: int| 0 <= i <= j < order.len() implies !text_before(
        (#[trigger] order[j]).label,
        (#[trigger] order[i]).label,
    ) by {
        let (a, b) = (order[i], order[j]);
        if i < j {
            assert(loads_before(a, b));
        }
        assert(dated(stems, a.source) == Some(a));
        assert(dated(stems, b.source) == Some(b));
        lemma_date_bounds(lower(stems[a.source]));
        lemma_date_bounds(lower(stems[b.source]));
        law_text_order_is_total(a.label, b.label);
        if a.year == b.year && a.month < b.month {
            lemma_months_sort(a.year as int, a.month as nat, b.month as nat);
        } else if a.year < 0 && b.year >= 0 {
            lemma_negative_years_sort(
                a.year as int,
                a.month as nat,
                b.year as nat,
                b.month as nat,
            );
        } else if a.year < b.year {
            law_labels_sort_by_date(a.year as nat, a.month as nat, b.year as nat, b.month as nat);
        } else {
            assert(a.label == b.label);
        }
    }
}

/// The label of a date is four digits of the year, a hyphen and two of the month.
pub proof fn law_label_is_year_and_month(year: nat, month: nat)
    requires
        year < 10_000,
        month < 100,
    ensures
        ({
            let s = date_label(year as int, month);
            &&& s.len() == 7
            &&& s[4] == '-'
            &&& all_digits(s.take(4)) && value(s.take(4)) == year
            &&& all_digits(s.skip(5)) && value(s.skip(5)) == month
        }),
{
    lemma_label(year, month);
    let s = date_label(year as int, month);
    assert(s.take(4) == padded(year, 4));
    assert(s.skip(5) == padded(month, 2));
}

/// A file whose name tells a date, in any letter case, is a snapshot of that year and
/// month, labelled with them; any other file is none.
pub proof fn law_files_are_dated_by_their_name(stems: Seq<Seq<char>>, k: int)
    ensures
        snapshot_date(lower(stems[k])) is None <==> dated(stems, k) is None,
        snapshot_date(lower(stems[k])) matches Some((year, month)) ==> (dated(stems, k) matches Some(
            d,
        ) && {
            &&& d.source == k
            &&& d.year == year
            &&& d.month == month
            &&& d.label == date_label(year, month)
        }),
{
    lemma_date_bounds(lower(stems[k]));
}

/// Files are loaded by year, then by month, and those of one month in the order in
/// which they are named.
pub proof fn law_files_load_by_date(
    order: Seq<DatedText>,
    stems: Seq<Seq<char>>,
    n: int,
    i: int,
    j: int,
)
    requires
        is_load_order(order, stems, n),
        0 <= i < j < order.len(),
    ensures
        order[i].year <= order[j].year,
        order[i].year == order[j].year ==> order[i].month <= order[j].month,
        order[i].year == order[j].year && order[i].month == order[j].month ==> order[i].source
            < order[j].source,
{
    assert(loads_before(order[i], order[j]));
}

/// Only files that are named `rds-` and a year, or by a date and `-ffl-list`, are
/// snapshots, and only CSV documents and workbooks are taken for lists.
pub proof fn law_only_lists_are_dated(stem: Seq<char>, extension: Option<&str>)
    ensures
        snapshot_date(stem) is Some ==> starts_with(stem, "rds-"@) || ends_with(
            stem,
            "-ffl-list"@,
        ),
        kind_named(extension) is Some <==> (extension matches Some(e) && (e@ == "csv"@ || e@
            == "xlsx"@)),
        kind_named(extension) matches Some(FileKind::Csv) <==> (extension matches Some(e) && e@
            == "csv"@),
{
    reveal_strlit("csv");
    reveal_strlit("xlsx");
    assert("csv"@.len() == 3 && "xlsx"@.len() == 4);
}

/// A list is named by four characters that read as a year, a hyphen and two that read
/// as a month, or by four digits; no other name of a list tells a date.
pub proof fn law_list_names_tell_dates(year: Seq<char>, month: Seq<char>, name: Seq<char>)
    requires
        forall|i: int| 0 <= i < year.len() ==> #[trigger] year[i] != '-',
        forall|i: int| 0 <= i < name.len() ==> #[trigger] name[i] != '-',
        !starts_with(year + seq!['-'] + month + "-ffl-list"@, "rds-"@),
    ensures
        snapshot_date(year + seq!['-'] + month + "-ffl-list"@) == match (
            signed(year, i32::MAX as nat),
            unsigned(month, u32::MAX as nat),
        ) {
            (Some(y), Some(m)) => if year.len() == 4 && month.len() == 2 {
                Some((y, m))
            } else {
                None
            },
            _ => None,
        },
        snapshot_date(name + "-ffl-list"@) is Some <==> name.len() == 4 && all_digits(name),
{
    let prefix = year + seq!['-'] + month;
    let n = year.len() as int;
    lemma_list_stem(prefix);
    lemma_list_stem(name);
    assert(prefix[n] == '-');
    assert forall|i: int| 0 <= i < n implies prefix[i] != '-' by {
        assert(prefix[i] == year[i]);
    }
    lemma_first_index_is(prefix, '-', n);
    assert(prefix.take(n) == year);
    assert(prefix.skip(n + 1) == month);
    lemma_first_index_is(name, '-', name.len() as int);
    let stem = name + "-ffl-list"@;
    reveal_strlit("rds-");
    reveal_strlit("-ffl-list");
    if starts_with(stem, "rds-"@) {
        assert(stem.take(4)[3] == stem[3]);
        if name.len() > 3 {
            assert(stem[3] == name[3]);
        } else if name.len() == 3 {
            assert(stem[3] == '-');
            lemma_rds_list(name);
        } else {
            assert(stem[3] == "-ffl-list"@[3 - name.len()]);
        }
    }
}

proof fn lemma_rds_list(name: Seq<char>)
    requires
        name.len() == 3,
    ensures
        starts_with(name + "-ffl-list"@, "rds-"@) ==> snapshot_date(name + "-ffl-list"@) is None,
{
    reveal_strlit("rds-");
    reveal_strlit("-ffl-list");
    let stem = name + "-ffl-list"@;
    let w = stem.skip(4).take(4);
    assert(w[0] == 'f');
    assert(!is_digit(w[0]));
    assert(signed(w, i32::MAX as nat) is None);
}

} // verus!
