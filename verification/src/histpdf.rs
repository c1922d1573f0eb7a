//! Historic reports: tables per category, one row per licensee in each.
//!
//! Such a report has up to ten sections, of pistols, revolvers, rifles,
//! shotguns and miscellaneous firearms, manufactured and exported. Each section
//! repeats a column header `RDS Key | License Name | Street | City | State |
//! <counts ...>`. Which count columns there are, and in which order, differs
//! from year to year, so they are read from the header of each section. The
//! rows of all sections are joined by RDS key.

use crate::columns::{canonical_index, count_column};
use crate::ffl::{effective, FflStore, FflVersion, VersionText, Versions};
use crate::joined::{
    entry_rows, keys_distinct, law_join_keeps_one_entry_per_key, no_counts, rows_of, with_entry,
    Entries, Joined, Rec, RecText,
};
use crate::number::parse_i64;
use crate::pdf::{
    copy_range, count_value, house_number_split, house_number_split_of, is_state, is_state_word,
    lemma_house_number_split, matched_count, row_texts, version_text, AfmerRow,
};
use crate::text::{
    all_digits, all_words, is_all_digits, law_words_of_phrase, lines, lines_of, norm_text, normalize, phrase, phrase_range, same, texts,
    to_upper, trim, trimmed, upper, words, words_of,
};
use vstd::prelude::*;
use vstd::utf8::{encode_utf8, is_char_boundary};

verus! {

/// What became of a historic report.
pub struct Stats {
    /// Licenses.
    pub rows: usize,
    /// Column headers with at least one count column.
    pub sections: usize,
    /// Licenses of which a version is known.
    pub ffl_matched: usize,
    /// Lines whose name and city were not resolved against the license dimension.
    pub unsplit: usize,
}

/// Rows, or why a report gives none.
pub enum Outcome {
    Parsed(Vec<AfmerRow>, Stats),
    Unusable(String),
}

/// The position from `from` on of the word `State`, in any letter case, or the
/// number of words where there is none.
pub open spec fn state_position(ws: Seq<Seq<char>>, from: int) -> int
    decreases ws.len() - from,
{
    if from >= ws.len() || upper(ws[from]) == "STATE"@ {
        from
    } else {
        state_position(ws, from + 1)
    }
}

/// The columns that the words name two by two.
pub open spec fn pair_columns(ws: Seq<Seq<char>>, from: int) -> Seq<int>
    decreases ws.len() - from,
{
    if from + 1 >= ws.len() {
        Seq::empty()
    } else {
        let rest = pair_columns(ws, from + 2);
        match count_column(phrase(ws.subrange(from, from + 2))) {
            Some(c) => seq![c] + rest,
            None => rest,
        }
    }
}

/// The count columns that a column header names behind its state column, in
/// order: one per two words in a section of pistols or revolvers, which counts
/// by caliber, else one for all words together.
pub open spec fn header_columns(line: Seq<char>) -> Seq<int> {
    let ws = words(line);
    let at = state_position(ws, 0);
    if at + 1 >= ws.len() {
        Seq::empty()
    } else {
        let first = upper(ws[at + 1]);
        if first == "PISTOL"@ || first == "REVOLVER"@ {
            pair_columns(ws, at + 1)
        } else {
            match count_column(phrase(ws.skip(at + 1))) {
                Some(c) => seq![c],
                None => Seq::empty(),
            }
        }
    }
}

/// Whether a line, without the white space at its ends, is a column header.
pub open spec fn is_column_header(t: Seq<char>) -> bool {
    t.len() >= 7 && upper(t.take(7)) == "RDS KEY"@
}

/// Whether the first seven bytes of a line can be told apart: it is shorter, or
/// a character ends there.
pub open spec fn can_be_compared(t: Seq<char>) -> bool {
    let bytes = encode_utf8(t);
    bytes.len() < 7 || is_char_boundary(bytes, 7)
}

/// Whether every line of a report can be held against the start of a column
/// header.
pub open spec fn is_comparable(text: Seq<char>) -> bool {
    forall|i: int|
        0 <= i < lines(text).len() ==> can_be_compared(trimmed(#[trigger] lines(text)[i]))
}

/// How many leading words from `k` on read as `want`.
pub open spec fn name_end(ws: Seq<Seq<char>>, want: Seq<char>, k: int) -> Option<int>
    decreases ws.len() + 1 - k,
{
    if k > ws.len() {
        None
    } else if norm_text(phrase(ws.take(k))) == want {
        Some(k)
    } else {
        name_end(ws, want, k + 1)
    }
}

/// The position from `j` on from which the words to the end read as `want`.
pub open spec fn city_start(ws: Seq<Seq<char>>, want: Seq<char>, j: int) -> Option<int>
    decreases ws.len() - j,
{
    if j >= ws.len() {
        None
    } else if norm_text(phrase(ws.skip(j))) == want {
        Some(j)
    } else {
        city_start(ws, want, j + 1)
    }
}

/// Where the name ends and the city begins, and whether that was resolved
/// against the license dimension.
pub struct Cut {
    pub name: int,
    pub city: int,
    pub resolved: bool,
}

/// How the words between the key and the state fall into name, street and city.
/// The name is the leading words that read as the license name, the city the
/// trailing words that read as the premise city. Without the name, the house
/// number parts name and street; without the city, the street runs to the end.
pub open spec fn field_cut(ws: Seq<Seq<char>>, version: Option<VersionText>) -> Cut {
    let n = ws.len() as int;
    match version {
        Some(v) => {
            let want_city = norm_text(v.record.premise_city);
            let name = name_end(ws, norm_text(v.record.license_name), 1);
            let city = if want_city.len() == 0 {
                None
            } else {
                city_start(ws, want_city, 0)
            };
            match (name, city) {
                (Some(k), Some(j)) if k <= j => Cut { name: k, city: j, resolved: true },
                (Some(k), _) => Cut { name: k, city: n, resolved: true },
                (None, Some(j)) => Cut {
                    name: house_number_split(ws.take(j)),
                    city: j,
                    resolved: true,
                },
                _ => Cut { name: house_number_split(ws), city: n, resolved: false },
            }
        },
        None => Cut { name: house_number_split(ws), city: n, resolved: false },
    }
}

/// A text without its commas.
pub open spec fn ungrouped(s: Seq<char>) -> Seq<char>
    decreases s.len(),
{
    if s.len() == 0 {
        s
    } else if s.last() == ',' {
        ungrouped(s.drop_last())
    } else {
        ungrouped(s.drop_last()).push(s.last())
    }
}

/// A key as the historic reports print it: six to nine digits.
pub open spec fn is_section_key(w: Seq<char>) -> bool {
    6 <= w.len() <= 9 && all_digits(w)
}

/// A count, possibly with commas between groups of digits.
pub open spec fn grouped_count(w: Seq<char>) -> Option<int> {
    count_value(ungrouped(w))
}

/// Whether the words make up a row of a section with `n` count columns: a key,
/// at least one word, the state and the counts.
pub open spec fn is_section_row(ws: Seq<Seq<char>>, n: int) -> bool {
    &&& ws.len() >= n + 3
    &&& is_section_key(ws[0])
    &&& is_state(ws[ws.len() - n - 1])
    &&& forall|i: int| 0 <= i < n ==> grouped_count(#[trigger] ws[ws.len() - n + i]) is Some
}

/// The counts by column, of the words at the end of a row in the order of the
/// columns of its section.
pub open spec fn placed_counts(ws: Seq<Seq<char>>, cols: Seq<int>, k: int) -> Seq<i64>
    decreases k,
{
    if k <= 0 {
        no_counts()
    } else {
        placed_counts(ws, cols, k - 1).update(
            cols[k - 1],
            grouped_count(ws[ws.len() - cols.len() + k - 1])->0 as i64,
        )
    }
}

/// The record that a row of a section gives for its license.
pub open spec fn section_rec(
    ws: Seq<Seq<char>>,
    cols: Seq<int>,
    version: Option<VersionText>,
) -> RecText {
    let n = cols.len() as int;
    let blob = ws.subrange(1, ws.len() - n - 1);
    let cut = field_cut(blob, version);
    RecText {
        lic_type: Seq::empty(),
        name: phrase(blob.take(cut.name)),
        street: phrase(blob.subrange(cut.name, cut.city)),
        city: phrase(blob.skip(cut.city)),
        state: ws[ws.len() - n - 1],
        counts: placed_counts(ws, cols, n),
        resolved: cut.resolved,
    }
}

/// What was read of a report so far.
pub struct Scan {
    /// The count columns of the current section.
    pub cols: Seq<int>,
    pub entries: Entries,
    pub sections: nat,
    pub unsplit: nat,
}

pub open spec fn scan_start() -> Scan {
    Scan { cols: Seq::empty(), entries: Seq::empty(), sections: 0, unsplit: 0 }
}

/// What was read after a further line: a column header that names count columns
/// begins a section; a row of the current section is joined; any other line
/// changes nothing.
pub open spec fn scan_line(scan: Scan, line: Seq<char>, year: int, versions: Versions) -> Scan {
    let t = trimmed(line);
    let ws = words(t);
    if is_column_header(t) {
        let cols = header_columns(t);
        if cols.len() > 0 {
            Scan { cols, sections: scan.sections + 1, ..scan }
        } else {
            scan
        }
    } else if scan.cols.len() > 0 && is_section_row(ws, scan.cols.len() as int) {
        let rec = section_rec(ws, scan.cols, effective(versions, ws[0], year));
        Scan {
            entries: with_entry(scan.entries, ws[0], rec),
            unsplit: if rec.resolved {
                scan.unsplit
            } else {
                scan.unsplit + 1
            },
            ..scan
        }
    } else {
        scan
    }
}

/// What was read of the lines, in order.
pub open spec fn scan_lines(ls: Seq<Seq<char>>, year: int, versions: Versions) -> Scan
    decreases ls.len(),
{
    if ls.len() == 0 {
        scan_start()
    } else {
        scan_line(scan_lines(ls.drop_last(), year, versions), ls.last(), year, versions)
    }
}

/// What a row of column numbers holds.
pub open spec fn col_numbers(cols: Seq<usize>) -> Seq<int> {
    Seq::new(cols.len(), |i: int| cols[i] as int)
}

pub open spec fn in_range(cols: Seq<int>) -> bool {
    forall|i: int| 0 <= i < cols.len() ==> 0 <= #[trigger] cols[i] < 22
}

/// Reads the count columns, in order, from a column header.
pub fn parse_count_columns(line: &str) -> (r: Vec<usize>)
    ensures
        col_numbers(r@) == header_columns(line@),
        in_range(col_numbers(r@)),
{
    let toks = words_of(line);
    let n: usize = toks.len();
    let ghost ws = words(line@);
    let mut at: usize = 0;
    while at < n && !same(to_upper(toks[at].as_str()).as_str(), "STATE")
        invariant
            at <= n,
            n == toks@.len(),
            ws == texts(toks@),
            state_position(ws, 0) == state_position(ws, at as int),
        decreases n - at,
    {
        at += 1;
    }
    let mut cols: Vec<usize> = Vec::new();
    assert(col_numbers(cols@) == Seq::<int>::empty());
    if at >= n || n - at < 2 {
        return cols;
    }
    let start: usize = at + 1;
    let first = to_upper(toks[start].as_str());
    if same(first.as_str(), "PISTOL") || same(
        first.as_str(),
        "REVOLVER",
    ) {
        let mut i: usize = start;
        while i < n && n - i >= 2
            invariant
                start <= i <= n,
                n == toks@.len(),
                ws == texts(toks@),
                in_range(col_numbers(cols@)),
                pair_columns(ws, start as int) == col_numbers(cols@) + pair_columns(ws, i as int),
            decreases n - i,
        {
            let name = phrase_range(&toks, i, i + 2);
            let ghost done = col_numbers(cols@);
            if let Some(c) = canonical_index(name.as_str()) {
                cols.push(c);
                assert(col_numbers(cols@) == done.push(c as int));
                assert(done.push(c as int) + pair_columns(ws, i + 2) == done + (seq![c as int]
                    + pair_columns(ws, i + 2)));
            }
            i += 2;
        }
        assert(col_numbers(cols@) + Seq::<int>::empty() == col_numbers(cols@));
    } else {
        let name = phrase_range(&toks, start, n);
        assert(ws.subrange(start as int, n as int) == ws.skip(start as int));
        if let Some(c) = canonical_index(name.as_str()) {
            cols.push(c);
            assert(col_numbers(cols@) == seq![c as int]);
        }
    }
    cols
}

fn find_name_end(ws: &Vec<String>, want: &String) -> (r: Option<usize>)
    ensures
        match r {
            Some(k) => k <= ws@.len() && name_end(texts(ws@), want@, 1) == Some(k as int),
            None => name_end(texts(ws@), want@, 1) is None,
        },
{
    let ghost all = texts(ws@);
    let n: usize = ws.len();
    if n == 0 {
        return None;
    }
    let mut k: usize = 1;
    loop
        invariant
            all == texts(ws@),
            n == ws@.len(),
            1 <= k <= n,
            name_end(all, want@, 1) == name_end(all, want@, k as int),
        decreases n - k,
    {
        assert(all.subrange(0, k as int) == all.take(k as int));
        if normalize(phrase_range(ws, 0, k).as_str()) == *want {
            return Some(k);
        }
        if k == n {
            assert(name_end(all, want@, n + 1) is None);
            return None;
        }
        k += 1;
    }
}

fn find_city_start(ws: &Vec<String>, want: &String) -> (r: Option<usize>)
    ensures
        match r {
            Some(j) => j < ws@.len() && city_start(texts(ws@), want@, 0) == Some(j as int),
            None => city_start(texts(ws@), want@, 0) is None,
        },
{
    let ghost all = texts(ws@);
    let n: usize = ws.len();
    let mut j: usize = 0;
    while j < n
        invariant
            all == texts(ws@),
            n == ws@.len(),
            city_start(all, want@, 0) == city_start(all, want@, j as int),
        decreases n - j,
    {
        assert(all.subrange(j as int, n as int) == all.skip(j as int));
        if normalize(phrase_range(ws, j, n).as_str()) == *want {
            return Some(j);
        }
        j += 1;
    }
    None
}

/// Splits the words between the key and the state into name, street and city;
/// the last part of the result says whether the license dimension resolved it.
pub fn split_fields(ws: &Vec<String>, version: Option<&FflVersion>) -> (r: (
    String,
    String,
    String,
    bool,
))
    ensures
        ({
            let all = texts(ws@);
            let cut = field_cut(all, version_text(version));
            &&& 0 <= cut.name <= cut.city <= all.len()
            &&& r.0@ == phrase(all.take(cut.name))
            &&& r.1@ == phrase(all.subrange(cut.name, cut.city))
            &&& r.2@ == phrase(all.skip(cut.city))
            &&& r.3 == cut.resolved
        }),
{
    let n: usize = ws.len();
    let ghost all = texts(ws@);
    let mut name: usize = house_number_split_of(ws);
    let mut city: usize = n;
    let mut resolved: bool = false;
    if let Some(v) = version {
        let want_name = normalize(v.record.license_name.as_str());
        let want_city = normalize(v.record.premise_city.as_str());
        let name_k = find_name_end(ws, &want_name);
        let city_j = if want_city.as_str().is_empty() {
            None
        } else {
            find_city_start(ws, &want_city)
        };
        match name_k {
            Some(k) => {
                name = k;
                resolved = true;
                if let Some(j) = city_j {
                    if k <= j {
                        city = j;
                    }
                }
            },
            None => {
                if let Some(j) = city_j {
                    let front = copy_range(ws, 0, j);
                    assert(all.subrange(0, j as int) == all.take(j as int));
                    name = house_number_split_of(&front);
                    city = j;
                    resolved = true;
                }
            },
        }
    }
    assert(all.subrange(0, name as int) == all.take(name as int));
    assert(all.subrange(city as int, n as int) == all.skip(city as int));
    (phrase_range(ws, 0, name), phrase_range(ws, name, city), phrase_range(ws, city, n), resolved)
}

/// The text without its commas.
pub fn ungroup(s: &str) -> (r: String)
    ensures
        r@ == ungrouped(s@),
{
    let mut out = String::new();
    for c in it: s.chars()
        invariant
            it.seq() == s@,
            out@ == ungrouped(s@.take(it.index() as int)),
    {
        let ghost now = s@.take(it.index() + 1);
        assert(now.drop_last() == s@.take(it.index() as int));
        assert(now.last() == c);
        if c != ',' {
            out.push(c);
        }
    }
    assert(s@.take(s@.len() as int) == s@);
    out
}

fn is_header_line(t: &str) -> (r: bool)
    ensures
        r == is_column_header(t@),
{
    if t.unicode_len() < 7 {
        return false;
    }
    let head = t.substring_char(0, 7);
    assert(t@.subrange(0, 7) == t@.take(7));
    same(to_upper(head).as_str(), "RDS KEY")
}

/// Whether every line of the text can be held against the start of a column
/// header: its seventh byte ends a character.
pub fn lines_are_comparable(text: &str) -> (r: bool)
    ensures
        r == is_comparable(text@),
{
    let ls = lines_of(text);
    let mut i: usize = 0;
    while i < ls.len()
        invariant
            texts(ls@) == lines(text@),
            i <= ls@.len(),
            forall|j: int|
                0 <= j < i ==> can_be_compared(trimmed(#[trigger] lines(text@)[j])),
        decreases ls@.len() - i,
    {
        let t = trim(ls[i].as_str());
        assert(lines(text@)[i as int] == ls@[i as int]@);
        if t.as_str().as_bytes().len() >= 7 && !t.as_str().is_char_boundary(7) {
            return false;
        }
        i += 1;
    }
    true
}

/// Reads a row of a section: the key of the license and what the row says of
/// it.
fn read_row(t: &str, cols: &Vec<usize>, year: i32, ffl: &FflStore) -> (r: Option<(String, Rec)>)
    requires
        cols@.len() > 0,
        in_range(col_numbers(cols@)),
    ensures
        match r {
            Some((key, rec)) => {
                let ws = words(t@);
                let nums = col_numbers(cols@);
                &&& is_section_row(ws, nums.len() as int)
                &&& key@ == ws[0]
                &&& rec@ == section_rec(ws, nums, effective(ffl@.versions, ws[0], year as int))
            },
            None => !is_section_row(words(t@), cols@.len() as int),
        },
{
    let toks = words_of(t);
    let ghost ws = words(t@);
    let ghost nums = col_numbers(cols@);
    let n: usize = cols.len();
    let m: usize = toks.len();
    if m < 3 || m - 3 < n {
        return None;
    }
    let state_idx: usize = m - n - 1;
    assert(ws[0] == toks@[0]@);
    assert(ws[m - n - 1] == toks@[m - n - 1]@);
    let key = toks[0].as_str();
    if key.unicode_len() < 6 || key.unicode_len() > 9 || !is_all_digits(key) || !is_state_word(
        toks[state_idx].as_str(),
    ) {
        return None;
    }
    let mut counts = [0i64;22];
    assert(counts@ =~= no_counts());
    let mut i: usize = 0;
    while i < n
        invariant
            i <= n,
            n == cols@.len(),
            n == nums.len(),
            m == toks@.len(),
            n + 3 <= m,
            state_idx == m - n - 1,
            ws == texts(toks@),
            ws == words(t@),
            nums == col_numbers(cols@),
            in_range(nums),
            counts@ == placed_counts(ws, nums, i as int),
            forall|j: int| 0 <= j < i ==> grouped_count(#[trigger] ws[m - n + j]) is Some,
        decreases n - i,
    {
        assert(ws[m - n + i] == toks@[m - n + i]@);
        assert(0 <= nums[i as int] < 22);
        let digits = ungroup(toks[state_idx + 1 + i].as_str());
        match parse_i64(digits.as_str()) {
            Some(v) => {
                counts[cols[i]] = v;
            },
            None => {
                assert(grouped_count(ws[ws.len() - n + i]) is None);
                return None;
            },
        }
        i += 1;
        assert(counts@ =~= placed_counts(ws, nums, i as int));
    }
    let blob = copy_range(&toks, 1, state_idx);
    let version = ffl.version_for_year(key, year);
    let (name, street, city, resolved) = split_fields(&blob, version);
    let rec = Rec {
        lic_type: String::new(),
        name,
        street,
        city,
        state: toks[state_idx].clone(),
        counts,
        resolved,
    };
    Some((toks[0].clone(), rec))
}

/// Reads the text of a historic report for its year.
pub fn parse(text: &str, year: i32, ffl: &FflStore) -> (r: Outcome)
    requires
        is_comparable(text@),
    ensures
        ({
            let scan = scan_lines(lines(text@), year as int, ffl@.versions);
            let expected = entry_rows(scan.entries, false, year as int, ffl@.versions);
            match r {
                Outcome::Parsed(rows, stats) => {
                    &&& scan.sections > 0
                    &&& row_texts(rows@) == expected
                    &&& stats.rows == expected.len()
                    &&& stats.sections == scan.sections
                    &&& stats.ffl_matched == matched_count(expected)
                    &&& stats.unsplit == scan.unsplit
                },
                Outcome::Unusable(why) => {
                    &&& scan.sections == 0
                    &&& why@
                        == "no per-manufacturer 'RDS Key' sections found (aggregate-only report?)"@
                },
            }
        }),
{
    let ls = lines_of(text);
    let ghost all = lines(text@);
    let total: usize = ls.len();
    let mut joined = Joined::new();
    let mut cols: Vec<usize> = Vec::new();
    let mut sections: usize = 0;
    let mut unsplit: usize = 0;
    let mut i: usize = 0;
    assert(col_numbers(cols@) == Seq::<int>::empty());
    while i < total
        invariant
            i <= total,
            total == ls@.len(),
            all == texts(ls@),
            joined.wf(),
            sections <= i,
            unsplit <= i,
            in_range(col_numbers(cols@)),
            ({
                let scan = scan_lines(all.take(i as int), year as int, ffl@.versions);
                &&& scan.cols == col_numbers(cols@)
                &&& scan.entries == joined@
                &&& scan.sections == sections
                &&& scan.unsplit == unsplit
            }),
        decreases total - i,
    {
        let ghost now = all.take(i + 1);
        assert(now.drop_last() == all.take(i as int));
        assert(now.last() == ls@[i as int]@);
        let t = trim(ls[i].as_str());
        if is_header_line(t.as_str()) {
            let new_cols = parse_count_columns(t.as_str());
            if new_cols.len() > 0 {
                cols = new_cols;
                sections += 1;
            }
        } else if cols.len() > 0 {
            if let Some((key, rec)) = read_row(t.as_str(), &cols, year, ffl) {
                if !rec.resolved {
                    unsplit += 1;
                }
                joined.add(key.as_str(), rec);
            }
        }
        i += 1;
    }
    assert(all.take(i as int) == all);
    if sections == 0 {
        return Outcome::Unusable(
            "no per-manufacturer 'RDS Key' sections found (aggregate-only report?)".to_owned(),
        );
    }
    let entries = joined.into_entries();
    let (rows, ffl_matched) = rows_of(entries, false, year, ffl);
    let n: usize = rows.len();
    Outcome::Parsed(rows, Stats { rows: n, sections, ffl_matched, unsplit })
}

proof fn lemma_name_end(ws: Seq<Seq<char>>, want: Seq<char>, k: int)
    ensures
        name_end(ws, want, k) matches Some(i) ==> k <= i <= ws.len(),
    decreases ws.len() + 1 - k,
{
    if k <= ws.len() && norm_text(phrase(ws.take(k))) != want {
        lemma_name_end(ws, want, k + 1);
    }
}

proof fn lemma_city_start(ws: Seq<Seq<char>>, want: Seq<char>, j: int)
    ensures
        city_start(ws, want, j) matches Some(i) ==> j <= i < ws.len(),
    decreases ws.len() - j,
{
    if j < ws.len() && norm_text(phrase(ws.skip(j))) != want {
        lemma_city_start(ws, want, j + 1);
    }
}

/// Splitting keeps every word: the words of the name, the street and the city,
/// in this order, are the words that were split.
pub proof fn law_cut_keeps_words(ws: Seq<Seq<char>>, version: Option<VersionText>)
    requires
        all_words(ws),
    ensures
        ({
            let cut = field_cut(ws, version);
            &&& 0 <= cut.name <= cut.city <= ws.len()
            &&& words(phrase(ws.take(cut.name))) + words(phrase(ws.subrange(cut.name, cut.city)))
                + words(phrase(ws.skip(cut.city))) == ws
        }),
{
    let cut = field_cut(ws, version);
    lemma_house_number_split(ws);
    if let Some(v) = version {
        lemma_name_end(ws, norm_text(v.record.license_name), 1);
        lemma_city_start(ws, norm_text(v.record.premise_city), 0);
        if let Some(j) = city_start(ws, norm_text(v.record.premise_city), 0) {
            lemma_house_number_split(ws.take(j));
        }
    }
    let a = ws.take(cut.name);
    let b = ws.subrange(cut.name, cut.city);
    let c = ws.skip(cut.city);
    assert(all_words(a) && all_words(b) && all_words(c));
    law_words_of_phrase(a);
    law_words_of_phrase(b);
    law_words_of_phrase(c);
    assert(a + b + c == ws);
}

/// A report gives each license one row.
pub proof fn law_one_row_per_license(ls: Seq<Seq<char>>, year: int, versions: Versions)
    ensures
        keys_distinct(scan_lines(ls, year, versions).entries),
    decreases ls.len(),
{
    if ls.len() > 0 {
        law_one_row_per_license(ls.drop_last(), year, versions);
        let scan = scan_lines(ls.drop_last(), year, versions);
        let ws = words(trimmed(ls.last()));
        law_join_keeps_one_entry_per_key(
            scan.entries,
            ws[0],
            section_rec(ws, scan.cols, effective(versions, ws[0], year)),
        );
    }
}

/// Each of the first `k` counts stands in its column, and zero in all others.
pub proof fn lemma_placed(ws: Seq<Seq<char>>, cols: Seq<int>, k: int)
    requires
        in_range(cols),
        cols.no_duplicates(),
        0 <= k <= cols.len(),
    ensures
        placed_counts(ws, cols, k).len() == 22,
        forall|i: int|
            0 <= i < k ==> placed_counts(ws, cols, k)[#[trigger] cols[i]] == grouped_count(
                ws[ws.len() - cols.len() + i],
            )->0 as i64,
        forall|c: int|
            0 <= c < 22 && (forall|i: int| 0 <= i < k ==> #[trigger] cols[i] != c)
                ==> #[trigger] placed_counts(ws, cols, k)[c] == 0,
    decreases k,
{
    if k > 0 {
        lemma_placed(ws, cols, k - 1);
        let before = placed_counts(ws, cols, k - 1);
        let now = placed_counts(ws, cols, k);
        assert(0 <= cols[k - 1] < 22);
        assert forall|i: int| 0 <= i < k implies now[#[trigger] cols[i]] == grouped_count(
            ws[ws.len() - cols.len() + i],
        )->0 as i64 by {
            if i < k - 1 {
                assert(cols[i] != cols[k - 1]);
                assert(0 <= cols[i] < 22);
            }
        }
        assert forall|c: int|
            0 <= c < 22 && (forall|i: int| 0 <= i < k ==> #[trigger] cols[i] != c) implies
            #[trigger] now[c] == 0 by {
            assert(cols[k - 1] != c);
            assert(forall|i: int| 0 <= i < k - 1 ==> #[trigger] cols[i] != c);
            assert(before[c] == 0);
        }
    }
}

/// Each count goes to the column that the header of its section names at its
/// place, whatever the order of the columns; the other columns stay zero.
pub proof fn law_counts_follow_the_header(ws: Seq<Seq<char>>, cols: Seq<int>)
    requires
        in_range(cols),
        cols.no_duplicates(),
    ensures
        forall|i: int|
            0 <= i < cols.len() ==> placed_counts(ws, cols, cols.len() as int)[#[trigger] cols[i]]
                == grouped_count(ws[ws.len() - cols.len() + i])->0 as i64,
        forall|c: int|
            0 <= c < 22 && !cols.contains(c) ==> #[trigger] placed_counts(
                ws,
                cols,
                cols.len() as int,
            )[c] == 0,
{
    lemma_placed(ws, cols, cols.len() as int);
    assert forall|c: int| 0 <= c < 22 && !cols.contains(c) implies #[trigger] placed_counts(
        ws,
        cols,
        cols.len() as int,
    )[c] == 0 by {
        assert(forall|i: int| 0 <= i < cols.len() ==> #[trigger] cols[i] != c);
    }
}

} // verus!
