//! Current reports: one row per data line of the extracted text.
//!
//! A data line is laid out as
//!
//! ```text
//! RDS_KEY  LIC_TYPE  <license name ...>  <premise street ...>  STATE  c1 c2 ... c22
//! ```
//!
//! The last 22 words are counts and the word before them is the state, so a
//! line is read from its right edge. Only the boundary between the name and
//! the street is open: it is resolved against the version of the license that
//! is effective for the year of the report, and where that does not help at
//! the first word that begins with a digit, the house number.

use crate::columns::{count_col, COUNT_COLS, LEAD_COLS};
use crate::ffl::{effective, FflStore, FflVersion, VersionText, Versions};
use crate::number::{
    decimal, decimal_int, law_decimal_reads_back, lemma_decimal_digits, parse_i64, signed,
};
use crate::text::{
    all_digits, all_letters, all_words, contains, has_part, is_all_digits, is_all_letters, is_digit,
    is_digit_char, is_space, is_word, law_words_of_phrase, lemma_words_of_norm, lines, lines_of, norm_text, normalize, phrase, phrase_range, push_text, texts, to_upper,
    trim, trimmed, upper, upper_words, words, words_of,
};
use vstd::prelude::*;

verus! {

/// Where the name and the address of a row come from.
#[derive(Clone, Copy, PartialEq, Eq, Structural, Debug)]
pub enum NameSource {
    /// The leading words are the license name.
    FflPrefix,
    /// The trailing words are the premise street.
    FflSuffix,
    /// The first house number parts the two.
    Heuristic,
    /// A workbook holds them in columns of their own.
    Xlsx,
}

pub open spec fn source_label(source: NameSource) -> Seq<char> {
    match source {
        NameSource::FflPrefix => "ffl-prefix"@,
        NameSource::FflSuffix => "ffl-suffix"@,
        NameSource::Heuristic => "heuristic"@,
        NameSource::Xlsx => "xlsx"@,
    }
}

impl NameSource {
    /// The label under which the source is stored.
    pub fn as_str(self) -> (r: &'static str)
        ensures
            r@ == source_label(self),
    {
        match self {
            NameSource::FflPrefix => "ffl-prefix",
            NameSource::FflSuffix => "ffl-suffix",
            NameSource::Heuristic => "heuristic",
            NameSource::Xlsx => "xlsx",
        }
    }
}

/// One row of a report.
pub struct AfmerRow {
    pub rds_key: String,
    pub app_lic_type: String,
    pub app_license_name: String,
    /// Filled where the source has a column of its own for the street.
    pub app_premise_street: String,
    /// Holds the street in rows of current reports.
    pub app_premise_city: String,
    pub app_premise_state: String,
    pub counts: [i64; 22],
    /// The first snapshot of the license version that the row was enriched with.
    pub ffl_version_first_seen: Option<String>,
    pub name_source: NameSource,
}

/// What a row holds.
pub struct RowText {
    pub rds_key: Seq<char>,
    pub app_lic_type: Seq<char>,
    pub app_license_name: Seq<char>,
    pub app_premise_street: Seq<char>,
    pub app_premise_city: Seq<char>,
    pub app_premise_state: Seq<char>,
    pub counts: Seq<i64>,
    pub ffl_version_first_seen: Option<Seq<char>>,
    pub name_source: NameSource,
}

pub open spec fn opt_text(s: Option<String>) -> Option<Seq<char>> {
    match s {
        Some(t) => Some(t@),
        None => None,
    }
}

impl View for AfmerRow {
    type V = RowText;

    open spec fn view(&self) -> RowText {
        RowText {
            rds_key: self.rds_key@,
            app_lic_type: self.app_lic_type@,
            app_license_name: self.app_license_name@,
            app_premise_street: self.app_premise_street@,
            app_premise_city: self.app_premise_city@,
            app_premise_state: self.app_premise_state@,
            counts: self.counts@,
            ffl_version_first_seen: opt_text(self.ffl_version_first_seen),
            name_source: self.name_source,
        }
    }
}

/// What the rows of a report hold.
pub open spec fn row_texts(rows: Seq<AfmerRow>) -> Seq<RowText> {
    Seq::new(rows.len(), |i: int| rows[i]@)
}

/// What became of the lines of a report.
pub struct ParseStats {
    /// Lines that gave a row.
    pub parsed: usize,
    /// Lines that begin like data but gave no row.
    pub skipped: usize,
    /// Rows for whose license a version is known.
    pub ffl_matched: usize,
}

/// Rows, or the header of a report in another format.
pub enum Outcome {
    Parsed(Vec<AfmerRow>, ParseStats),
    FormatMismatch { found: Option<String> },
}

/// The words of the header line of the current format.
pub open spec fn current_header() -> Seq<Seq<char>> {
    Seq::new(
        27,
        |i: int|
            if i < 5 {
                LEAD_COLS@[i]@
            } else {
                upper(count_col(i - 5))
            },
    )
}

/// The first of the lines that names the key column.
pub open spec fn header_line(ls: Seq<Seq<char>>) -> Option<Seq<char>>
    decreases ls.len(),
{
    if ls.len() == 0 {
        None
    } else if has_part(ls[0], "APP_RDS_KEY"@) {
        Some(ls[0])
    } else {
        header_line(ls.skip(1))
    }
}

/// Whether a report is in the current format.
pub open spec fn is_current(text: Seq<char>) -> bool {
    match header_line(lines(text)) {
        Some(h) => words(h) == current_header(),
        None => false,
    }
}

pub open spec fn starts_with_digit(w: Seq<char>) -> bool {
    w.len() > 0 && is_digit(w[0])
}

/// The position of the first word from `from` on that begins with a digit.
pub open spec fn first_number(ws: Seq<Seq<char>>, from: int) -> int
    decreases ws.len() - from,
{
    if from >= ws.len() || starts_with_digit(ws[from]) {
        from
    } else {
        first_number(ws, from + 1)
    }
}

/// How many leading words are the name where only the house number tells: the
/// street begins at the first word that begins with a digit.
pub open spec fn house_number_split(ws: Seq<Seq<char>>) -> int {
    first_number(ws, 0)
}

/// The first count from `k` on, below the number of words, of leading words
/// that read as `want`.
pub open spec fn prefix_split(ws: Seq<Seq<char>>, want: Seq<char>, k: int) -> Option<int>
    decreases ws.len() - k,
{
    if k >= ws.len() {
        None
    } else if norm_text(phrase(ws.take(k))) == want {
        Some(k)
    } else {
        prefix_split(ws, want, k + 1)
    }
}

/// The first position from `k` on from which the words to the end read as
/// `want`.
pub open spec fn suffix_split(ws: Seq<Seq<char>>, want: Seq<char>, k: int) -> Option<int>
    decreases ws.len() - k,
{
    if k >= ws.len() {
        None
    } else if norm_text(phrase(ws.skip(k))) == want {
        Some(k)
    } else {
        suffix_split(ws, want, k + 1)
    }
}

/// How many leading words are the license name, and how that was found: where
/// the leading words read as the name of the license, else where the trailing
/// words read as its street, else at the house number.
pub open spec fn name_street_split(
    ws: Seq<Seq<char>>,
    version: Option<VersionText>,
) -> (int, NameSource) {
    match version {
        Some(v) => match prefix_split(ws, norm_text(v.record.license_name), 1) {
            Some(k) => (k, NameSource::FflPrefix),
            None => {
                let street = norm_text(v.record.premise_street);
                match suffix_split(ws, street, 1) {
                    Some(k) if street.len() > 0 => (k, NameSource::FflSuffix),
                    _ => (house_number_split(ws), NameSource::Heuristic),
                }
            },
        },
        None => (house_number_split(ws), NameSource::Heuristic),
    }
}

/// A key as the reports print it: at least six digits.
pub open spec fn is_key(w: Seq<char>) -> bool {
    w.len() >= 6 && all_digits(w)
}

pub open spec fn is_two_digits(w: Seq<char>) -> bool {
    w.len() == 2 && all_digits(w)
}

pub open spec fn is_state(w: Seq<char>) -> bool {
    w.len() == 2 && all_letters(w)
}

/// A count as the reports print it.
pub open spec fn count_value(w: Seq<char>) -> Option<int> {
    signed(w, i64::MAX as nat)
}

/// Whether the words make up a data line: a key, a license type, at least one
/// word each for the name and the street, the state and 22 counts.
pub open spec fn is_data(ws: Seq<Seq<char>>) -> bool {
    &&& ws.len() >= 27
    &&& is_key(ws[0])
    &&& is_two_digits(ws[1])
    &&& is_state(ws[ws.len() - 23])
    &&& forall|i: int| 0 <= i < 22 ==> count_value(#[trigger] ws[ws.len() - 22 + i]) is Some
}

/// The row that a line of a report gives.
pub open spec fn data_row(line: Seq<char>, year: int, versions: Versions) -> Option<RowText> {
    let ws = words(line);
    if is_data(ws) {
        let blob = ws.subrange(2, ws.len() - 23);
        let version = effective(versions, ws[0], year);
        let split = name_street_split(blob, version);
        Some(
            RowText {
                rds_key: ws[0],
                app_lic_type: ws[1],
                app_license_name: phrase(blob.take(split.0)),
                app_premise_street: Seq::empty(),
                app_premise_city: phrase(blob.skip(split.0)),
                app_premise_state: ws[ws.len() - 23],
                counts: Seq::new(22, |i: int| count_value(ws[ws.len() - 22 + i])->0 as i64),
                ffl_version_first_seen: match version {
                    Some(v) => Some(v.first_seen),
                    None => None,
                },
                name_source: split.1,
            },
        )
    } else {
        None
    }
}

/// Whether a line begins like data: a key and a license type.
pub open spec fn looks_like_data(line: Seq<char>) -> bool {
    let ws = words(line);
    ws.len() >= 2 && is_key(ws[0]) && is_two_digits(ws[1])
}

/// The rows that the lines give, in order.
pub open spec fn data_rows(ls: Seq<Seq<char>>, year: int, versions: Versions) -> Seq<RowText>
    decreases ls.len(),
{
    if ls.len() == 0 {
        Seq::empty()
    } else {
        let before = data_rows(ls.drop_last(), year, versions);
        match data_row(ls.last(), year, versions) {
            Some(row) => before.push(row),
            None => before,
        }
    }
}

/// How many lines begin like data and give no row.
pub open spec fn skipped_count(ls: Seq<Seq<char>>, year: int, versions: Versions) -> nat
    decreases ls.len(),
{
    if ls.len() == 0 {
        0
    } else {
        let before = skipped_count(ls.drop_last(), year, versions);
        if data_row(ls.last(), year, versions) is None && looks_like_data(ls.last()) {
            before + 1
        } else {
            before
        }
    }
}

/// How many rows were enriched with a license version.
pub open spec fn matched_count(rows: Seq<RowText>) -> nat
    decreases rows.len(),
{
    if rows.len() == 0 {
        0
    } else {
        matched_count(rows.drop_last()) + if rows.last().ffl_version_first_seen is Some {
            1nat
        } else {
            0nat
        }
    }
}

/// What an optional version holds.
pub open spec fn version_text(version: Option<&FflVersion>) -> Option<VersionText> {
    match version {
        Some(v) => Some(v@),
        None => None,
    }
}

/// The words of the header line of the current format: the five lead columns
/// and the count columns in upper case.
pub fn canonical_header() -> (r: Vec<String>)
    ensures
        texts(r@) == current_header(),
{
    let mut out: Vec<String> = Vec::new();
    let mut i: usize = 0;
    while i < 5
        invariant
            i <= 5,
            texts(out@) == current_header().take(i as int),
        decreases 5 - i,
    {
        push_text(&mut out, LEAD_COLS[i].to_owned());
        i += 1;
        assert(texts(out@) == current_header().take(i as int));
    }
    let mut j: usize = 0;
    while j < 22
        invariant
            j <= 22,
            texts(out@) == current_header().take(5 + j as int),
        decreases 22 - j,
    {
        push_text(&mut out, to_upper(COUNT_COLS[j]));
        j += 1;
        assert(texts(out@) == current_header().take(5 + j as int));
    }
    assert(current_header().take(27) == current_header());
    out
}

/// Whether two rows of strings hold the same texts.
fn same_words(a: &Vec<String>, b: &Vec<String>) -> (r: bool)
    ensures
        r == (texts(a@) == texts(b@)),
{
    if a.len() != b.len() {
        assert(texts(a@).len() != texts(b@).len());
        return false;
    }
    let mut i: usize = 0;
    while i < a.len()
        invariant
            a@.len() == b@.len(),
            i <= a@.len(),
            forall|j: int| 0 <= j < i ==> texts(a@)[j] == texts(b@)[j],
        decreases a@.len() - i,
    {
        if a[i] != b[i] {
            assert(texts(a@)[i as int] != texts(b@)[i as int]);
            return false;
        }
        i += 1;
    }
    assert(texts(a@) == texts(b@));
    true
}

fn begins_with_digit(w: &String) -> (r: bool)
    ensures
        r == starts_with_digit(w@),
{
    if w.as_str().is_empty() {
        return false;
    }
    is_digit_char(w.as_str().get_char(0))
}

/// The number of leading words in front of the first house number.
pub fn house_number_split_of(ws: &Vec<String>) -> (r: usize)
    ensures
        r == house_number_split(texts(ws@)),
        r <= ws@.len(),
{
    let mut i: usize = 0;
    while i < ws.len() && !begins_with_digit(&ws[i])
        invariant
            i <= ws@.len(),
            first_number(texts(ws@), 0) == first_number(texts(ws@), i as int),
        decreases ws@.len() - i,
    {
        i += 1;
    }
    i
}

/// Splits the words between the license type and the state into the license
/// name and the premise street.
pub fn split_name_street(ws: &Vec<String>, version: Option<&FflVersion>) -> (r: (
    String,
    String,
    NameSource,
))
    ensures
        ({
            let split = name_street_split(texts(ws@), version_text(version));
            &&& 0 <= split.0 <= ws@.len()
            &&& r.0@ == phrase(texts(ws@).take(split.0))
            &&& r.1@ == phrase(texts(ws@).skip(split.0))
            &&& r.2 == split.1
        }),
{
    let n: usize = ws.len();
    let ghost all = texts(ws@);
    let mut k: usize = house_number_split_of(ws);
    let mut source = NameSource::Heuristic;
    if let Some(v) = version {
        let want = normalize(v.record.license_name.as_str());
        match find_prefix(ws, &want) {
            Some(i) => {
                k = i;
                source = NameSource::FflPrefix;
            },
            None => {
                let street = normalize(v.record.premise_street.as_str());
                if !street.as_str().is_empty() {
                    if let Some(i) = find_suffix(ws, &street) {
                        k = i;
                        source = NameSource::FflSuffix;
                    }
                }
            },
        }
    }
    assert(all.subrange(0, k as int) == all.take(k as int));
    assert(all.subrange(k as int, n as int) == all.skip(k as int));
    (phrase_range(ws, 0, k), phrase_range(ws, k, n), source)
}

fn find_prefix(ws: &Vec<String>, want: &String) -> (r: Option<usize>)
    ensures
        match r {
            Some(k) => k < ws@.len() && prefix_split(texts(ws@), want@, 1) == Some(k as int),
            None => prefix_split(texts(ws@), want@, 1) is None,
        },
{
    let ghost all = texts(ws@);
    let mut k: usize = 1;
    while k < ws.len()
        invariant
            all == texts(ws@),
            1 <= k,
            prefix_split(all, want@, 1) == prefix_split(all, want@, k as int),
        decreases ws@.len() - k,
    {
        assert(all.subrange(0, k as int) == all.take(k as int));
        if normalize(phrase_range(ws, 0, k).as_str()) == *want {
            return Some(k);
        }
        k += 1;
    }
    None
}

fn find_suffix(ws: &Vec<String>, want: &String) -> (r: Option<usize>)
    ensures
        match r {
            Some(k) => k < ws@.len() && suffix_split(texts(ws@), want@, 1) == Some(k as int),
            None => suffix_split(texts(ws@), want@, 1) is None,
        },
{
    let ghost all = texts(ws@);
    let n: usize = ws.len();
    let mut k: usize = 1;
    while k < n
        invariant
            all == texts(ws@),
            n == ws@.len(),
            1 <= k,
            suffix_split(all, want@, 1) == suffix_split(all, want@, k as int),
        decreases n - k,
    {
        assert(all.subrange(k as int, n as int) == all.skip(k as int));
        if normalize(phrase_range(ws, k, n).as_str()) == *want {
            return Some(k);
        }
        k += 1;
    }
    None
}

/// Whether a word is a key.
pub fn is_key_word(w: &str) -> (r: bool)
    ensures
        r == is_key(w@),
{
    w.unicode_len() >= 6 && is_all_digits(w)
}

fn is_two_digit_word(w: &str) -> (r: bool)
    ensures
        r == is_two_digits(w@),
{
    w.unicode_len() == 2 && is_all_digits(w)
}

/// Whether a word is a state.
pub fn is_state_word(w: &str) -> (r: bool)
    ensures
        r == is_state(w@),
{
    w.unicode_len() == 2 && is_all_letters(w)
}

/// Whether a line begins with a key and a license type, and so should give a
/// row.
pub fn is_candidate_data_line(line: &str) -> (r: bool)
    ensures
        r == looks_like_data(line@),
{
    let ws = words_of(line);
    if ws.len() < 2 {
        return false;
    }
    assert(words(line@)[0] == ws@[0]@);
    assert(words(line@)[1] == ws@[1]@);
    is_key_word(ws[0].as_str()) && is_two_digit_word(ws[1].as_str())
}

/// The words `from..to`, in strings of their own.
pub fn copy_range(ws: &Vec<String>, from: usize, to: usize) -> (r: Vec<String>)
    requires
        from <= to <= ws@.len(),
    ensures
        texts(r@) == texts(ws@).subrange(from as int, to as int),
{
    let mut out: Vec<String> = Vec::new();
    let mut i: usize = from;
    while i < to
        invariant
            from <= i <= to <= ws@.len(),
            texts(out@) == texts(ws@).subrange(from as int, i as int),
        decreases to - i,
    {
        push_text(&mut out, ws[i].clone());
        i += 1;
        assert(texts(out@) == texts(ws@).subrange(from as int, i as int));
    }
    out
}

/// Reads one line of a current report.
pub fn parse_line(line: &str, year: i32, ffl: &FflStore) -> (r: Option<AfmerRow>)
    ensures
        match r {
            Some(row) => data_row(line@, year as int, ffl@.versions) == Some(row@),
            None => data_row(line@, year as int, ffl@.versions) is None,
        },
{
    let tokens = words_of(line);
    let ghost ws = words(line@);
    let n: usize = tokens.len();
    if n < 27 {
        return None;
    }
    let state_idx: usize = n - 23;
    assert(ws[0] == tokens@[0]@ && ws[1] == tokens@[1]@ && ws[n - 23] == tokens@[n - 23]@);
    if !is_key_word(tokens[0].as_str()) || !is_two_digit_word(tokens[1].as_str())
        || !is_state_word(tokens[state_idx].as_str()) {
        return None;
    }
    let mut counts = [0i64;22];
    let mut i: usize = 0;
    while i < 22
        invariant
            i <= 22,
            n == tokens@.len(),
            n >= 27,
            state_idx == n - 23,
            ws == texts(tokens@),
            ws == words(line@),
            forall|j: int|
                0 <= j < i ==> count_value(#[trigger] ws[n - 22 + j]) == Some(counts@[j] as int),
        decreases 22 - i,
    {
        assert(ws[n - 22 + i] == tokens@[n - 22 + i]@);
        match parse_i64(tokens[state_idx + 1 + i].as_str()) {
            Some(v) => {
                counts[i] = v;
            },
            None => {
                assert(!is_data(ws));
                return None;
            },
        }
        i += 1;
    }
    let blob = copy_range(&tokens, 2, state_idx);
    let version = ffl.version_for_year(tokens[0].as_str(), year);
    let (name, street, source) = split_name_street(&blob, version);
    let row = AfmerRow {
        rds_key: tokens[0].clone(),
        app_lic_type: tokens[1].clone(),
        app_license_name: name,
        app_premise_street: String::new(),
        app_premise_city: street,
        app_premise_state: tokens[state_idx].clone(),
        counts,
        ffl_version_first_seen: match version {
            Some(v) => Some(v.first_seen.clone()),
            None => None,
        },
        name_source: source,
    };
    assert(counts@ =~= Seq::new(22, |i: int| count_value(ws[ws.len() - 22 + i])->0 as i64)) by {
        assert forall|j: int| 0 <= j < 22 implies counts@[j] == count_value(
            ws[ws.len() - 22 + j],
        )->0 as i64 by {
            assert(count_value(ws[n - 22 + j]) == Some(counts@[j] as int));
        }
    }
    Some(row)
}

fn find_header(ls: &Vec<String>) -> (r: Option<usize>)
    ensures
        match r {
            Some(i) => i < ls@.len() && header_line(texts(ls@)) == Some(ls@[i as int]@),
            None => header_line(texts(ls@)) is None,
        },
{
    let ghost all = texts(ls@);
    let mut i: usize = 0;
    assert(all.skip(0) == all);
    while i < ls.len()
        invariant
            all == texts(ls@),
            i <= ls@.len(),
            header_line(all) == header_line(all.skip(i as int)),
        decreases ls@.len() - i,
    {
        assert(all.skip(i as int)[0] == ls@[i as int]@);
        if contains(ls[i].as_str(), "APP_RDS_KEY") {
            return Some(i);
        }
        assert(all.skip(i as int).skip(1) == all.skip(i + 1));
        i += 1;
    }
    None
}

/// Reads the text of a report for its year. The header line is held against
/// the current format first; a report in another format is handed back by its
/// header, so that the caller can say which ingest it needs.
pub fn parse(text: &str, year: i32, ffl: &FflStore) -> (r: Outcome)
    ensures
        match r {
            Outcome::Parsed(rows, stats) => {
                let expected = data_rows(lines(text@), year as int, ffl@.versions);
                &&& is_current(text@)
                &&& row_texts(rows@) == expected
                &&& stats.parsed == expected.len()
                &&& stats.skipped == skipped_count(lines(text@), year as int, ffl@.versions)
                &&& stats.ffl_matched == matched_count(expected)
            },
            Outcome::FormatMismatch { found } => {
                &&& !is_current(text@)
                &&& opt_text(found) == match header_line(lines(text@)) {
                    Some(h) => Some(trimmed(h)),
                    None => None,
                }
            },
        },
{
    let ls = lines_of(text);
    let ghost all = lines(text@);
    match find_header(&ls) {
        Some(h) => {
            let found = words_of(ls[h].as_str());
            let wanted = canonical_header();
            if !same_words(&found, &wanted) {
                return Outcome::FormatMismatch { found: Some(trim(ls[h].as_str())) };
            }
        },
        None => {
            return Outcome::FormatMismatch { found: None };
        },
    }
    let mut rows: Vec<AfmerRow> = Vec::new();
    let mut parsed: usize = 0;
    let mut skipped: usize = 0;
    let mut ffl_matched: usize = 0;
    let mut i: usize = 0;
    let total: usize = ls.len();
    while i < total
        invariant
            i <= total,
            total == ls@.len(),
            all == texts(ls@),
            row_texts(rows@) == data_rows(all.take(i as int), year as int, ffl@.versions),
            parsed == rows@.len(),
            skipped == skipped_count(all.take(i as int), year as int, ffl@.versions),
            ffl_matched == matched_count(row_texts(rows@)),
            parsed <= i,
            skipped <= i,
            ffl_matched <= parsed,
        decreases total - i,
    {
        let ghost now = all.take(i + 1);
        let ghost before = row_texts(rows@);
        assert(now.drop_last() == all.take(i as int));
        assert(now.last() == ls@[i as int]@);
        match parse_line(ls[i].as_str(), year, ffl) {
            Some(row) => {
                if row.ffl_version_first_seen.is_some() {
                    ffl_matched += 1;
                }
                parsed += 1;
                let ghost added = row@;
                rows.push(row);
                assert(row_texts(rows@) =~= before.push(added));
                assert(row_texts(rows@).drop_last() == before);
            },
            None => {
                if is_candidate_data_line(ls[i].as_str()) {
                    skipped += 1;
                }
            },
        }
        i += 1;
    }
    assert(all.take(i as int) == all);
    Outcome::Parsed(rows, ParseStats { parsed, skipped, ffl_matched })
}

/// The first number is the first word that begins with a digit.
pub proof fn lemma_first_number(ws: Seq<Seq<char>>, from: int)
    requires
        0 <= from <= ws.len(),
    ensures
        from <= first_number(ws, from) <= ws.len(),
        forall|i: int| from <= i < first_number(ws, from) ==> !starts_with_digit(#[trigger] ws[i]),
        first_number(ws, from) < ws.len() ==> starts_with_digit(ws[first_number(ws, from)]),
    decreases ws.len() - from,
{
    if from < ws.len() && !starts_with_digit(ws[from]) {
        lemma_first_number(ws, from + 1);
    }
}

/// The house number stands among the words or at their end.
pub proof fn lemma_house_number_split(ws: Seq<Seq<char>>)
    ensures
        0 <= house_number_split(ws) <= ws.len(),
{
    lemma_first_number(ws, 0);
}

proof fn lemma_prefix_split(ws: Seq<Seq<char>>, want: Seq<char>, k: int)
    ensures
        prefix_split(ws, want, k) matches Some(i) ==> k <= i < ws.len() && norm_text(
            phrase(ws.take(i)),
        ) == want,
    decreases ws.len() - k,
{
    if k < ws.len() && norm_text(phrase(ws.take(k))) != want {
        lemma_prefix_split(ws, want, k + 1);
    }
}

proof fn lemma_suffix_split(ws: Seq<Seq<char>>, want: Seq<char>, k: int)
    ensures
        suffix_split(ws, want, k) matches Some(i) ==> k <= i < ws.len() && norm_text(
            phrase(ws.skip(i)),
        ) == want,
    decreases ws.len() - k,
{
    if k < ws.len() && norm_text(phrase(ws.skip(k))) != want {
        lemma_suffix_split(ws, want, k + 1);
    }
}

/// Splitting keeps every word: the words of the name and then those of the
/// street are the words that were split. Unless the first word begins with a
/// digit, the name has at least one.
pub proof fn law_split_keeps_words(ws: Seq<Seq<char>>, version: Option<VersionText>)
    requires
        all_words(ws),
    ensures
        ({
            let k = name_street_split(ws, version).0;
            &&& 0 <= k <= ws.len()
            &&& ws.len() > 0 && !starts_with_digit(ws[0]) ==> k > 0
            &&& words(phrase(ws.take(k))) + words(phrase(ws.skip(k))) == ws
        }),
{
    let k = name_street_split(ws, version).0;
    lemma_first_number(ws, 0);
    if let Some(v) = version {
        lemma_prefix_split(ws, norm_text(v.record.license_name), 1);
        lemma_suffix_split(ws, norm_text(v.record.premise_street), 1);
    }
    assert(all_words(ws.take(k)));
    assert(all_words(ws.skip(k)));
    law_words_of_phrase(ws.take(k));
    law_words_of_phrase(ws.skip(k));
    assert(ws.take(k) + ws.skip(k) == ws);
}

/// Without a license the street begins at the first word that begins with a
/// digit; where there is none, all words are the name.
pub proof fn law_street_begins_at_the_house_number(ws: Seq<Seq<char>>)
    ensures
        ({
            let k = name_street_split(ws, None).0;
            &&& 0 <= k <= ws.len()
            &&& forall|i: int| 0 <= i < k ==> !starts_with_digit(#[trigger] ws[i])
            &&& k < ws.len() ==> starts_with_digit(ws[k])
        }),
{
    lemma_first_number(ws, 0);
}

proof fn lemma_prefix_found(ws: Seq<Seq<char>>, want: Seq<char>, k: int, from: int)
    requires
        all_words(ws),
        0 <= from <= k < ws.len(),
        norm_text(phrase(ws.take(k))) == want,
    ensures
        prefix_split(ws, want, from) == Some(k),
    decreases k - from,
{
    if from < k {
        assert(all_words(ws.take(k)));
        assert(all_words(ws.take(from)));
        lemma_words_of_norm(ws.take(k));
        lemma_words_of_norm(ws.take(from));
        assert(upper_words(ws.take(k)).len() == k);
        assert(upper_words(ws.take(from)).len() == from);
        lemma_prefix_found(ws, want, k, from + 1);
    }
}

/// Where the leading words are the license name of the effective version, up to
/// white space and letter case, and more words follow, the name is those words
/// and the rest is the street.
pub proof fn law_license_name_decides(ws: Seq<Seq<char>>, v: VersionText, k: int)
    requires
        all_words(ws),
        1 <= k < ws.len(),
        norm_text(v.record.license_name) == norm_text(phrase(ws.take(k))),
    ensures
        name_street_split(ws, Some(v)) == (k, NameSource::FflPrefix),
{
    lemma_prefix_found(ws, norm_text(v.record.license_name), k, 1);
}

/// Keys, states and numbers are words.
pub proof fn lemma_marks_are_words(w: Seq<char>)
    requires
        w.len() > 0,
        all_digits(w) || all_letters(w) || (w[0] == '-' && all_digits(w.skip(1))),
    ensures
        is_word(w),
{
    assert forall|i: int| 0 <= i < w.len() implies !is_space(#[trigger] w[i]) by {
        if w[0] == '-' && all_digits(w.skip(1)) && i > 0 {
            assert(w[i] == w.skip(1)[i - 1]);
        }
    }
}

/// The words of a data line.
pub open spec fn line_words(
    key: Seq<char>,
    lic_type: Seq<char>,
    blob: Seq<Seq<char>>,
    state: Seq<char>,
    counts: Seq<i64>,
) -> Seq<Seq<char>> {
    seq![key, lic_type] + blob + seq![state] + counts.map_values(|c: i64| decimal_int(c as int))
}

/// A data line reads back as what it was written from: the key, the license
/// type, the state and the 22 counts, whatever stands between.
pub proof fn law_data_line_reads_back(
    key: Seq<char>,
    lic_type: Seq<char>,
    blob: Seq<Seq<char>>,
    state: Seq<char>,
    counts: Seq<i64>,
    year: int,
    versions: Versions,
)
    requires
        key.len() >= 6,
        all_digits(key),
        lic_type.len() == 2,
        all_digits(lic_type),
        all_words(blob),
        blob.len() >= 2,
        state.len() == 2,
        all_letters(state),
        counts.len() == 22,
    ensures
        data_row(phrase(line_words(key, lic_type, blob, state, counts)), year, versions) matches Some(
            row,
        ) && {
            &&& row.rds_key == key
            &&& row.app_lic_type == lic_type
            &&& row.app_premise_street == Seq::<char>::empty()
            &&& row.app_premise_state == state
            &&& row.counts == counts
            &&& words(row.app_license_name) + words(row.app_premise_city) == blob
        },
{
    let ws = line_words(key, lic_type, blob, state, counts);
    let n = ws.len() as int;
    assert forall|i: int| 0 <= i < 22 implies #[trigger] ws[n - 22 + i] == decimal_int(
        counts[i] as int,
    ) && count_value(ws[n - 22 + i]) == Some(counts[i] as int) by {
        law_decimal_reads_back(counts[i] as int, i64::MAX as nat);
    }
    assert(all_words(ws)) by {
        assert forall|i: int| 0 <= i < ws.len() implies is_word(#[trigger] ws[i]) by {
            if i == 0 {
                lemma_marks_are_words(key);
            } else if i == 1 {
                lemma_marks_are_words(lic_type);
            } else if i < 2 + blob.len() {
                assert(ws[i] == blob[i - 2]);
            } else if i == 2 + blob.len() {
                assert(ws[i] == state);
                lemma_marks_are_words(state);
            } else {
                let c = counts[i - (n - 22)] as int;
                assert(ws[i] == ws[n - 22 + (i - (n - 22))]);
                assert(ws[i] == decimal_int(c));
                lemma_decimal_is_word(c);
            }
        }
    }
    law_words_of_phrase(ws);
    assert(ws[n - 23] == state);
    assert(is_data(ws));
    assert(ws.subrange(2, n - 23) == blob);
    law_split_keeps_words(blob, effective(versions, key, year));
    let row = data_row(phrase(ws), year, versions)->0;
    assert(row.counts == counts) by {
        assert forall|i: int| 0 <= i < 22 implies row.counts[i] == counts[i] by {
            assert(count_value(ws[n - 22 + i]) == Some(counts[i] as int));
        }
    }
}

proof fn lemma_decimal_is_word(n: int)
    ensures
        is_word(decimal_int(n)),
{
    if n < 0 {
        lemma_decimal_digits((-n) as nat);
        assert(decimal_int(n).skip(1) == decimal((-n) as nat));
    } else {
        lemma_decimal_digits(n as nat);
    }
    lemma_marks_are_words(decimal_int(n));
}

/// Every data line gives its own row, in the order of the lines, so that lines
/// of the same license are all kept: the rows of two pieces of a report are the
/// rows of the one followed by those of the other.
pub proof fn law_rows_follow_the_lines(
    a: Seq<Seq<char>>,
    b: Seq<Seq<char>>,
    year: int,
    versions: Versions,
)
    ensures
        data_rows(a + b, year, versions) == data_rows(a, year, versions) + data_rows(
            b,
            year,
            versions,
        ),
        skipped_count(a + b, year, versions) == skipped_count(a, year, versions) + skipped_count(
            b,
            year,
            versions,
        ),
        b.len() == 1 ==> data_rows(b, year, versions) == match data_row(b[0], year, versions) {
            Some(row) => seq![row],
            None => Seq::<RowText>::empty(),
        },
    decreases b.len(),
{
    if b.len() == 0 {
        assert(a + b == a);
        assert(data_rows(a, year, versions) + data_rows(b, year, versions) == data_rows(
            a,
            year,
            versions,
        ));
    } else {
        law_rows_follow_the_lines(a, b.drop_last(), year, versions);
        assert((a + b).drop_last() == a + b.drop_last());
        assert(data_rows(a + b, year, versions) == data_rows(a, year, versions) + data_rows(
            b,
            year,
            versions,
        ));
        if b.len() == 1 {
            assert(b.drop_last() == Seq::<Seq<char>>::empty());
            assert(data_rows(b.drop_last(), year, versions) == Seq::<RowText>::empty());
        }
    }
}

} // verus!
