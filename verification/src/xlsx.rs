//! Workbooks: structured reports in columns with headers.
//!
//! Two shapes are read, both by column name. A historic workbook has a sheet
//! for each category, of which each holds the key, the address and a few count
//! columns; its sheets are joined by RDS key. A flat workbook has one sheet with
//! one row per license line, which all become rows. A row without a usable key
//! gets that of the only license with its name, city and state.

use crate::cells::{row_text, row_to_strings, sheet_text, Cell};
use crate::columns::{canonical_index, count_column};
use crate::ffl::{only_license_named, FflStore, Versions};
use crate::histpdf::{ungroup, ungrouped};
use crate::joined::{
    blank_rec, entry_rows, entry_texts, keys_distinct, law_join_keeps_one_entry_per_key, rows_of,
    with_entry, Entries, Entry, Joined, Rec, RecText,
};
use crate::number::{parse_i64, signed};
use crate::pdf::{matched_count, row_texts, AfmerRow};
use crate::text::{
    all_digits, chars_are, chars_of, is_all_digits, phrase, phrase_range, texts, to_upper_char, trim,
    trimmed, upper_char, words, words_of,
};
use vstd::prelude::*;

verus! {

/// What became of a workbook.
pub struct Stats {
    pub rows: usize,
    /// Rows with a name that have no key and get none.
    pub keyless_skipped: usize,
    /// Rows whose key was taken from the license dimension.
    pub keys_synthesized: usize,
    /// Rows of whose license a version is known.
    pub ffl_matched: usize,
}

/// Rows, or why a workbook gives none.
pub enum Outcome {
    Parsed(Vec<AfmerRow>, Stats),
    Unusable(String),
}

/// What a column of a workbook holds.
#[derive(Clone, Copy, PartialEq, Eq, Structural, Debug)]
pub enum Role {
    Key,
    LicType,
    Name,
    Street,
    City,
    State,
    Count(usize),
    Ignore,
}

pub open spec fn unscored_char(c: char) -> char {
    if c == '_' {
        ' '
    } else {
        c
    }
}

/// A header in upper case with underscores and runs of white space as single
/// blanks.
pub open spec fn header_name(header: Seq<char>) -> Seq<char> {
    phrase(words(Seq::new(header.len(), |i: int| unscored_char(upper_char(header[i])))))
}

/// The role of the column with a header.
pub open spec fn role_of(header: Seq<char>) -> Role {
    let n = header_name(header);
    if n == "APP RDS KEY"@ || n == "RDS KEY"@ {
        Role::Key
    } else if n == "APP LIC TYPE"@ || n == "LIC TYPE"@ {
        Role::LicType
    } else if n == "APP LICENSE NAME"@ || n == "LICENSE NAME"@ {
        Role::Name
    } else if n == "APP PREMISE STREET"@ || n == "STREET"@ {
        Role::Street
    } else if n == "APP PREMISE CITY"@ || n == "CITY"@ {
        Role::City
    } else if n == "APP PREMISE STATE"@ || n == "STATE"@ || n == "ST"@ {
        Role::State
    } else {
        match count_column(header) {
            Some(i) => Role::Count(i as usize),
            None => Role::Ignore,
        }
    }
}

/// The roles of the columns with these headers.
pub open spec fn roles_of(headers: Seq<Seq<char>>) -> Seq<Role> {
    Seq::new(headers.len(), |i: int| role_of(headers[i]))
}

/// A key of a workbook: digits, and at least one.
pub open spec fn is_digits_key(k: Seq<char>) -> bool {
    k.len() > 0 && all_digits(k)
}

/// The count in a cell: a number, possibly with commas between groups of
/// digits; anything else counts as zero.
pub open spec fn cell_count(s: Seq<char>) -> i64 {
    match signed(ungrouped(trimmed(s)), i64::MAX as nat) {
        Some(n) => n as i64,
        None => 0,
    }
}

/// What was read of a row.
pub struct Reading {
    pub key: Seq<char>,
    pub rec: RecText,
}

/// What was read after a further cell.
pub open spec fn read_cell(r: Reading, role: Role, v: Seq<char>) -> Reading {
    match role {
        Role::Key => Reading { key: trimmed(v), ..r },
        Role::LicType => Reading { rec: RecText { lic_type: trimmed(v), ..r.rec }, ..r },
        Role::Name => Reading { rec: RecText { name: trimmed(v), ..r.rec }, ..r },
        Role::Street => Reading { rec: RecText { street: trimmed(v), ..r.rec }, ..r },
        Role::City => Reading { rec: RecText { city: trimmed(v), ..r.rec }, ..r },
        Role::State => Reading { rec: RecText { state: trimmed(v), ..r.rec }, ..r },
        Role::Count(i) => Reading {
            rec: RecText { counts: r.rec.counts.update(i as int, cell_count(v)), ..r.rec },
            ..r
        },
        Role::Ignore => r,
    }
}

/// What the first `k` cells of a row give; a cell beyond the headers is ignored.
pub open spec fn read_cells(roles: Seq<Role>, cells: Seq<Seq<char>>, k: int) -> Reading
    decreases k,
{
    if k <= 0 {
        Reading { key: Seq::empty(), rec: blank_rec() }
    } else if k - 1 < roles.len() {
        read_cell(read_cells(roles, cells, k - 1), roles[k - 1], cells[k - 1])
    } else {
        read_cells(roles, cells, k - 1)
    }
}

/// What was taken in of a workbook so far.
pub struct Intake {
    pub entries: Entries,
    pub keyless: nat,
    pub synthesized: nat,
    pub saw_counts: bool,
}

pub open spec fn intake_start() -> Intake {
    Intake { entries: Seq::empty(), keyless: 0, synthesized: 0, saw_counts: false }
}

/// The entries with a further record: joined by key where a workbook has
/// several sheets, else as an entry of its own.
pub open spec fn taken_in(entries: Entries, multi: bool, key: Seq<char>, rec: RecText) -> Entries {
    if multi {
        with_entry(entries, key, rec)
    } else {
        entries.push((key, rec))
    }
}

/// What was taken in after a further row.
pub open spec fn take_row(st: Intake, r: Reading, multi: bool, versions: Versions) -> Intake {
    if is_digits_key(r.key) {
        Intake { entries: taken_in(st.entries, multi, r.key, r.rec), ..st }
    } else {
        match only_license_named(versions, r.rec.name, r.rec.city, r.rec.state) {
            Some(k) => Intake {
                entries: taken_in(st.entries, multi, k, r.rec),
                synthesized: st.synthesized + 1,
                ..st
            },
            None => if r.rec.name.len() > 0 {
                Intake { keyless: st.keyless + 1, ..st }
            } else {
                st
            },
        }
    }
}

/// What was taken in after the rows below `k` of a sheet; row zero is the
/// header.
pub open spec fn take_rows(
    st: Intake,
    roles: Seq<Role>,
    rows: Seq<Seq<Seq<char>>>,
    k: int,
    multi: bool,
    versions: Versions,
) -> Intake
    decreases k,
{
    if k <= 1 {
        st
    } else {
        take_row(
            take_rows(st, roles, rows, k - 1, multi, versions),
            read_cells(roles, rows[k - 1], rows[k - 1].len() as int),
            multi,
            versions,
        )
    }
}

pub open spec fn has_count(roles: Seq<Role>) -> bool {
    exists|i: int| 0 <= i < roles.len() && (#[trigger] roles[i]) is Count
}

pub open spec fn has_key(roles: Seq<Role>) -> bool {
    exists|i: int| 0 <= i < roles.len() && (#[trigger] roles[i]) is Key
}

/// What was taken in after a further sheet. A sheet that cannot be read or has
/// no header row adds nothing; one without a key column adds no rows.
pub open spec fn take_sheet(
    st: Intake,
    sheet: Option<Seq<Seq<Seq<char>>>>,
    multi: bool,
    versions: Versions,
) -> Intake {
    match sheet {
        Some(rows) if rows.len() > 0 => {
            let roles = roles_of(rows[0]);
            let seen = Intake { saw_counts: st.saw_counts || has_count(roles), ..st };
            if has_key(roles) {
                take_rows(seen, roles, rows, rows.len() as int, multi, versions)
            } else {
                seen
            }
        },
        _ => st,
    }
}

/// What the sheets below `k` give.
pub open spec fn take_sheets(
    book: Seq<Option<Seq<Seq<Seq<char>>>>>,
    k: int,
    versions: Versions,
) -> Intake
    decreases k,
{
    if k <= 0 {
        intake_start()
    } else {
        take_sheet(take_sheets(book, k - 1, versions), book[k - 1], book.len() > 1, versions)
    }
}

/// A worksheet by its rows of cells; none where the sheet cannot be read.
pub type Sheet = Option<Vec<Vec<Cell>>>;

/// What the sheets of a workbook hold.
pub open spec fn book_text(sheets: Seq<Sheet>) -> Seq<Option<Seq<Seq<Seq<char>>>>> {
    Seq::new(
        sheets.len(),
        |i: int|
            match sheets[i] {
                Some(rows) => Some(sheet_text(rows@)),
                None => None,
            },
    )
}

/// The number of rows of all sheets together.
pub open spec fn row_total(book: Seq<Option<Seq<Seq<Seq<char>>>>>, k: int) -> nat
    decreases k,
{
    if k <= 0 {
        0
    } else {
        row_total(book, k - 1) + match book[k - 1] {
            Some(rows) => rows.len(),
            None => 0,
        }
    }
}

/// Maps a column header to the role of the column.
pub fn classify(header: &str) -> (r: Role)
    ensures
        r == role_of(header@),
        r matches Role::Count(i) ==> i < 22,
{
    let mut spaced = String::new();
    let ghost whole = Seq::new(header@.len(), |i: int| unscored_char(upper_char(header@[i])));
    for c in it: header.chars()
        invariant
            it.seq() == header@,
            whole == Seq::new(header@.len(), |i: int| unscored_char(upper_char(header@[i]))),
            spaced@ == whole.take(it.index() as int),
    {
        let u = to_upper_char(c);
        spaced.push(if u == '_' { ' ' } else { u });
    }
    assert(spaced@ == whole);
    let ws = words_of(spaced.as_str());
    assert(texts(ws@).subrange(0, ws@.len() as int) == texts(ws@));
    let name = phrase_range(&ws, 0, ws.len());
    let n = chars_of(name.as_str());
    if chars_are(&n, "APP RDS KEY") || chars_are(&n, "RDS KEY") {
        Role::Key
    } else if chars_are(&n, "APP LIC TYPE") || chars_are(&n, "LIC TYPE") {
        Role::LicType
    } else if chars_are(&n, "APP LICENSE NAME") || chars_are(&n, "LICENSE NAME") {
        Role::Name
    } else if chars_are(&n, "APP PREMISE STREET") || chars_are(&n, "STREET") {
        Role::Street
    } else if chars_are(&n, "APP PREMISE CITY") || chars_are(&n, "CITY") {
        Role::City
    } else if chars_are(&n, "APP PREMISE STATE") || chars_are(&n, "STATE") || chars_are(&n, "ST") {
        Role::State
    } else {
        match canonical_index(header) {
            Some(i) => Role::Count(i),
            None => Role::Ignore,
        }
    }
}

/// Whether a key is usable.
pub fn is_valid_key(k: &str) -> (r: bool)
    ensures
        r == is_digits_key(k@),
{
    !k.is_empty() && is_all_digits(k)
}

/// The count in a cell.
pub fn parse_count(s: &str) -> (r: i64)
    ensures
        r == cell_count(s@),
{
    let digits = ungroup(trim(s).as_str());
    match parse_i64(digits.as_str()) {
        Some(n) => n,
        None => 0,
    }
}

/// Roles whose count columns exist.
pub open spec fn roles_in_range(roles: Seq<Role>) -> bool {
    forall|i: int|
        0 <= i < roles.len() ==> ((#[trigger] roles[i]) matches Role::Count(c) ==> c < 22)
}

fn classify_all(headers: &Vec<String>) -> (r: Vec<Role>)
    ensures
        r@ == roles_of(texts(headers@)),
        roles_in_range(r@),
{
    let mut out: Vec<Role> = Vec::new();
    let mut i: usize = 0;
    while i < headers.len()
        invariant
            i <= headers@.len(),
            out@ == roles_of(texts(headers@)).take(i as int),
            roles_in_range(out@),
        decreases headers@.len() - i,
    {
        out.push(classify(headers[i].as_str()));
        i += 1;
    }
    assert(out@ == roles_of(texts(headers@)));
    out
}

fn any_count(roles: &Vec<Role>) -> (r: bool)
    ensures
        r == has_count(roles@),
{
    let mut i: usize = 0;
    while i < roles.len()
        invariant
            i <= roles@.len(),
            forall|j: int| 0 <= j < i ==> !((#[trigger] roles@[j]) is Count),
        decreases roles@.len() - i,
    {
        if let Role::Count(_) = roles[i] {
            assert(roles@[i as int] is Count);
            return true;
        }
        i += 1;
    }
    false
}

fn any_key(roles: &Vec<Role>) -> (r: bool)
    ensures
        r == has_key(roles@),
{
    let mut i: usize = 0;
    while i < roles.len()
        invariant
            i <= roles@.len(),
            forall|j: int| 0 <= j < i ==> !((#[trigger] roles@[j]) is Key),
        decreases roles@.len() - i,
    {
        if let Role::Key = roles[i] {
            assert(roles@[i as int] is Key);
            return true;
        }
        i += 1;
    }
    false
}

/// Reads the cells of a row by the roles of their columns.
fn read_row(roles: &Vec<Role>, cells: &Vec<Cell>) -> (r: (String, Rec))
    requires
        roles_in_range(roles@),
    ensures
        ({
            let reading = read_cells(roles@, row_text(cells@), cells@.len() as int);
            r.0@ == reading.key && r.1@ == reading.rec
        }),
{
    let vals = row_to_strings(cells);
    let ghost all = row_text(cells@);
    let mut key = String::new();
    let mut rec = Rec::blank();
    let mut i: usize = 0;
    while i < vals.len()
        invariant
            i <= vals@.len(),
            texts(vals@) == all,
            roles_in_range(roles@),
            ({
                let reading = read_cells(roles@, all, i as int);
                key@ == reading.key && rec@ == reading.rec
            }),
        decreases vals@.len() - i,
    {
        assert(all[i as int] == vals@[i as int]@);
        if i < roles.len() {
            let v = vals[i].as_str();
            let role = roles[i];
            match role {
                Role::Key => {
                    key = trim(v);
                },
                Role::LicType => {
                    rec.lic_type = trim(v);
                },
                Role::Name => {
                    rec.name = trim(v);
                },
                Role::Street => {
                    rec.street = trim(v);
                },
                Role::City => {
                    rec.city = trim(v);
                },
                Role::State => {
                    rec.state = trim(v);
                },
                Role::Count(c) => {
                    let n: i64 = parse_count(v);
                    rec.counts[c] = n;
                },
                Role::Ignore => {},
            }
        }
        i += 1;
    }
    assert(texts(vals@).len() == vals@.len());
    (key, rec)
}

/// What was taken in, with the entries of a flat workbook beside those that are
/// joined.
struct Taken {
    joined: Joined,
    flat: Vec<Entry>,
    keyless: usize,
    synthesized: usize,
    saw_counts: bool,
}

impl Taken {
    spec fn holds(&self, st: Intake, multi: bool) -> bool {
        &&& self.joined.wf()
        &&& st.entries == if multi {
            self.joined@
        } else {
            entry_texts(self.flat@)
        }
        &&& st.keyless == self.keyless
        &&& st.synthesized == self.synthesized
        &&& st.saw_counts == self.saw_counts
    }

    fn put(&mut self, multi: bool, key: String, rec: Rec, Ghost(st): Ghost<Intake>)
        requires
            old(self).holds(st, multi),
        ensures
            final(self).holds(
                (Intake { entries: taken_in(st.entries, multi, key@, rec@), ..st }),
                multi,
            ),
    {
        if multi {
            self.joined.add(key.as_str(), rec);
        } else {
            let ghost before = entry_texts(self.flat@);
            let ghost added = (key@, rec@);
            self.flat.push(Entry { key, rec });
            assert(entry_texts(self.flat@) =~= before.push(added));
        }
    }

    fn take_row(&mut self, multi: bool, key: String, rec: Rec, ffl: &FflStore, Ghost(st): Ghost<Intake>)
        requires
            old(self).holds(st, multi),
            st.keyless < usize::MAX,
            st.synthesized < usize::MAX,
        ensures
            final(self).holds(
                take_row(st, (Reading { key: key@, rec: rec@ }), multi, ffl@.versions),
                multi,
            ),
    {
        if is_valid_key(key.as_str()) {
            self.put(multi, key, rec, Ghost(st));
        } else {
            match ffl.synthesize_key(rec.name.as_str(), rec.city.as_str(), rec.state.as_str()) {
                Some(k) => {
                    self.put(multi, k, rec, Ghost(st));
                    self.synthesized += 1;
                },
                None => {
                    if !rec.name.as_str().is_empty() {
                        self.keyless += 1;
                    }
                },
            }
        }
    }
}

proof fn lemma_take_rows_bound(
    st: Intake,
    roles: Seq<Role>,
    rows: Seq<Seq<Seq<char>>>,
    k: int,
    multi: bool,
    versions: Versions,
)
    requires
        k >= 0,
    ensures
        ({
            let out = take_rows(st, roles, rows, k, multi, versions);
            &&& out.keyless <= st.keyless + k
            &&& out.synthesized <= st.synthesized + k
            &&& k >= 1 ==> out.keyless <= st.keyless + k - 1
            &&& k >= 1 ==> out.synthesized <= st.synthesized + k - 1
        }),
    decreases k,
{
    if k > 1 {
        lemma_take_rows_bound(st, roles, rows, k - 1, multi, versions);
    }
}

proof fn lemma_take_sheets_bound(
    book: Seq<Option<Seq<Seq<Seq<char>>>>>,
    k: int,
    versions: Versions,
)
    requires
        0 <= k <= book.len(),
    ensures
        take_sheets(book, k, versions).keyless <= row_total(book, k),
        take_sheets(book, k, versions).synthesized <= row_total(book, k),
    decreases k,
{
    if k > 0 {
        lemma_take_sheets_bound(book, k - 1, versions);
        let st = take_sheets(book, k - 1, versions);
        if let Some(rows) = book[k - 1] {
            if rows.len() > 0 {
                let roles = roles_of(rows[0]);
                let seen = Intake { saw_counts: st.saw_counts || has_count(roles), ..st };
                lemma_take_rows_bound(seen, roles, rows, rows.len() as int, book.len() > 1, versions);
            }
        }
    }
}

proof fn lemma_row_total_grows(book: Seq<Option<Seq<Seq<Seq<char>>>>>, j: int, k: int)
    requires
        0 <= j <= k,
    ensures
        row_total(book, j) <= row_total(book, k),
    decreases k - j,
{
    if j < k {
        lemma_row_total_grows(book, j, k - 1);
    }
}

/// Takes in the rows of a workbook for the year of its report.
pub fn ingest(sheets: &Vec<Sheet>, year: i32, ffl: &FflStore) -> (r: Outcome)
    requires
        row_total(book_text(sheets@), sheets@.len() as int) <= usize::MAX,
    ensures
        ({
            let st = take_sheets(book_text(sheets@), sheets@.len() as int, ffl@.versions);
            let expected = entry_rows(st.entries, true, year as int, ffl@.versions);
            match r {
                Outcome::Parsed(rows, stats) => {
                    &&& st.saw_counts
                    &&& row_texts(rows@) == expected
                    &&& stats.rows == expected.len()
                    &&& stats.keyless_skipped == st.keyless
                    &&& stats.keys_synthesized == st.synthesized
                    &&& stats.ffl_matched == matched_count(expected)
                },
                Outcome::Unusable(why) => {
                    &&& !st.saw_counts
                    &&& why@ == "no recognizable AFMER count columns"@
                },
            }
        }),
{
    let ghost book = book_text(sheets@);
    let multi: bool = sheets.len() > 1;
    let mut taken = Taken {
        joined: Joined::new(),
        flat: Vec::new(),
        keyless: 0,
        synthesized: 0,
        saw_counts: false,
    };
    assert(entry_texts(taken.flat@) =~= Seq::<(Seq<char>, RecText)>::empty());
    let mut s: usize = 0;
    while s < sheets.len()
        invariant
            s <= sheets@.len(),
            book == book_text(sheets@),
            multi == (book.len() > 1),
            row_total(book, sheets@.len() as int) <= usize::MAX,
            taken.holds(take_sheets(book, s as int, ffl@.versions), multi),
        decreases sheets@.len() - s,
    {
        let ghost st = take_sheets(book, s as int, ffl@.versions);
        proof {
            lemma_take_sheets_bound(book, s as int, ffl@.versions);
            lemma_row_total_grows(book, s + 1, sheets@.len() as int);
        }
        if let Some(rows) = &sheets[s] {
            let ghost texts_of_rows = sheet_text(rows@);
            assert(book[s as int] == Some(texts_of_rows));
            if rows.len() > 0 {
                let headers = row_to_strings(&rows[0]);
                let roles = classify_all(&headers);
                assert(texts_of_rows[0] == row_text(rows@[0]@));
                if any_count(&roles) {
                    taken.saw_counts = true;
                }
                let ghost seen = Intake { saw_counts: st.saw_counts || has_count(roles@), ..st };
                if any_key(&roles) {
                    let mut k: usize = 1;
                    while k < rows.len()
                        invariant
                            1 <= k <= rows@.len(),
                            texts_of_rows == sheet_text(rows@),
                            roles_in_range(roles@),
                            seen.keyless + rows@.len() <= usize::MAX,
                            seen.synthesized + rows@.len() <= usize::MAX,
                            taken.holds(
                                take_rows(
                                    seen,
                                    roles@,
                                    texts_of_rows,
                                    k as int,
                                    multi,
                                    ffl@.versions,
                                ),
                                multi,
                            ),
                        decreases rows@.len() - k,
                    {
                        let ghost now = take_rows(
                            seen,
                            roles@,
                            texts_of_rows,
                            k as int,
                            multi,
                            ffl@.versions,
                        );
                        proof {
                            lemma_take_rows_bound(
                                seen,
                                roles@,
                                texts_of_rows,
                                k as int,
                                multi,
                                ffl@.versions,
                            );
                        }
                        let (key, rec) = read_row(&roles, &rows[k]);
                        assert(texts_of_rows[k as int] == row_text(rows@[k as int]@));
                        taken.take_row(multi, key, rec, ffl, Ghost(now));
                        k += 1;
                    }
                }
            }
        } else {
            assert(book[s as int] is None);
        }
        s += 1;
    }
    if !taken.saw_counts {
        return Outcome::Unusable("no recognizable AFMER count columns".to_owned());
    }
    let entries = if multi {
        taken.joined.into_entries()
    } else {
        taken.flat
    };
    let (rows, ffl_matched) = rows_of(entries, true, year, ffl);
    let n: usize = rows.len();
    Outcome::Parsed(
        rows,
        Stats {
            rows: n,
            keyless_skipped: taken.keyless,
            keys_synthesized: taken.synthesized,
            ffl_matched,
        },
    )
}

proof fn lemma_taken_in_distinct(st: Intake, r: Reading, versions: Versions)
    requires
        keys_distinct(st.entries),
    ensures
        keys_distinct(take_row(st, r, true, versions).entries),
{
    law_join_keeps_one_entry_per_key(st.entries, r.key, r.rec);
    if let Some(k) = only_license_named(versions, r.rec.name, r.rec.city, r.rec.state) {
        law_join_keeps_one_entry_per_key(st.entries, k, r.rec);
    }
}

proof fn lemma_rows_distinct(
    st: Intake,
    roles: Seq<Role>,
    rows: Seq<Seq<Seq<char>>>,
    k: int,
    versions: Versions,
)
    requires
        keys_distinct(st.entries),
    ensures
        keys_distinct(take_rows(st, roles, rows, k, true, versions).entries),
    decreases k,
{
    if k > 1 {
        lemma_rows_distinct(st, roles, rows, k - 1, versions);
        lemma_taken_in_distinct(
            take_rows(st, roles, rows, k - 1, true, versions),
            read_cells(roles, rows[k - 1], rows[k - 1].len() as int),
            versions,
        );
    }
}

/// A workbook of several sheets gives each license one row.
pub proof fn law_sheets_join_to_one_row_per_license(
    book: Seq<Option<Seq<Seq<Seq<char>>>>>,
    k: int,
    versions: Versions,
)
    requires
        book.len() > 1,
        0 <= k <= book.len(),
    ensures
        keys_distinct(take_sheets(book, k, versions).entries),
    decreases k,
{
    if k > 0 {
        law_sheets_join_to_one_row_per_license(book, k - 1, versions);
        let st = take_sheets(book, k - 1, versions);
        if let Some(rows) = book[k - 1] {
            if rows.len() > 0 {
                let roles = roles_of(rows[0]);
                let seen = Intake { saw_counts: st.saw_counts || has_count(roles), ..st };
                lemma_rows_distinct(seen, roles, rows, rows.len() as int, versions);
            }
        }
    }
}

/// What row `k` of a sheet gives by the headers of the sheet.
pub open spec fn sheet_reading(rows: Seq<Seq<Seq<char>>>, k: int) -> Reading {
    read_cells(roles_of(rows[0]), rows[k], rows[k].len() as int)
}

proof fn lemma_flat_rows(
    st: Intake,
    rows: Seq<Seq<Seq<char>>>,
    k: int,
    versions: Versions,
)
    requires
        st.entries.len() == 0,
        1 <= k <= rows.len(),
        forall|i: int| 1 <= i < k ==> is_digits_key((#[trigger] sheet_reading(rows, i)).key),
    ensures
        ({
            let out = take_rows(st, roles_of(rows[0]), rows, k, false, versions).entries;
            &&& out.len() == k - 1
            &&& forall|i: int|
                1 <= i < k ==> #[trigger] out[i - 1] == (
                    sheet_reading(rows, i).key,
                    sheet_reading(rows, i).rec,
                )
        }),
    decreases k,
{
    if k > 1 {
        lemma_flat_rows(st, rows, k - 1, versions);
        let out = take_rows(st, roles_of(rows[0]), rows, k, false, versions).entries;
        let before = take_rows(st, roles_of(rows[0]), rows, k - 1, false, versions).entries;
        let last = sheet_reading(rows, k - 1);
        assert(out == before.push((last.key, last.rec)));
        assert forall|i: int| 1 <= i < k implies #[trigger] out[i - 1] == (
            sheet_reading(rows, i).key,
            sheet_reading(rows, i).rec,
        ) by {
            if i < k - 1 {
                assert(out[i - 1] == before[i - 1]);
            }
        }
    }
}

/// A workbook of one sheet keeps every row that has a key, in order, also where
/// a license files several.
pub proof fn law_flat_workbook_keeps_every_row(rows: Seq<Seq<Seq<char>>>, versions: Versions)
    requires
        rows.len() > 0,
        has_key(roles_of(rows[0])),
        forall|i: int|
            1 <= i < rows.len() ==> is_digits_key((#[trigger] sheet_reading(rows, i)).key),
    ensures
        ({
            let out = take_sheets(seq![Some(rows)], 1, versions).entries;
            &&& out.len() == rows.len() - 1
            &&& forall|i: int|
                1 <= i < rows.len() ==> #[trigger] out[i - 1] == (
                    sheet_reading(rows, i).key,
                    sheet_reading(rows, i).rec,
                )
        }),
{
    let book = seq![Some(rows)];
    let roles = roles_of(rows[0]);
    assert(take_sheets(book, 0, versions) == intake_start());
    assert(book[0] == Some(rows));
    let seen = Intake { saw_counts: has_count(roles), ..intake_start() };
    lemma_flat_rows(seen, rows, rows.len() as int, versions);
    assert(take_sheets(book, 1, versions) == take_sheet(intake_start(), Some(rows), false, versions));
}

} // verus!
