//! What the cells of a workbook become.

use crate::column_laws::{is_plain_header, lemma_words_fill};
use crate::columns::count_column;
use crate::ffl::{only_license_named, Versions};
use crate::joined::{
    entry_rows, key_position, lemma_key_position, merged, with_entry, Entries, RecText,
};
use crate::number::{decimal_int, law_decimal_reads_back, signed};
use crate::pdf::NameSource;
use crate::section_laws::lemma_ungrouped;
use crate::text::{
    all_digits, is_space, law_upper_keeps_words, phrase, trimmed, upper, upper_char, upper_words,
    words,
};
use crate::xlsx::{
    cell_count, has_count, has_key, header_name, read_cells, role_of, roles_in_range,
    roles_of, take_row, take_rows, take_sheet, take_sheets, unscored_char, Intake, Reading, Role,
};
use vstd::prelude::*;

verus! {

proof fn lemma_plain_name(h: Seq<char>)
    requires
        is_plain_header(h),
    ensures
        header_name(h) == h,
{
    let spaced = Seq::new(h.len(), |k: int| unscored_char(upper_char(h[k])));
    assert(spaced == h);
    assert forall|k: int| 0 < k < h.len() && is_space(h[k - 1]) implies !is_space(
        #[trigger] h[k],
    ) by {
    }
    lemma_words_fill(h);
}

/// The columns that identify a license, as workbooks head them.
pub proof fn law_identifying_headers()
    ensures
        role_of("APP RDS KEY"@) == Role::Key,
        role_of("RDS KEY"@) == Role::Key,
        role_of("APP LIC TYPE"@) == Role::LicType,
        role_of("LIC TYPE"@) == Role::LicType,
        role_of("APP LICENSE NAME"@) == Role::Name,
        role_of("LICENSE NAME"@) == Role::Name,
        role_of("APP PREMISE STREET"@) == Role::Street,
        role_of("STREET"@) == Role::Street,
        role_of("APP PREMISE CITY"@) == Role::City,
        role_of("CITY"@) == Role::City,
        role_of("APP PREMISE STATE"@) == Role::State,
        role_of("STATE"@) == Role::State,
        role_of("ST"@) == Role::State,
{
    reveal_strlit("APP RDS KEY");
    assert("APP RDS KEY"@.len() == 11 && "APP RDS KEY"@[0] == 'A' && "APP RDS KEY"@[10] == 'Y');
    reveal_strlit("RDS KEY");
    assert("RDS KEY"@.len() == 7 && "RDS KEY"@[0] == 'R' && "RDS KEY"@[6] == 'Y');
    reveal_strlit("APP LIC TYPE");
    assert("APP LIC TYPE"@.len() == 12 && "APP LIC TYPE"@[0] == 'A' && "APP LIC TYPE"@[11] == 'E');
    reveal_strlit("LIC TYPE");
    assert("LIC TYPE"@.len() == 8 && "LIC TYPE"@[0] == 'L' && "LIC TYPE"@[7] == 'E');
    reveal_strlit("APP LICENSE NAME");
    assert("APP LICENSE NAME"@.len() == 16 && "APP LICENSE NAME"@[0] == 'A' && "APP LICENSE NAME"@[15] == 'E');
    reveal_strlit("LICENSE NAME");
    assert("LICENSE NAME"@.len() == 12 && "LICENSE NAME"@[0] == 'L' && "LICENSE NAME"@[11] == 'E');
    reveal_strlit("APP PREMISE STREET");
    assert("APP PREMISE STREET"@.len() == 18 && "APP PREMISE STREET"@[0] == 'A' && "APP PREMISE STREET"@[17] == 'T');
    reveal_strlit("STREET");
    assert("STREET"@.len() == 6 && "STREET"@[0] == 'S' && "STREET"@[5] == 'T');
    reveal_strlit("APP PREMISE CITY");
    assert("APP PREMISE CITY"@.len() == 16 && "APP PREMISE CITY"@[0] == 'A' && "APP PREMISE CITY"@[15] == 'Y');
    reveal_strlit("CITY");
    assert("CITY"@.len() == 4 && "CITY"@[0] == 'C' && "CITY"@[3] == 'Y');
    reveal_strlit("APP PREMISE STATE");
    assert("APP PREMISE STATE"@.len() == 17 && "APP PREMISE STATE"@[0] == 'A' && "APP PREMISE STATE"@[16] == 'E');
    reveal_strlit("STATE");
    assert("STATE"@.len() == 5 && "STATE"@[0] == 'S' && "STATE"@[4] == 'E');
    reveal_strlit("ST");
    assert("ST"@.len() == 2 && "ST"@[0] == 'S' && "ST"@[1] == 'T');
    assert(role_of("APP RDS KEY"@) == Role::Key) by {
        lemma_plain_name("APP RDS KEY"@);
    }
    assert(role_of("RDS KEY"@) == Role::Key) by {
        lemma_plain_name("RDS KEY"@);
    }
    assert(role_of("APP LIC TYPE"@) == Role::LicType) by {
        lemma_plain_name("APP LIC TYPE"@);
    }
    assert(role_of("LIC TYPE"@) == Role::LicType) by {
        lemma_plain_name("LIC TYPE"@);
    }
    assert(role_of("APP LICENSE NAME"@) == Role::Name) by {
        lemma_plain_name("APP LICENSE NAME"@);
    }
    assert(role_of("LICENSE NAME"@) == Role::Name) by {
        lemma_plain_name("LICENSE NAME"@);
    }
    assert(role_of("APP PREMISE STREET"@) == Role::Street) by {
        lemma_plain_name("APP PREMISE STREET"@);
    }
    assert(role_of("STREET"@) == Role::Street) by {
        lemma_plain_name("STREET"@);
    }
    assert(role_of("APP PREMISE CITY"@) == Role::City) by {
        lemma_plain_name("APP PREMISE CITY"@);
    }
    assert(role_of("CITY"@) == Role::City) by {
        lemma_plain_name("CITY"@);
    }
    assert(role_of("APP PREMISE STATE"@) == Role::State) by {
        lemma_plain_name("APP PREMISE STATE"@);
    }
    assert(role_of("STATE"@) == Role::State) by {
        lemma_plain_name("STATE"@);
    }
    assert(role_of("ST"@) == Role::State) by {
        lemma_plain_name("ST"@);
    }
}

/// Letter case does not matter to the header of a column, and an underscore in it
/// is as good as a blank.
pub proof fn law_identifying_marks_do_not_matter(header: Seq<char>, other: Seq<char>)
    requires
        header.len() == other.len(),
        forall|k: int|
            0 <= k < header.len() ==> {
                ||| #[trigger] other[k] == header[k]
                ||| other[k] == upper(header)[k]
                ||| header[k] == '_' && other[k] == ' '
            },
    ensures
        role_of(other) == role_of(header),
{
    let a = Seq::new(header.len(), |k: int| unscored_char(upper_char(header[k])));
    let b = Seq::new(other.len(), |k: int| unscored_char(upper_char(other[k])));
    assert forall|k: int| 0 <= k < a.len() implies a[k] == b[k] by {
        assert(other[k] == header[k] || other[k] == upper(header)[k] || other[k] == ' ');
        crate::text::lemma_upper_space(header[k]);
    }
    assert(a == b);
    crate::column_laws::law_header_marks_do_not_matter(header, other);
}

/// A header is compared by its words in capitals, whatever white space parts them.
pub proof fn law_identifying_header_is_compared_by_its_words(header: Seq<char>)
    requires
        forall|k: int| 0 <= k < header.len() ==> #[trigger] header[k] != '_',
    ensures
        header_name(header) == phrase(upper_words(words(header))),
{
    law_upper_keeps_words(header);
    let spaced = Seq::new(header.len(), |k: int| unscored_char(upper_char(header[k])));
    assert(spaced =~= upper(header));
}

/// A column that does not identify a license counts what its header names, and is
/// ignored where the header names no count column.
pub proof fn law_other_headers_count(header: Seq<char>)
    requires
        role_of(header) is Count || role_of(header) is Ignore,
    ensures
        role_of(header) is Ignore <==> count_column(header) is None,
        role_of(header) matches Role::Count(c) ==> count_column(header) == Some(c as int),
{
    if let Some(i) = count_column(header) {
        crate::column_laws::law_headers_tell_their_column(header, i);
    }
}

/// The text that was read for a column of a role.
pub open spec fn text_under(r: Reading, role: Role) -> Seq<char> {
    match role {
        Role::Key => r.key,
        Role::LicType => r.rec.lic_type,
        Role::Name => r.rec.name,
        Role::Street => r.rec.street,
        Role::City => r.rec.city,
        Role::State => r.rec.state,
        _ => Seq::empty(),
    }
}

/// Each field of a row is the cell under the header of its role, without the white
/// space at its ends; of several such columns the last counts, and without one the
/// field is empty.
pub proof fn law_cells_fill_their_fields(
    roles: Seq<Role>,
    cells: Seq<Seq<char>>,
    n: int,
    role: Role,
    i: int,
)
    requires
        0 <= n <= cells.len(),
        -1 <= i < n,
        i >= 0 ==> i < roles.len() && roles[i] == role,
        forall|j: int| i < j < n && j < roles.len() ==> #[trigger] roles[j] != role,
        !(role is Count),
        !(role is Ignore),
    ensures
        text_under(read_cells(roles, cells, n), role) == if i >= 0 {
            trimmed(cells[i])
        } else {
            Seq::<char>::empty()
        },
    decreases n,
{
    if n > 0 {
        if i < n - 1 {
            law_cells_fill_their_fields(roles, cells, n - 1, role, i);
            if n - 1 < roles.len() {
                assert(roles[n - 1] != role);
            }
        }
    }
}

/// Each count of a row is that of the cell under the header of its column; of
/// several such columns the last counts, and without one the count is zero.
pub proof fn law_cells_fill_their_counts(
    roles: Seq<Role>,
    cells: Seq<Seq<char>>,
    n: int,
    c: usize,
    i: int,
)
    requires
        0 <= n <= cells.len(),
        -1 <= i < n,
        c < 22,
        i >= 0 ==> i < roles.len() && roles[i] == Role::Count(c),
        forall|j: int| i < j < n && j < roles.len() ==> #[trigger] roles[j] != Role::Count(c),
        roles_in_range(roles),
    ensures
        read_cells(roles, cells, n).rec.counts.len() == 22,
        read_cells(roles, cells, n).rec.counts[c as int] == if i >= 0 {
            cell_count(cells[i])
        } else {
            0
        },
    decreases n,
{
    if n > 0 {
        if i < n - 1 {
            law_cells_fill_their_counts(roles, cells, n - 1, c, i);
            if n - 1 < roles.len() {
                assert(roles[n - 1] != Role::Count(c));
            }
        } else {
            lemma_counts_length(roles, cells, n - 1);
        }
    }
}

proof fn lemma_counts_length(roles: Seq<Role>, cells: Seq<Seq<char>>, n: int)
    requires
        roles_in_range(roles),
    ensures
        read_cells(roles, cells, n).rec.counts.len() == 22,
    decreases n,
{
    if n > 0 {
        lemma_counts_length(roles, cells, n - 1);
        if n - 1 < roles.len() {
            assert(roles[n - 1] matches Role::Count(c) ==> c < 22);
        }
    }
}

/// A cell counts the number that it shows, with or without commas and white space
/// around it, and zero where it shows none.
pub proof fn law_cells_show_their_count(cell: Seq<char>, n: i64)
    ensures
        trimmed(cell).filter(|c: char| c != ',') == decimal_int(n as int) ==> cell_count(cell)
            == n,
        signed(trimmed(cell).filter(|c: char| c != ','), i64::MAX as nat) is None ==> cell_count(
            cell,
        ) == 0,
{
    lemma_ungrouped(trimmed(cell));
    law_decimal_reads_back(n as int, i64::MAX as nat);
}

/// A row with a key of digits is taken in under it. One without gets the key of the
/// only license with its name, city and state, and is counted as such. One that
/// gets none is left out, and counted where it has a name.
pub proof fn law_rows_are_taken_in_by_key(st: Intake, r: Reading, multi: bool, versions: Versions)
    ensures
        ({
            let out = take_row(st, r, multi, versions);
            let found = only_license_named(versions, r.rec.name, r.rec.city, r.rec.state);
            let usable = r.key.len() > 0 && all_digits(r.key);
            let added = |k: Seq<char>|
                if multi {
                    with_entry(st.entries, k, r.rec)
                } else {
                    st.entries.push((k, r.rec))
                };
            &&& out.saw_counts == st.saw_counts
            &&& usable ==> out.entries == added(r.key) && out.synthesized == st.synthesized
                && out.keyless == st.keyless
            &&& !usable && found is Some ==> out.entries == added(found->0) && out.synthesized
                == st.synthesized + 1 && out.keyless == st.keyless
            &&& !usable && found is None ==> out.entries == st.entries && out.synthesized
                == st.synthesized && out.keyless == st.keyless + if r.rec.name.len() > 0 {
                1nat
            } else {
                0nat
            }
        }),
{
}

/// A sheet is read by the roles of its first row: its other rows are taken in one
/// after the other, where it has a key column. A sheet without one, without rows
/// or that cannot be read adds no rows. Count columns are noticed in any sheet that
/// has rows.
pub proof fn law_sheets_are_read_by_their_header(
    st: Intake,
    rows: Seq<Seq<Seq<char>>>,
    multi: bool,
    versions: Versions,
)
    ensures
        take_sheet(st, None, multi, versions) == st,
        rows.len() == 0 ==> take_sheet(st, Some(rows), multi, versions) == st,
        rows.len() > 0 ==> {
            let roles = roles_of(rows[0]);
            let out = take_sheet(st, Some(rows), multi, versions);
            let seen = Intake {
                saw_counts: st.saw_counts || exists|i: int|
                    0 <= i < rows[0].len() && role_of(#[trigger] rows[0][i]) is Count,
                ..st
            };
            &&& (exists|i: int| 0 <= i < rows[0].len() && role_of(#[trigger] rows[0][i]) is Key)
                ==> out == take_rows(seen, roles, rows, rows.len() as int, multi, versions)
            &&& !(exists|i: int| 0 <= i < rows[0].len() && role_of(#[trigger] rows[0][i]) is Key)
                ==> out == seen
        },
{
    if rows.len() > 0 {
        let roles = roles_of(rows[0]);
        assert(has_count(roles) == exists|i: int|
            0 <= i < rows[0].len() && role_of(#[trigger] rows[0][i]) is Count) by {
            if has_count(roles) {
                let i = choose|i: int| 0 <= i < roles.len() && (#[trigger] roles[i]) is Count;
                assert(role_of(rows[0][i]) is Count);
            }
            if exists|i: int| 0 <= i < rows[0].len() && role_of(#[trigger] rows[0][i]) is Count {
                let i = choose|i: int|
                    0 <= i < rows[0].len() && role_of(#[trigger] rows[0][i]) is Count;
                assert(roles[i] is Count);
            }
        }
        assert(has_key(roles) == exists|i: int|
            0 <= i < rows[0].len() && role_of(#[trigger] rows[0][i]) is Key) by {
            if has_key(roles) {
                let i = choose|i: int| 0 <= i < roles.len() && (#[trigger] roles[i]) is Key;
                assert(role_of(rows[0][i]) is Key);
            }
            if exists|i: int| 0 <= i < rows[0].len() && role_of(#[trigger] rows[0][i]) is Key {
                let i = choose|i: int|
                    0 <= i < rows[0].len() && role_of(#[trigger] rows[0][i]) is Key;
                assert(roles[i] is Key);
            }
        }
    }
}

/// The sheets of a workbook are taken in one after the other, and so are the rows of
/// a sheet below its header.
pub proof fn law_sheets_and_rows_follow_each_other(
    book: Seq<Option<Seq<Seq<Seq<char>>>>>,
    s: int,
    st: Intake,
    roles: Seq<Role>,
    rows: Seq<Seq<Seq<char>>>,
    k: int,
    multi: bool,
    versions: Versions,
)
    requires
        0 <= s < book.len(),
        1 <= k < rows.len(),
    ensures
        take_sheets(book, 0, versions).entries.len() == 0,
        take_sheets(book, 0, versions).keyless == 0,
        take_sheets(book, 0, versions).synthesized == 0,
        !take_sheets(book, 0, versions).saw_counts,
        take_sheets(book, s + 1, versions) == take_sheet(
            take_sheets(book, s, versions),
            book[s],
            book.len() > 1,
            versions,
        ),
        take_rows(st, roles, rows, 1, multi, versions) == st,
        take_rows(st, roles, rows, k + 1, multi, versions) == take_row(
            take_rows(st, roles, rows, k, multi, versions),
            read_cells(roles, rows[k], rows[k].len() as int),
            multi,
            versions,
        ),
{
}

/// A joined row shows its entry field by field, and where its name comes from: a
/// workbook, the license dimension or the house number.
pub proof fn law_rows_show_their_entry(
    entries: Entries,
    workbook: bool,
    year: int,
    versions: Versions,
    i: int,
)
    requires
        0 <= i < entries.len(),
    ensures
        ({
            let row = entry_rows(entries, workbook, year, versions)[i];
            let (key, rec) = entries[i];
            &&& row.rds_key == key
            &&& row.app_lic_type == rec.lic_type
            &&& row.app_license_name == rec.name
            &&& row.app_premise_street == rec.street
            &&& row.app_premise_city == rec.city
            &&& row.app_premise_state == rec.state
            &&& row.counts == rec.counts
            &&& row.name_source == if workbook {
                NameSource::Xlsx
            } else if rec.resolved {
                NameSource::FflPrefix
            } else {
                NameSource::Heuristic
            }
        }),
{
}

/// Joining two records of a license keeps of each field the first text that is not
/// empty, and of each count the last number that is not zero.
pub proof fn law_join_keeps_the_first_text(a: RecText, b: RecText, c: int)
    requires
        0 <= c < 22,
    ensures
        ({
            let m = merged(a, b);
            &&& a.lic_type.len() > 0 ==> m.lic_type == a.lic_type
            &&& a.lic_type.len() == 0 ==> m.lic_type == b.lic_type
            &&& a.name.len() > 0 ==> m.name == a.name
            &&& a.name.len() == 0 ==> m.name == b.name
            &&& a.street.len() > 0 ==> m.street == a.street
            &&& a.street.len() == 0 ==> m.street == b.street
            &&& a.city.len() > 0 ==> m.city == a.city
            &&& a.city.len() == 0 ==> m.city == b.city
            &&& a.state.len() > 0 ==> m.state == a.state
            &&& a.state.len() == 0 ==> m.state == b.state
            &&& m.counts.len() == 22
            &&& b.counts[c] != 0 ==> m.counts[c] == b.counts[c]
            &&& b.counts[c] == 0 ==> m.counts[c] == a.counts[c]
            &&& m.resolved <==> a.resolved || b.resolved
        }),
{
}

/// A record of a license that has an entry is joined to it, the earlier record
/// first; a record of any other license is a new entry at the end.
pub proof fn law_records_join_their_entry(entries: Entries, key: Seq<char>, rec: RecText, i: int)
    requires
        0 <= i <= entries.len(),
        forall|j: int| 0 <= j < i ==> (#[trigger] entries[j]).0 != key,
        i < entries.len() ==> entries[i].0 == key,
    ensures
        i < entries.len() ==> with_entry(entries, key, rec) == entries.update(
            i,
            (key, merged(entries[i].1, rec)),
        ),
        i == entries.len() ==> with_entry(entries, key, rec) == entries.push((key, rec)),
{
    lemma_key_position(entries, key);
    let p = key_position(entries, key);
    if p < i {
        assert(entries[p].0 != key);
    } else if i < p {
        assert(entries[i].0 != key);
    }
}

} // verus!
