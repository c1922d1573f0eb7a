//! The license version that a report row names, and the stored version that is
//! found by it.

use crate::database::{after_all, lists_all, version_changes, StoredRow, Tables};
use crate::database_laws::{is_last_seen_first, law_versions_are_stored, lemma_last_seen_first_exists};
use crate::ffl::{chain_of, effective, effective_index, VersionText, Versions};
use crate::ffl_laws::{
    is_chronological, law_effective_fits_best, law_effective_is_nearest, years_off,
};
use crate::joined::{entry_rows, Entries};
use crate::loading::{is_sound, LoadingText};
use crate::pdf::{data_row, data_rows, matched_count, RowText};
use crate::views::license_of;
use vstd::prelude::*;

verus! {

/// Whether a row names, for its year, a version of its license: the first
/// snapshot of one that is as near to the year as any, or nothing where no
/// version of the license is known.
pub open spec fn names_its_version(row: RowText, year: int, versions: Versions) -> bool {
    let known = versions.contains_key(row.rds_key) && versions[row.rds_key].len() > 0;
    match row.ffl_version_first_seen {
        Some(label) => known && exists|i: int|
            0 <= i < versions[row.rds_key].len() && (
            #[trigger] versions[row.rds_key][i]).first_seen == label && is_nearest(
                versions[row.rds_key],
                i,
                year,
            ),
        None => !known,
    }
}

/// Whether no version is nearer to a year than version `i`.
pub open spec fn is_nearest(chain: Seq<VersionText>, i: int, year: int) -> bool {
    forall|j: int|
        0 <= j < chain.len() ==> years_off(chain[i], year) <= years_off(#[trigger] chain[j], year)
}

/// Windows that do not end before they begin.
pub open spec fn windows_are_whole(versions: Versions) -> bool {
    forall|k: Seq<char>, i: int|
        versions.contains_key(k) && 0 <= i < versions[k].len() ==> (
        #[trigger] versions[k][i]).first_year <= versions[k][i].last_year
}

/// Whether a row that names a version finds one of its license, first seen in the
/// snapshot that it names, once the license dimension is stored; it then stands
/// beside the row in `afmer_enriched`.
pub open spec fn finds_its_version(row: StoredRow, t: Tables, versions: Versions) -> bool {
    match row.row.ffl_version_first_seen {
        Some(label) => {
            &&& t.versions.contains_key((row.row.rds_key, label))
            &&& t.versions[(row.row.rds_key, label)].first_seen == label
            &&& versions[row.row.rds_key].contains(t.versions[(row.row.rds_key, label)])
            &&& license_of(t, row) == Some(t.versions[(row.row.rds_key, label)])
        },
        None => license_of(t, row) is None,
    }
}

proof fn lemma_effective_is_named(row: RowText, year: int, versions: Versions)
    requires
        windows_are_whole(versions),
        row.ffl_version_first_seen == match effective(versions, row.rds_key, year) {
            Some(v) => Some(v.first_seen),
            None => None,
        },
    ensures
        names_its_version(row, year, versions),
{
    let key = row.rds_key;
    if versions.contains_key(key) && versions[key].len() > 0 {
        let chain = versions[key];
        law_effective_fits_best(chain, year);
        let at = effective_index(chain, year);
        assert(chain_of(versions, key) == chain);
        assert(versions[key][at].first_seen == row.ffl_version_first_seen->0);
        assert(is_nearest(chain, at, year)) by {
            assert forall|j: int| 0 <= j < chain.len() implies years_off(chain[at], year)
                <= years_off(#[trigger] chain[j], year) by {
                assert forall|i: int| 0 <= i < versions[key].len() implies (
                #[trigger] versions[key][i]).first_year <= versions[key][i].last_year by {
                }
                law_effective_is_nearest(versions, key, year, j);
            }
        }
    }
}

proof fn lemma_named_is_found(
    row: StoredRow,
    year: int,
    t: Tables,
    versions: Versions,
    keys: Seq<Seq<char>>,
)
    requires
        lists_all(keys, versions),
        names_its_version(row.row, year, versions),
    ensures
        finds_its_version(row, after_all(t, version_changes(versions, keys)), versions),
{
    if let Some(label) = row.row.ffl_version_first_seen {
        let key = row.row.rds_key;
        let chain = versions[key];
        let i = choose|i: int|
            0 <= i < versions[row.row.rds_key].len() && (
            #[trigger] versions[row.row.rds_key][i]).first_seen == label && is_nearest(
                versions[row.row.rds_key],
                i,
                year,
            );
        let last = lemma_last_seen_first_exists(chain, i);
        assert(is_last_seen_first(chain, last, chain[last].first_seen));
        law_versions_are_stored(t, versions, keys, key, last);
        assert(chain.contains(chain[last]));
    }
}

/// Every row of a current report names a version of its license exactly where
/// one is known, by its first snapshot, and none is nearer to the year of the
/// report. Once the license dimension is stored, the row finds a version of its
/// license by it.
pub proof fn law_report_rows_find_their_version(
    ls: Seq<Seq<char>>,
    year: i32,
    source_file: Seq<char>,
    versions: Versions,
    t: Tables,
    keys: Seq<Seq<char>>,
    i: int,
)
    requires
        windows_are_whole(versions),
        lists_all(keys, versions),
        0 <= i < data_rows(ls, year as int, versions).len(),
    ensures
        ({
            let row = data_rows(ls, year as int, versions)[i];
            let after = after_all(t, version_changes(versions, keys));
            &&& names_its_version(row, year as int, versions)
            &&& finds_its_version(StoredRow { year, source_file, row }, after, versions)
        }),
    decreases ls.len(),
{
    let row = data_rows(ls, year as int, versions)[i];
    let before = data_rows(ls.drop_last(), year as int, versions);
    if i < before.len() {
        law_report_rows_find_their_version(
            ls.drop_last(),
            year,
            source_file,
            versions,
            t,
            keys,
            i,
        );
    } else {
        assert(data_row(ls.last(), year as int, versions) == Some(row));
        lemma_effective_is_named(row, year as int, versions);
        lemma_named_is_found(
            StoredRow { year, source_file, row },
            year as int,
            t,
            versions,
            keys,
        );
    }
}

/// The same holds of every row that is joined from the sections of a historic
/// report or the sheets of a workbook.
pub proof fn law_joined_rows_find_their_version(
    entries: Entries,
    workbook: bool,
    year: i32,
    source_file: Seq<char>,
    versions: Versions,
    t: Tables,
    keys: Seq<Seq<char>>,
    i: int,
)
    requires
        windows_are_whole(versions),
        lists_all(keys, versions),
        0 <= i < entries.len(),
    ensures
        ({
            let rows = entry_rows(entries, workbook, year as int, versions);
            let after = after_all(t, version_changes(versions, keys));
            &&& rows.len() == entries.len()
            &&& names_its_version(rows[i], year as int, versions)
            &&& finds_its_version(StoredRow { year, source_file, row: rows[i] }, after, versions)
        }),
{
    let row = entry_rows(entries, workbook, year as int, versions)[i];
    lemma_effective_is_named(row, year as int, versions);
    lemma_named_is_found(StoredRow { year, source_file, row }, year as int, t, versions, keys);
}

/// A row is counted as matched exactly where a version of its license is known:
/// there are as many matched rows as rows that name one.
pub proof fn law_matched_rows_name_a_version(rows: Seq<RowText>)
    ensures
        matched_count(rows) == rows.filter(
            |r: RowText| r.ffl_version_first_seen is Some,
        ).len(),
    decreases rows.len(),
{
    reveal(Seq::filter);
    if rows.len() > 0 {
        law_matched_rows_name_a_version(rows.drop_last());
    }
}

/// A load in progress keeps windows that do not end before they begin.
pub proof fn law_loaded_windows_are_whole(loading: LoadingText)
    requires
        is_sound(loading),
    ensures
        windows_are_whole(loading.store.versions),
{
    let versions = loading.store.versions;
    assert forall|k: Seq<char>, i: int|
        versions.contains_key(k) && 0 <= i < versions[k].len() implies (
    #[trigger] versions[k][i]).first_year <= versions[k][i].last_year by {
        if loading.taken == 0 {
            assert(versions.dom().contains(k));
        } else {
            assert(is_chronological(
                versions[k],
                loading.order[loading.taken - 1].year as int,
            ));
        }
    }
}

} // verus!
