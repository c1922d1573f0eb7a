//! What the changes keep and replace.

use crate::database::{
    after_all, chain_changes, changed, label_changes, lists_all, relink, reload,
    rows_of_other_years, rows_of_year, snapshot_changes, version_changes, ChangeText, StoredRow,
    Tables,
};
use crate::ffl::{effective, effective_index, SnapshotText, VersionText, Versions};
use crate::ffl_laws::law_effective_fits_best;
use crate::json::JsonText;
use crate::labels::LabelText;
use crate::links::{
    canonical_id, group_of, groups_text, law_member_keys_roll_up, link_table, lists, LinksText,
};
use crate::pdf::RowText;
use vstd::prelude::*;

verus! {

/// Changes behind other changes are made to what those leave.
pub proof fn lemma_after_append(t: Tables, a: Seq<ChangeText>, b: Seq<ChangeText>)
    ensures
        after_all(t, a + b) == after_all(after_all(t, a), b),
    decreases b.len(),
{
    if b.len() == 0 {
        assert(a + b == a);
    } else {
        lemma_after_append(t, a, b.drop_last());
        assert((a + b).drop_last() == a + b.drop_last());
    }
}

/// The stored rows of a report.
pub open spec fn stored_rows(year: i32, source_file: Seq<char>, rows: Seq<RowText>) -> Seq<
    StoredRow,
> {
    Seq::new(rows.len(), |i: int| StoredRow { year, source_file, row: rows[i] })
}

spec fn additions(rows: Seq<StoredRow>) -> Seq<ChangeText> {
    Seq::new(rows.len(), |i: int| ChangeText::AddRow(rows[i]))
}

proof fn lemma_additions(t: Tables, rows: Seq<StoredRow>)
    ensures
        after_all(t, additions(rows)) == (Tables { rows: t.rows + rows, ..t }),
    decreases rows.len(),
{
    if rows.len() == 0 {
        assert(t.rows + rows == t.rows);
    } else {
        lemma_additions(t, rows.drop_last());
        assert(additions(rows).drop_last() == additions(rows.drop_last()));
        assert((t.rows + rows.drop_last()).push(rows.last()) == t.rows + rows);
    }
}

proof fn lemma_reload(t: Tables, year: i32, source_file: Seq<char>, rows: Seq<RowText>)
    ensures
        after_all(t, reload(year, source_file, rows)) == (Tables {
            rows: rows_of_other_years(t.rows, year) + stored_rows(year, source_file, rows),
            ..t
        }),
{
    let clear = seq![ChangeText::ClearYear(year)];
    let added = additions(stored_rows(year, source_file, rows));
    assert(reload(year, source_file, rows) == clear + added);
    lemma_after_append(t, clear, added);
    assert(clear.drop_last() == Seq::<ChangeText>::empty());
    assert(after_all(t, clear.drop_last()) == t);
    assert(after_all(t, clear) == changed(t, ChangeText::ClearYear(year)));
    lemma_additions(after_all(t, clear), stored_rows(year, source_file, rows));
}

proof fn lemma_rows_append(a: Seq<StoredRow>, b: Seq<StoredRow>, year: i32)
    ensures
        rows_of_year(a + b, year) == rows_of_year(a, year) + rows_of_year(b, year),
        rows_of_other_years(a + b, year) == rows_of_other_years(a, year) + rows_of_other_years(
            b,
            year,
        ),
    decreases b.len(),
{
    if b.len() == 0 {
        assert(a + b == a);
        assert(rows_of_year(a, year) + rows_of_year(b, year) == rows_of_year(a, year));
        assert(rows_of_other_years(a, year) + rows_of_other_years(b, year) == rows_of_other_years(
            a,
            year,
        ));
    } else {
        lemma_rows_append(a, b.drop_last(), year);
        assert((a + b).drop_last() == a + b.drop_last());
        assert(rows_of_year(a + b, year) == rows_of_year(a, year) + rows_of_year(b, year));
        assert(rows_of_other_years(a + b, year) == rows_of_other_years(a, year)
            + rows_of_other_years(b, year));
    }
}

proof fn lemma_all_of_year(rows: Seq<StoredRow>, year: i32)
    requires
        forall|i: int| 0 <= i < rows.len() ==> (#[trigger] rows[i]).year == year,
    ensures
        rows_of_year(rows, year) == rows,
        rows_of_other_years(rows, year) == Seq::<StoredRow>::empty(),
        forall|other: i32| other != year ==> #[trigger] rows_of_year(rows, other) == Seq::<
            StoredRow,
        >::empty(),
    decreases rows.len(),
{
    if rows.len() > 0 {
        lemma_all_of_year(rows.drop_last(), year);
        assert(rows.drop_last().push(rows.last()) == rows);
        assert forall|other: i32| other != year implies #[trigger] rows_of_year(rows, other)
            == Seq::<StoredRow>::empty() by {
            assert(rows_of_year(rows.drop_last(), other) == Seq::<StoredRow>::empty());
        }
    }
}

proof fn lemma_other_years(rows: Seq<StoredRow>, year: i32)
    ensures
        rows_of_year(rows_of_other_years(rows, year), year) == Seq::<StoredRow>::empty(),
        rows_of_other_years(rows_of_other_years(rows, year), year) == rows_of_other_years(
            rows,
            year,
        ),
        forall|other: i32|
            other != year ==> #[trigger] rows_of_year(rows_of_other_years(rows, year), other)
                == rows_of_year(rows, other),
    decreases rows.len(),
{
    if rows.len() > 0 {
        let front = rows.drop_last();
        lemma_other_years(front, year);
        let before = rows_of_other_years(front, year);
        if rows.last().year != year {
            assert(before.push(rows.last()).drop_last() == before);
        }
        assert forall|other: i32| other != year implies #[trigger] rows_of_year(
            rows_of_other_years(rows, year),
            other,
        ) == rows_of_year(rows, other) by {
            assert(rows_of_year(before, other) == rows_of_year(front, other));
        }
    }
}

/// Storing a report leaves for its year the rows of the report, in order, and
/// for every other year the rows that were there. No other table changes.
pub proof fn law_reload_replaces_the_year(
    t: Tables,
    year: i32,
    source_file: Seq<char>,
    rows: Seq<RowText>,
)
    ensures
        ({
            let after = after_all(t, reload(year, source_file, rows));
            &&& rows_of_year(after.rows, year) == stored_rows(year, source_file, rows)
            &&& forall|other: i32|
                other != year ==> #[trigger] rows_of_year(after.rows, other) == rows_of_year(
                    t.rows,
                    other,
                )
            &&& after.links == t.links
            &&& after.group_names == t.group_names
            &&& after.labels == t.labels
            &&& after.snapshots == t.snapshots
            &&& after.versions == t.versions
        }),
{
    lemma_reload(t, year, source_file, rows);
    let others = rows_of_other_years(t.rows, year);
    let added = stored_rows(year, source_file, rows);
    let after = after_all(t, reload(year, source_file, rows));
    lemma_other_years(t.rows, year);
    lemma_all_of_year(added, year);
    lemma_rows_append(others, added, year);
    assert(Seq::<StoredRow>::empty() + added == added);
    assert forall|other: i32| other != year implies #[trigger] rows_of_year(after.rows, other)
        == rows_of_year(t.rows, other) by {
        lemma_rows_append(others, added, other);
        assert(rows_of_year(added, other) == Seq::<StoredRow>::empty());
        assert(rows_of_year(others, other) == rows_of_year(t.rows, other));
        assert(rows_of_year(others, other) + Seq::<StoredRow>::empty() == rows_of_year(
            others,
            other,
        ));
    }
}

/// Storing a report a second time changes nothing.
pub proof fn law_reload_is_idempotent(
    t: Tables,
    year: i32,
    source_file: Seq<char>,
    rows: Seq<RowText>,
)
    ensures
        ({
            let changes = reload(year, source_file, rows);
            after_all(after_all(t, changes), changes) == after_all(t, changes)
        }),
{
    let changes = reload(year, source_file, rows);
    let once = after_all(t, changes);
    lemma_reload(t, year, source_file, rows);
    lemma_reload(once, year, source_file, rows);
    let others = rows_of_other_years(t.rows, year);
    let added = stored_rows(year, source_file, rows);
    lemma_other_years(t.rows, year);
    lemma_all_of_year(added, year);
    lemma_rows_append(others, added, year);
    assert(others + Seq::<StoredRow>::empty() == others);
}

spec fn link_changes(links: Seq<(Seq<char>, Seq<char>)>) -> Seq<ChangeText> {
    Seq::new(links.len(), |i: int| ChangeText::SetLink(links[i].0, links[i].1))
}

spec fn name_changes(names: Seq<(Seq<char>, Seq<char>)>) -> Seq<ChangeText> {
    Seq::new(names.len(), |i: int| ChangeText::SetGroupName(names[i].0, names[i].1))
}

proof fn lemma_link_changes(t: Tables, links: Seq<(Seq<char>, Seq<char>)>)
    requires
        t.links == Map::<Seq<char>, Seq<char>>::empty(),
    ensures
        after_all(t, link_changes(links)) == (Tables { links: link_table(links), ..t }),
    decreases links.len(),
{
    if links.len() > 0 {
        lemma_link_changes(t, links.drop_last());
        assert(link_changes(links).drop_last() == link_changes(links.drop_last()));
    }
}

proof fn lemma_name_changes(t: Tables, names: Seq<(Seq<char>, Seq<char>)>)
    requires
        t.group_names == Map::<Seq<char>, Seq<char>>::empty(),
    ensures
        after_all(t, name_changes(names)) == (Tables { group_names: link_table(names), ..t }),
    decreases names.len(),
{
    if names.len() > 0 {
        lemma_name_changes(t, names.drop_last());
        assert(name_changes(names).drop_last() == name_changes(names.drop_last()));
    }
}

/// A links file is authoritative: once it is stored, the linked keys and the
/// names of groups are those of the file, whatever was stored before. No other
/// table changes.
pub proof fn law_links_file_is_authoritative(t: Tables, links: LinksText)
    ensures
        after_all(t, relink(links)) == (Tables {
            links: link_table(links.links),
            group_names: link_table(links.names),
            ..t
        }),
{
    let clear = seq![ChangeText::ClearLinks, ChangeText::ClearGroupNames];
    let linked = link_changes(links.links);
    let named = name_changes(links.names);
    assert(relink(links) == clear + linked + named);
    lemma_after_append(t, clear + linked, named);
    lemma_after_append(t, clear, linked);
    let cleared = after_all(t, clear);
    assert(cleared == (Tables { links: Map::empty(), group_names: Map::empty(), ..t })) by {
        let one = clear.drop_last();
        assert(one.drop_last() == Seq::<ChangeText>::empty());
        assert(after_all(t, one.drop_last()) == t);
        assert(after_all(t, one) == changed(t, ChangeText::ClearLinks));
    }
    lemma_link_changes(cleared, links.links);
    lemma_name_changes(after_all(cleared, linked), links.names);
}

/// The key under which the rows of a license are aggregated: its group where it
/// is linked, else its own key.
pub open spec fn group_key(t: Tables, key: Seq<char>) -> Seq<char> {
    if t.links.contains_key(key) {
        t.links[key]
    } else {
        key
    }
}

/// Once a list of groups is stored, a key that some group lists is aggregated
/// under the canonical key of the last group that lists it, and any other key
/// under itself.
pub proof fn law_linked_keys_aggregate(t: Tables, groups: Seq<JsonText>, key: Seq<char>)
    requires
        groups_text(groups) is Some,
    ensures
        ({
            let after = after_all(t, relink(groups_text(groups)->0));
            &&& forall|i: int|
                0 <= i < groups.len() && lists(#[trigger] groups[i], key) && (forall|j: int|
                    i < j < groups.len() ==> !lists(#[trigger] groups[j], key)) ==> group_key(
                    after,
                    key,
                ) == canonical_id(group_of(groups[i])->0)
            &&& (forall|i: int| 0 <= i < groups.len() ==> !lists(#[trigger] groups[i], key))
                ==> group_key(after, key) == key
        }),
{
    law_links_file_is_authoritative(t, groups_text(groups)->0);
    law_member_keys_roll_up(groups, key);
}

/// Storing labels sets those of their codes and keeps those of all others.
pub proof fn law_labels_of_other_codes_stay(t: Tables, labels: Seq<LabelText>, code: Seq<char>)
    ensures
        ({
            let after = after_all(t, label_changes(labels));
            &&& forall|i: int|
                0 <= i < labels.len() && (#[trigger] labels[i]).code == code && (forall|j: int|
                    i < j < labels.len() ==> (#[trigger] labels[j]).code != code)
                    ==> after.labels.contains_key(code) && after.labels[code] == labels[i]
            &&& (forall|i: int| 0 <= i < labels.len() ==> (#[trigger] labels[i]).code != code)
                ==> after.labels.contains_key(code) == t.labels.contains_key(code) && (
            t.labels.contains_key(code) ==> after.labels[code] == t.labels[code])
            &&& after.rows == t.rows
        }),
    decreases labels.len(),
{
    if labels.len() > 0 {
        let front = labels.drop_last();
        law_labels_of_other_codes_stay(t, front, code);
        assert(label_changes(labels).drop_last() == label_changes(front));
        let after = after_all(t, label_changes(labels));
        assert forall|i: int|
            0 <= i < labels.len() && (#[trigger] labels[i]).code == code && (forall|j: int|
                i < j < labels.len() ==> (
                #[trigger] labels[j]).code != code) implies after.labels.contains_key(code)
            && after.labels[code] == labels[i] by {
            if i < front.len() {
                assert(labels[labels.len() - 1].code != code);
                assert(front[i].code == code);
                assert forall|j: int| i < j < front.len() implies (#[trigger] front[j]).code
                    != code by {
                    assert(labels[j].code != code);
                }
            }
        }
        if forall|i: int| 0 <= i < labels.len() ==> (#[trigger] labels[i]).code != code {
            assert(labels[labels.len() - 1].code != code);
            assert forall|i: int| 0 <= i < front.len() implies (#[trigger] front[i]).code
                != code by {
                assert(labels[i].code != code);
            }
        }
    }
}

proof fn lemma_chain_changes(
    t: Tables,
    key: Seq<char>,
    chain: Seq<VersionText>,
    k: Seq<char>,
    label: Seq<char>,
)
    ensures
        ({
            let after = after_all(t, chain_changes(key, chain));
            &&& k != key ==> after.versions.contains_key((k, label)) == t.versions.contains_key(
                (k, label),
            ) && after.versions[(k, label)] == t.versions[(k, label)]
            &&& forall|i: int|
                k == key && is_last_seen_first(chain, i, label) ==> after.versions.contains_key(
                    (key, label),
                ) && #[trigger] chain[i] == after.versions[(key, label)]
            &&& after.rows == t.rows
        }),
    decreases chain.len(),
{
    if chain.len() > 0 {
        let front = chain.drop_last();
        lemma_chain_changes(t, key, front, k, label);
        assert(chain_changes(key, chain).drop_last() == chain_changes(key, front));
        let after = after_all(t, chain_changes(key, chain));
        assert forall|i: int|
            k == key && is_last_seen_first(chain, i, label) implies after.versions.contains_key(
            (key, label),
        ) && #[trigger] chain[i] == after.versions[(key, label)] by {
            if i < front.len() {
                assert(chain[chain.len() - 1].first_seen != label);
                assert(front[i] == chain[i]);
                assert(is_last_seen_first(front, i, label)) by {
                    assert forall|j: int| i < j < front.len() implies (
                    #[trigger] front[j]).first_seen != label by {
                        assert(chain[j].first_seen != label);
                    }
                }
            }
        }
    }
}

/// Whether version `i` is the last of those first seen in the snapshot of a
/// label.
pub open spec fn is_last_seen_first(chain: Seq<VersionText>, i: int, label: Seq<char>) -> bool {
    &&& 0 <= i < chain.len()
    &&& chain[i].first_seen == label
    &&& forall|j: int| i < j < chain.len() ==> (#[trigger] chain[j]).first_seen != label
}

/// Once the license dimension is stored, every license has its versions in the
/// table, whatever the order in which the licenses were stored. Where a license
/// changed within one snapshot, the last of the versions first seen in it stays.
pub proof fn law_versions_are_stored(
    t: Tables,
    versions: Versions,
    keys: Seq<Seq<char>>,
    key: Seq<char>,
    i: int,
)
    requires
        lists_all(keys, versions),
        versions.contains_key(key),
        is_last_seen_first(versions[key], i, versions[key][i].first_seen),
    ensures
        ({
            let after = after_all(t, version_changes(versions, keys));
            let label = versions[key][i].first_seen;
            after.versions.contains_key((key, label)) && after.versions[(key, label)]
                == versions[key][i]
        }),
{
    let at = choose|at: int| 0 <= at < keys.len() && keys[at] == key;
    lemma_versions_stored(t, versions, keys, key, i, at);
}

proof fn lemma_versions_stored(
    t: Tables,
    versions: Versions,
    keys: Seq<Seq<char>>,
    key: Seq<char>,
    i: int,
    at: int,
)
    requires
        forall|a: int, b: int| 0 <= a < b < keys.len() ==> #[trigger] keys[a] != #[trigger] keys[b],
        0 <= at < keys.len(),
        keys[at] == key,
        is_last_seen_first(versions[key], i, versions[key][i].first_seen),
    ensures
        ({
            let after = after_all(t, version_changes(versions, keys));
            let label = versions[key][i].first_seen;
            after.versions.contains_key((key, label)) && after.versions[(key, label)]
                == versions[key][i]
        }),
    decreases keys.len(),
{
    let front = keys.drop_last();
    let last = keys.last();
    let label = versions[key][i].first_seen;
    let before = after_all(t, version_changes(versions, front));
    lemma_after_append(t, version_changes(versions, front), chain_changes(last, versions[last]));
    lemma_chain_changes(before, last, versions[last], key, label);
    if at < front.len() {
        assert(keys[at] != keys[keys.len() - 1]);
        assert(front[at] == key);
        assert forall|a: int, b: int| 0 <= a < b < front.len() implies #[trigger] front[a]
            != #[trigger] front[b] by {
            assert(keys[a] != keys[b]);
        }
        lemma_versions_stored(t, versions, front, key, i, at);
    } else {
        assert(versions[key][i] == versions[last][i]);
    }
}

/// Whether snapshot `i` is the last one of its label and source file.
pub open spec fn is_last_of_file(snapshots: Seq<SnapshotText>, i: int) -> bool {
    &&& 0 <= i < snapshots.len()
    &&& forall|j: int|
        i < j < snapshots.len() ==> (#[trigger] snapshots[j]).label != snapshots[i].label
            || snapshots[j].source_file != snapshots[i].source_file
}

/// Once the license dimension is stored, there is a row for every ingested
/// snapshot file, also where several are of one month.
pub proof fn law_snapshots_are_noted(t: Tables, snapshots: Seq<SnapshotText>, i: int)
    requires
        is_last_of_file(snapshots, i),
    ensures
        ({
            let after = after_all(t, snapshot_changes(snapshots));
            let key = (snapshots[i].label, snapshots[i].source_file);
            after.snapshots.contains_key(key) && after.snapshots[key] == snapshots[i]
        }),
    decreases snapshots.len(),
{
    let front = snapshots.drop_last();
    assert(snapshot_changes(snapshots).drop_last() == snapshot_changes(front));
    if i < front.len() {
        let last = snapshots[snapshots.len() - 1];
        assert(last.label != snapshots[i].label || last.source_file != snapshots[i].source_file);
        assert forall|j: int| i < j < front.len() implies (#[trigger] front[j]).label
            != front[i].label || front[j].source_file != front[i].source_file by {
            assert(snapshots[j].label != snapshots[i].label || snapshots[j].source_file
                != snapshots[i].source_file);
        }
        law_snapshots_are_noted(t, front, i);
    }
}

/// The last of the versions that share a first snapshot.
pub proof fn lemma_last_seen_first_exists(chain: Seq<VersionText>, i: int) -> (last: int)
    requires
        0 <= i < chain.len(),
    ensures
        is_last_seen_first(chain, last, chain[i].first_seen),
    decreases chain.len() - i,
{
    if is_last_seen_first(chain, i, chain[i].first_seen) {
        i
    } else {
        let j = choose|j: int|
            i < j < chain.len() && (#[trigger] chain[j]).first_seen == chain[i].first_seen;
        lemma_last_seen_first_exists(chain, j)
    }
}

/// Once the license dimension is stored, the version that enriched a report row
/// is found by the key of the row and the first snapshot that the row names.
pub proof fn law_enriched_rows_find_their_version(
    t: Tables,
    versions: Versions,
    keys: Seq<Seq<char>>,
    key: Seq<char>,
    year: int,
)
    requires
        lists_all(keys, versions),
        effective(versions, key, year) is Some,
    ensures
        after_all(t, version_changes(versions, keys)).versions.contains_key(
            (key, effective(versions, key, year)->0.first_seen),
        ),
{
    let chain = versions[key];
    let i = effective_index(chain, year);
    law_effective_fits_best(chain, year);
    let last = lemma_last_seen_first_exists(chain, i);
    assert(chain[last].first_seen == chain[i].first_seen);
    law_versions_are_stored(t, versions, keys, key, last);
}

} // verus!
