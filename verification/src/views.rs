//! What the views of the database show, over the contents of its tables.

use crate::database::{
    after_all, chain_changes, changed, lists_all, version_changes, ChangeText, StoredRow, Tables,
};
use crate::database_laws::{
    group_key, is_last_seen_first, law_versions_are_stored, lemma_after_append,
};
use crate::ffl::{VersionText, Versions};
use crate::ffl_laws::{all_histories, is_history};
use crate::text::{law_text_order_is_total, law_text_order_is_transitive, text_before};
use vstd::prelude::*;

verus! {

/// The key and the first snapshot of a stored version.
pub type VersionKey = (Seq<char>, Seq<char>);

/// Whether there are finitely many versions and each is stored under its first
/// snapshot.
pub open spec fn versions_are_keyed(t: Tables) -> bool {
    &&& t.versions.dom().finite()
    &&& forall|p: VersionKey| #[trigger]
        t.versions.contains_key(p) ==> t.versions[p].first_seen == p.1
}

/// No change breaks the keys of the stored versions.
pub proof fn law_versions_stay_keyed(t: Tables, changes: Seq<ChangeText>)
    requires
        versions_are_keyed(t),
    ensures
        versions_are_keyed(after_all(t, changes)),
    decreases changes.len(),
{
    if changes.len() > 0 {
        law_versions_stay_keyed(t, changes.drop_last());
    }
}

/// The stored versions of a license.
pub open spec fn versions_of(t: Tables, key: Seq<char>) -> Set<VersionKey> {
    t.versions.dom().filter(|p: VersionKey| p.0 == key)
}

/// Whether no two stored versions of a license have the same number.
pub open spec fn has_unique_numbers(t: Tables, key: Seq<char>) -> bool {
    forall|p: VersionKey, q: VersionKey| #[trigger]
        versions_of(t, key).contains(p) && #[trigger] versions_of(t, key).contains(q)
            && t.versions[p].seq == t.versions[q].seq ==> p == q
}

/// Whether `ffl_current` shows a stored version: no other version of its license
/// has a greater number.
pub open spec fn shown_as_current(t: Tables, p: VersionKey) -> bool {
    t.versions.contains_key(p) && forall|q: VersionKey| #[trigger]
        versions_of(t, p.0).contains(q) ==> t.versions[q].seq <= t.versions[p].seq
}

proof fn lemma_greatest_number(t: Tables, rows: Set<VersionKey>) -> (p: VersionKey)
    requires
        rows.finite(),
        rows.len() > 0,
    ensures
        rows.contains(p),
        forall|q: VersionKey| #[trigger] rows.contains(q) ==> t.versions[q].seq <= t.versions[p].seq,
    decreases rows.len(),
{
    let a = rows.choose();
    let rest = rows.remove(a);
    if rest.len() == 0 {
        assert forall|q: VersionKey| #[trigger] rows.contains(q) implies q == a by {
            if q != a {
                assert(rest.contains(q));
            }
        }
        a
    } else {
        let b = lemma_greatest_number(t, rest);
        let best = if t.versions[b].seq < t.versions[a].seq {
            a
        } else {
            b
        };
        assert forall|q: VersionKey| #[trigger] rows.contains(q) implies t.versions[q].seq
            <= t.versions[best].seq by {
            if q != a {
                assert(rest.contains(q));
            }
        }
        best
    }
}

/// `ffl_current` shows exactly one version of every license that has any: the one
/// of the greatest number.
pub proof fn law_current_shows_one_version(t: Tables, key: Seq<char>)
    requires
        versions_are_keyed(t),
        has_unique_numbers(t, key),
        versions_of(t, key).len() > 0,
    ensures
        exists|p: VersionKey| p.0 == key && #[trigger] shown_as_current(t, p),
        forall|p: VersionKey, q: VersionKey|
            p.0 == key && q.0 == key && #[trigger] shown_as_current(t, p)
                && #[trigger] shown_as_current(t, q) ==> p == q,
{
    let rows = versions_of(t, key);
    let p = lemma_greatest_number(t, rows);
    assert(shown_as_current(t, p));
    assert forall|p: VersionKey, q: VersionKey|
        p.0 == key && q.0 == key && #[trigger] shown_as_current(t, p)
            && #[trigger] shown_as_current(t, q) implies p == q by {
        assert(rows.contains(p) && rows.contains(q));
    }
}

/// Whether a text is the earliest first snapshot of the stored versions of a
/// license.
pub open spec fn is_earliest(t: Tables, key: Seq<char>, first: Seq<char>) -> bool {
    &&& exists|p: VersionKey| #[trigger]
        versions_of(t, key).contains(p) && t.versions[p].first_seen == first
    &&& forall|p: VersionKey| #[trigger]
        versions_of(t, key).contains(p) ==> !text_before(t.versions[p].first_seen, first)
}

/// Whether a text is the latest last snapshot of the stored versions of a
/// license.
pub open spec fn is_latest(t: Tables, key: Seq<char>, last: Seq<char>) -> bool {
    &&& exists|p: VersionKey| #[trigger]
        versions_of(t, key).contains(p) && t.versions[p].last_seen == last
    &&& forall|p: VersionKey| #[trigger]
        versions_of(t, key).contains(p) ==> !text_before(last, t.versions[p].last_seen)
}

/// A row of `ffl_changes`.
pub struct ChangedLicense {
    pub rds_key: Seq<char>,
    pub versions: nat,
    pub first_seen: Seq<char>,
    pub last_seen: Seq<char>,
}

/// Whether `ffl_changes` shows a row: a license with more than one version, their
/// number and the window that they span.
pub open spec fn shown_as_changed(t: Tables, c: ChangedLicense) -> bool {
    &&& c.versions == versions_of(t, c.rds_key).len()
    &&& c.versions > 1
    &&& is_earliest(t, c.rds_key, c.first_seen)
    &&& is_latest(t, c.rds_key, c.last_seen)
}

proof fn lemma_not_after(a: Seq<char>, b: Seq<char>, c: Seq<char>)
    requires
        !text_before(b, a),
        text_before(b, c),
    ensures
        !text_before(c, a),
{
    law_text_order_is_total(a, b);
    law_text_order_is_total(a, c);
    law_text_order_is_total(b, c);
    if text_before(c, a) {
        law_text_order_is_transitive(b, c, a);
    }
}

proof fn lemma_earliest_exists(t: Tables, rows: Set<VersionKey>) -> (p: VersionKey)
    requires
        rows.finite(),
        rows.len() > 0,
    ensures
        rows.contains(p),
        forall|q: VersionKey| #[trigger]
            rows.contains(q) ==> !text_before(t.versions[q].first_seen, t.versions[p].first_seen),
    decreases rows.len(),
{
    let a = rows.choose();
    let rest = rows.remove(a);
    law_text_order_is_total(t.versions[a].first_seen, t.versions[a].first_seen);
    if rest.len() == 0 {
        assert forall|q: VersionKey| #[trigger] rows.contains(q) implies q == a by {
            if q != a {
                assert(rest.contains(q));
            }
        }
        a
    } else {
        let b = lemma_earliest_exists(t, rest);
        let x = t.versions[a].first_seen;
        let y = t.versions[b].first_seen;
        law_text_order_is_total(x, y);
        if text_before(x, y) {
            assert forall|q: VersionKey| #[trigger] rows.contains(q) implies !text_before(
                t.versions[q].first_seen,
                x,
            ) by {
                if q != a {
                    assert(rest.contains(q));
                    let z = t.versions[q].first_seen;
                    if text_before(z, x) {
                        law_text_order_is_transitive(z, x, y);
                    }
                }
            }
            a
        } else {
            assert forall|q: VersionKey| #[trigger] rows.contains(q) implies !text_before(
                t.versions[q].first_seen,
                y,
            ) by {
                if q != a {
                    assert(rest.contains(q));
                }
            }
            b
        }
    }
}

proof fn lemma_latest_exists(t: Tables, rows: Set<VersionKey>) -> (p: VersionKey)
    requires
        rows.finite(),
        rows.len() > 0,
    ensures
        rows.contains(p),
        forall|q: VersionKey| #[trigger]
            rows.contains(q) ==> !text_before(t.versions[p].last_seen, t.versions[q].last_seen),
    decreases rows.len(),
{
    let a = rows.choose();
    let rest = rows.remove(a);
    law_text_order_is_total(t.versions[a].last_seen, t.versions[a].last_seen);
    if rest.len() == 0 {
        assert forall|q: VersionKey| #[trigger] rows.contains(q) implies q == a by {
            if q != a {
                assert(rest.contains(q));
            }
        }
        a
    } else {
        let b = lemma_latest_exists(t, rest);
        let x = t.versions[a].last_seen;
        let y = t.versions[b].last_seen;
        law_text_order_is_total(x, y);
        if text_before(y, x) {
            assert forall|q: VersionKey| #[trigger] rows.contains(q) implies !text_before(
                x,
                t.versions[q].last_seen,
            ) by {
                if q != a {
                    assert(rest.contains(q));
                    lemma_not_after(t.versions[q].last_seen, y, x);
                }
            }
            a
        } else {
            assert forall|q: VersionKey| #[trigger] rows.contains(q) implies !text_before(
                y,
                t.versions[q].last_seen,
            ) by {
                if q != a {
                    assert(rest.contains(q));
                }
            }
            b
        }
    }
}

/// `ffl_changes` shows exactly one row for every license with more than one
/// version, with their number, the earliest of their first snapshots and the
/// latest of their last, and no row for any other license.
pub proof fn law_changes_show_one_row(t: Tables, key: Seq<char>)
    requires
        versions_are_keyed(t),
    ensures
        versions_of(t, key).len() > 1 <==> exists|c: ChangedLicense|
            c.rds_key == key && #[trigger] shown_as_changed(t, c),
        forall|c: ChangedLicense, d: ChangedLicense|
            c.rds_key == key && d.rds_key == key && #[trigger] shown_as_changed(t, c)
                && #[trigger] shown_as_changed(t, d) ==> c == d,
{
    let rows = versions_of(t, key);
    if rows.len() > 1 {
        let p = lemma_earliest_exists(t, rows);
        let q = lemma_latest_exists(t, rows);
        let c = ChangedLicense {
            rds_key: key,
            versions: rows.len(),
            first_seen: t.versions[p].first_seen,
            last_seen: t.versions[q].last_seen,
        };
        assert(is_earliest(t, key, c.first_seen));
        assert(is_latest(t, key, c.last_seen));
        assert(shown_as_changed(t, c));
    }
    assert forall|c: ChangedLicense, d: ChangedLicense|
        c.rds_key == key && d.rds_key == key && #[trigger] shown_as_changed(t, c)
            && #[trigger] shown_as_changed(t, d) implies c == d by {
        law_text_order_is_total(c.first_seen, d.first_seen);
        law_text_order_is_total(c.last_seen, d.last_seen);
    }
}

/// A row of `afmer_enriched`: a report row and the version whose columns stand
/// beside it, none where there is no such version.
pub struct EnrichedRow {
    pub row: StoredRow,
    pub license: Option<VersionText>,
}

/// Whether a stored version is joined to a report row: it is of the license of
/// the row and was first seen in the snapshot that the row names.
pub open spec fn joins(t: Tables, row: StoredRow, p: VersionKey) -> bool {
    t.versions.contains_key(p) && p.0 == row.row.rds_key && row.row.ffl_version_first_seen == Some(
        t.versions[p].first_seen,
    )
}

/// Whether `afmer_enriched` shows a row for a report row: with a version that is
/// joined to it, or without one where none is.
pub open spec fn shown_as_enriched(t: Tables, row: StoredRow, e: EnrichedRow) -> bool {
    &&& e.row == row
    &&& match e.license {
        Some(v) => exists|p: VersionKey| #[trigger] joins(t, row, p) && t.versions[p] == v,
        None => forall|p: VersionKey| !#[trigger] joins(t, row, p),
    }
}

/// The version that a report row names.
pub open spec fn license_of(t: Tables, row: StoredRow) -> Option<VersionText> {
    match row.row.ffl_version_first_seen {
        Some(label) => if t.versions.contains_key((row.row.rds_key, label)) {
            Some(t.versions[(row.row.rds_key, label)])
        } else {
            None
        },
        None => None,
    }
}

/// `afmer_enriched` shows every report row exactly once, with the columns of the
/// version that is stored for its license and the snapshot that it names.
pub proof fn law_enriched_shows_every_row_once(t: Tables, row: StoredRow, e: EnrichedRow)
    requires
        versions_are_keyed(t),
    ensures
        shown_as_enriched(t, row, e) <==> e == (EnrichedRow { row, license: license_of(t, row) }),
        forall|p: VersionKey, q: VersionKey| #[trigger]
            joins(t, row, p) && #[trigger] joins(t, row, q) ==> p == q,
{
    assert forall|p: VersionKey, q: VersionKey| #[trigger]
        joins(t, row, p) && #[trigger] joins(t, row, q) implies p == q by {
        assert(t.versions[p].first_seen == p.1);
        assert(t.versions[q].first_seen == q.1);
    }
    if let Some(label) = row.row.ffl_version_first_seen {
        let p = (row.row.rds_key, label);
        if t.versions.contains_key(p) {
            assert(joins(t, row, p));
        } else {
            assert forall|q: VersionKey| !#[trigger] joins(t, row, q) by {
                if joins(t, row, q) {
                    assert(t.versions[q].first_seen == q.1);
                }
            }
        }
    }
}

/// A row of `afmer_grouped`: a report row, the key under which it is aggregated
/// and the name of the group, where it has one.
pub struct GroupedRow {
    pub row: StoredRow,
    pub group_key: Seq<char>,
    pub group_name: Option<Seq<char>>,
}

/// Whether `afmer_grouped` shows a row for a report row: with a group that its
/// key is linked to, or its own key where it is linked to none, and with a name
/// of that group, or without one where it has none.
pub open spec fn shown_as_grouped(t: Tables, row: StoredRow, g: GroupedRow) -> bool {
    let key = row.row.rds_key;
    &&& g.row == row
    &&& t.links.contains_key(key) ==> g.group_key == t.links[key]
    &&& !t.links.contains_key(key) ==> g.group_key == key
    &&& match g.group_name {
        Some(name) => t.group_names.contains_key(g.group_key) && t.group_names[g.group_key]
            == name,
        None => !t.group_names.contains_key(g.group_key),
    }
}

/// The name of a group, where it has one.
pub open spec fn group_name_of(t: Tables, id: Seq<char>) -> Option<Seq<char>> {
    if t.group_names.contains_key(id) {
        Some(t.group_names[id])
    } else {
        None
    }
}

/// `afmer_grouped` shows every report row exactly once, with the key under which
/// it is aggregated and the name of that group.
pub proof fn law_grouped_shows_every_row_once(t: Tables, row: StoredRow, g: GroupedRow)
    ensures
        shown_as_grouped(t, row, g) <==> g == (GroupedRow {
            row,
            group_key: group_key(t, row.row.rds_key),
            group_name: group_name_of(t, group_key(t, row.row.rds_key)),
        }),
{
}

/// Every stored version of a license is one of its versions.
spec fn stems_from(t: Tables, versions: Versions) -> bool {
    forall|p: VersionKey| #[trigger]
        t.versions.contains_key(p) ==> versions.contains_key(p.0) && exists|i: int|
            0 <= i < versions[p.0].len() && #[trigger] versions[p.0][i] == t.versions[p]
}

proof fn lemma_chain_stems(t: Tables, versions: Versions, key: Seq<char>, n: int)
    requires
        stems_from(t, versions),
        versions.contains_key(key),
        0 <= n <= versions[key].len(),
    ensures
        stems_from(after_all(t, chain_changes(key, versions[key].take(n))), versions),
    decreases n,
{
    let chain = versions[key];
    let changes = chain_changes(key, chain.take(n));
    if n > 0 {
        lemma_chain_stems(t, versions, key, n - 1);
        assert(changes.drop_last() == chain_changes(key, chain.take(n - 1)));
        assert(changes.last() == ChangeText::SetVersion(key, chain[n - 1]));
        let before = after_all(t, changes.drop_last());
        let after = after_all(t, changes);
        assert(after == changed(before, changes.last()));
        assert forall|p: VersionKey| #[trigger]
            after.versions.contains_key(p) implies versions.contains_key(p.0) && exists|i: int|
            0 <= i < versions[p.0].len() && #[trigger] versions[p.0][i] == after.versions[p] by {
            if p == (key, chain[n - 1].first_seen) {
                assert(versions[p.0][n - 1] == after.versions[p]);
            } else {
                assert(before.versions.contains_key(p));
            }
        }
    }
}

proof fn lemma_all_stem(t: Tables, versions: Versions, keys: Seq<Seq<char>>)
    requires
        stems_from(t, versions),
        forall|i: int| 0 <= i < keys.len() ==> versions.contains_key(#[trigger] keys[i]),
    ensures
        stems_from(after_all(t, version_changes(versions, keys)), versions),
    decreases keys.len(),
{
    if keys.len() > 0 {
        let front = keys.drop_last();
        let key = keys.last();
        assert(versions.contains_key(keys[keys.len() - 1]));
        assert forall|i: int| 0 <= i < front.len() implies versions.contains_key(
            #[trigger] front[i],
        ) by {
            assert(versions.contains_key(keys[i]));
        }
        lemma_all_stem(t, versions, front);
        lemma_after_append(
            t,
            version_changes(versions, front),
            chain_changes(key, versions[key]),
        );
        lemma_chain_stems(
            after_all(t, version_changes(versions, front)),
            versions,
            key,
            versions[key].len() as int,
        );
        assert(versions[key].take(versions[key].len() as int) == versions[key]);
    }
}

/// Once the license dimension is stored in a database without versions,
/// `ffl_current` shows the latest version of every license, and no other version
/// of it.
pub proof fn law_current_is_the_latest_version(
    t: Tables,
    versions: Versions,
    keys: Seq<Seq<char>>,
    key: Seq<char>,
    label: Seq<char>,
)
    requires
        t.versions == Map::<VersionKey, VersionText>::empty(),
        lists_all(keys, versions),
        all_histories(versions),
        versions.contains_key(key),
        versions[key].len() <= u32::MAX,
    ensures
        ({
            let after = after_all(t, version_changes(versions, keys));
            let latest = versions[key].last();
            &&& shown_as_current(after, (key, label)) <==> label == latest.first_seen
            &&& after.versions[(key, latest.first_seen)] == latest
        }),
{
    let after = after_all(t, version_changes(versions, keys));
    let chain = versions[key];
    assert(is_history(chain));
    let n = chain.len() - 1;
    let latest = chain.last();
    let p = (key, latest.first_seen);
    assert(is_last_seen_first(chain, n, chain[n].first_seen));
    law_versions_are_stored(t, versions, keys, key, n);
    lemma_all_stem(t, versions, keys);
    assert(latest.seq == n as u32);
    assert forall|q: VersionKey| #[trigger] versions_of(after, key).contains(q) implies
        after.versions[q].seq <= latest.seq && (after.versions[q].seq == latest.seq
        ==> after.versions[q] == latest) by {
        assert(after.versions.contains_key(q));
        let i = choose|i: int|
            0 <= i < versions[q.0].len() && #[trigger] versions[q.0][i] == after.versions[q];
        assert(chain[i].seq == i as u32);
    }
    assert(shown_as_current(after, p));
    if shown_as_current(after, (key, label)) {
        let q = (key, label);
        assert(versions_of(after, key).contains(p));
        assert(versions_of(after, key).contains(q));
        assert(after.versions[q] == latest);
        lemma_keyed(t, version_changes(versions, keys), q);
    }
}

proof fn lemma_keyed(t: Tables, changes: Seq<ChangeText>, p: VersionKey)
    requires
        t.versions == Map::<VersionKey, VersionText>::empty(),
        after_all(t, changes).versions.contains_key(p),
    ensures
        after_all(t, changes).versions[p].first_seen == p.1,
{
    assert(t.versions.dom() =~= Set::<VersionKey>::empty());
    law_versions_stay_keyed(t, changes);
}

} // verus!
