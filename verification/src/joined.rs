//! Records that several sections or sheets give for one license, joined by RDS
//! key.

use crate::ffl::{effective, FflStore, FflVersion, VersionText, Versions};
use crate::pdf::{matched_count, row_texts, AfmerRow, NameSource, RowText};
use vstd::hash_map::StringHashMap;
use vstd::prelude::*;

verus! {

/// What one section or sheet says of a license.
pub struct Rec {
    pub lic_type: String,
    pub name: String,
    pub street: String,
    pub city: String,
    pub state: String,
    pub counts: [i64; 22],
    /// Whether the name or city was resolved against the license dimension.
    pub resolved: bool,
}

/// What a record holds.
pub struct RecText {
    pub lic_type: Seq<char>,
    pub name: Seq<char>,
    pub street: Seq<char>,
    pub city: Seq<char>,
    pub state: Seq<char>,
    pub counts: Seq<i64>,
    pub resolved: bool,
}

impl View for Rec {
    type V = RecText;

    open spec fn view(&self) -> RecText {
        RecText {
            lic_type: self.lic_type@,
            name: self.name@,
            street: self.street@,
            city: self.city@,
            state: self.state@,
            counts: self.counts@,
            resolved: self.resolved,
        }
    }
}

/// Records by key, in the order of their first appearance.
pub type Entries = Seq<(Seq<char>, RecText)>;

pub open spec fn no_counts() -> Seq<i64> {
    Seq::new(22, |i: int| 0i64)
}

/// The record of which every field is empty and every count zero.
pub open spec fn blank_rec() -> RecText {
    RecText {
        lic_type: Seq::empty(),
        name: Seq::empty(),
        street: Seq::empty(),
        city: Seq::empty(),
        state: Seq::empty(),
        counts: no_counts(),
        resolved: false,
    }
}

/// The first of two texts unless it is empty.
pub open spec fn first_filled(a: Seq<char>, b: Seq<char>) -> Seq<char> {
    if a.len() == 0 {
        b
    } else {
        a
    }
}

/// Two records of one license as one: a field keeps its first text, a count
/// takes the latest number that is not zero.
pub open spec fn merged(a: RecText, b: RecText) -> RecText {
    RecText {
        lic_type: first_filled(a.lic_type, b.lic_type),
        name: first_filled(a.name, b.name),
        street: first_filled(a.street, b.street),
        city: first_filled(a.city, b.city),
        state: first_filled(a.state, b.state),
        counts: Seq::new(
            22,
            |i: int|
                if b.counts[i] != 0 {
                    b.counts[i]
                } else {
                    a.counts[i]
                },
        ),
        resolved: a.resolved || b.resolved,
    }
}

/// The position of a key among the entries, or their number where it is new.
pub open spec fn key_position(entries: Entries, key: Seq<char>) -> int
    decreases entries.len(),
{
    if entries.len() == 0 || entries[0].0 == key {
        0
    } else {
        1 + key_position(entries.skip(1), key)
    }
}

/// The entries with a further record: joined to the entry of its key, or as a
/// new entry at the end.
pub open spec fn with_entry(entries: Entries, key: Seq<char>, rec: RecText) -> Entries {
    let i = key_position(entries, key);
    if i < entries.len() {
        entries.update(i, (key, merged(entries[i].1, rec)))
    } else {
        entries.push((key, rec))
    }
}

/// The row of a license in a report.
pub open spec fn entry_row(
    key: Seq<char>,
    rec: RecText,
    version: Option<VersionText>,
    source: NameSource,
) -> RowText {
    RowText {
        rds_key: key,
        app_lic_type: rec.lic_type,
        app_license_name: rec.name,
        app_premise_street: rec.street,
        app_premise_city: rec.city,
        app_premise_state: rec.state,
        counts: rec.counts,
        ffl_version_first_seen: match version {
            Some(v) => Some(v.first_seen),
            None => None,
        },
        name_source: source,
    }
}

/// Where the name of an entry comes from: a workbook holds it in a column of
/// its own; in the text of a report it was found by the license dimension or by
/// the house number.
pub open spec fn entry_source(rec: RecText, workbook: bool) -> NameSource {
    if workbook {
        NameSource::Xlsx
    } else if rec.resolved {
        NameSource::FflPrefix
    } else {
        NameSource::Heuristic
    }
}

/// The rows of the entries, each with the version of its license that is
/// effective for the year.
pub open spec fn entry_rows(
    entries: Entries,
    workbook: bool,
    year: int,
    versions: Versions,
) -> Seq<RowText> {
    Seq::new(
        entries.len(),
        |i: int|
            entry_row(
                entries[i].0,
                entries[i].1,
                effective(versions, entries[i].0, year),
                entry_source(entries[i].1, workbook),
            ),
    )
}

pub proof fn lemma_key_position(entries: Entries, key: Seq<char>)
    ensures
        0 <= key_position(entries, key) <= entries.len(),
        forall|i: int| 0 <= i < key_position(entries, key) ==> (#[trigger] entries[i]).0 != key,
        key_position(entries, key) < entries.len() ==> entries[key_position(entries, key)].0 == key,
    decreases entries.len(),
{
    if entries.len() == 0 || entries[0].0 == key {
    } else {
        lemma_key_position(entries.skip(1), key);
        assert forall|i: int| 0 <= i < key_position(entries, key) implies (
        #[trigger] entries[i]).0 != key by {
            if i > 0 {
                assert(entries[i] == entries.skip(1)[i - 1]);
            }
        }
    }
}

impl Rec {
    pub fn blank() -> (r: Rec)
        ensures
            r@ == blank_rec(),
    {
        let r = Rec {
            lic_type: String::new(),
            name: String::new(),
            street: String::new(),
            city: String::new(),
            state: String::new(),
            counts: [0i64;22],
            resolved: false,
        };
        assert(r@.counts =~= no_counts());
        r
    }

    /// Takes over what a further record of the same license adds.
    pub fn merge(&mut self, other: Rec)
        ensures
            final(self)@ == merged(old(self)@, other@),
    {
        if self.lic_type.as_str().is_empty() {
            self.lic_type = other.lic_type;
        }
        if self.name.as_str().is_empty() {
            self.name = other.name;
        }
        if self.street.as_str().is_empty() {
            self.street = other.street;
        }
        if self.city.as_str().is_empty() {
            self.city = other.city;
        }
        if self.state.as_str().is_empty() {
            self.state = other.state;
        }
        self.resolved = self.resolved || other.resolved;
        let ghost before = self.counts@;
        let mut counts = self.counts;
        let mut j: usize = 0;
        while j < 22
            invariant
                j <= 22,
                forall|k: int|
                    0 <= k < 22 ==> #[trigger] counts@[k] == if k < j && other.counts@[k] != 0 {
                        other.counts@[k]
                    } else {
                        before[k]
                    },
            decreases 22 - j,
        {
            if other.counts[j] != 0 {
                counts[j] = other.counts[j];
            }
            j += 1;
        }
        self.counts = counts;
        assert(self.counts@ =~= merged(old(self)@, other@).counts);
    }

    /// The row of the license that the record describes.
    pub fn into_row(self, key: String, version: Option<&FflVersion>, source: NameSource) -> (r:
        AfmerRow)
        ensures
            r@ == entry_row(
                key@,
                self@,
                match version {
                    Some(v) => Some(v@),
                    None => None,
                },
                source,
            ),
    {
        AfmerRow {
            rds_key: key,
            app_lic_type: self.lic_type,
            app_license_name: self.name,
            app_premise_street: self.street,
            app_premise_city: self.city,
            app_premise_state: self.state,
            counts: self.counts,
            ffl_version_first_seen: match version {
                Some(v) => Some(v.first_seen.clone()),
                None => None,
            },
            name_source: source,
        }
    }
}

/// A record and the key of its license.
pub struct Entry {
    pub key: String,
    pub rec: Rec,
}

/// What the entries hold.
pub open spec fn entry_texts(entries: Seq<Entry>) -> Entries {
    Seq::new(entries.len(), |i: int| (entries[i].key@, entries[i].rec@))
}

/// Records joined by key.
pub struct Joined {
    entries: Vec<Entry>,
    index: StringHashMap<usize>,
}

impl View for Joined {
    type V = Entries;

    closed spec fn view(&self) -> Entries {
        entry_texts(self.entries@)
    }
}

impl Joined {
    /// The index names the position of every key, and nothing else.
    pub closed spec fn wf(&self) -> bool {
        &&& forall|i: int|
            0 <= i < self.entries@.len() ==> {
                &&& self.index@.contains_key(#[trigger] self.entries@[i].key@)
                &&& self.index@[self.entries@[i].key@] == i
            }
        &&& forall|k: Seq<char>| #[trigger]
            self.index@.contains_key(k) ==> {
                &&& self.index@[k] < self.entries@.len()
                &&& self.entries@[self.index@[k] as int].key@ == k
            }
    }

    pub fn new() -> (r: Joined)
        ensures
            r.wf(),
            r@ == Seq::<(Seq<char>, RecText)>::empty(),
    {
        let r = Joined { entries: Vec::new(), index: StringHashMap::new() };
        assert(r@ =~= Seq::<(Seq<char>, RecText)>::empty());
        r
    }

    /// Joins a further record.
    pub fn add(&mut self, key: &str, rec: Rec)
        requires
            old(self).wf(),
        ensures
            final(self).wf(),
            final(self)@ == with_entry(old(self)@, key@, rec@),
    {
        let ghost before = self@;
        let ghost text = rec@;
        let found: Option<usize> = match self.index.get(key) {
            Some(i) => Some(*i),
            None => None,
        };
        proof {
            lemma_key_position(before, key@);
            let p = key_position(before, key@);
            if p < before.len() {
                assert(before[p].0 == self.entries@[p].key@);
            }
            if let Some(i) = found {
                assert(before[i as int].0 == key@);
                if p < i {
                    assert(self.entries@[p].key@ == self.entries@[i as int].key@);
                }
            }
        }
        match found {
            Some(i) => {
                self.entries[i].rec.merge(rec);
                assert(self@ =~= with_entry(before, key@, text));
            },
            None => {
                let n: usize = self.entries.len();
                self.index.insert(key.to_owned(), n);
                self.entries.push(Entry { key: key.to_owned(), rec });
                assert(self@ =~= with_entry(before, key@, text));
            },
        }
    }

    /// The joined records in the order of the first appearance of their keys.
    pub fn into_entries(self) -> (r: Vec<Entry>)
        ensures
            entry_texts(r@) == self@,
    {
        self.entries
    }
}

/// The rows of the entries, and how many of them have a license of which a
/// version is known.
pub fn rows_of(entries: Vec<Entry>, workbook: bool, year: i32, ffl: &FflStore) -> (r: (
    Vec<AfmerRow>,
    usize,
))
    ensures
        row_texts(r.0@) == entry_rows(
            entry_texts(entries@),
            workbook,
            year as int,
            ffl@.versions,
        ),
        r.1 == matched_count(row_texts(r.0@)),
{
    let ghost all = entries@;
    let ghost expected = entry_rows(entry_texts(all), workbook, year as int, ffl@.versions);
    let total: usize = entries.len();
    let mut rows: Vec<AfmerRow> = Vec::new();
    let mut matched: usize = 0;
    for entry in it: entries
        invariant
            it.seq() == all,
            total == all.len(),
            expected == entry_rows(entry_texts(all), workbook, year as int, ffl@.versions),
            row_texts(rows@) == expected.take(it.index() as int),
            rows@.len() == it.index(),
            matched == matched_count(row_texts(rows@)),
            matched <= it.index(),
    {
        let ghost before = row_texts(rows@);
        let Entry { key, rec } = entry;
        let source = if workbook {
            NameSource::Xlsx
        } else if rec.resolved {
            NameSource::FflPrefix
        } else {
            NameSource::Heuristic
        };
        let version = ffl.version_for_year(key.as_str(), year);
        if version.is_some() {
            matched += 1;
        }
        let ghost at = it.index() as int;
        assert(entry_texts(all)[at] == (key@, rec@));
        let row = rec.into_row(key, version, source);
        let ghost added = row@;
        assert(added == expected[at]);
        rows.push(row);
        assert(row_texts(rows@) =~= before.push(added));
        assert(row_texts(rows@).drop_last() == before);
        assert(row_texts(rows@) =~= expected.take(at + 1));
    }
    assert(expected.take(total as int) == expected);
    (rows, matched)
}

/// No two entries have the same key.
pub open spec fn keys_distinct(entries: Entries) -> bool {
    forall|i: int, j: int|
        0 <= i < j < entries.len() ==> (#[trigger] entries[i]).0 != (#[trigger] entries[j]).0
}

/// Joining keeps one entry per key, and keeps the entries of other keys where
/// and as they are.
pub proof fn law_join_keeps_one_entry_per_key(entries: Entries, key: Seq<char>, rec: RecText)
    requires
        keys_distinct(entries),
    ensures
        keys_distinct(with_entry(entries, key, rec)),
        entries.len() <= with_entry(entries, key, rec).len() <= entries.len() + 1,
        forall|i: int|
            0 <= i < entries.len() ==> with_entry(entries, key, rec)[i].0 == (
            #[trigger] entries[i]).0,
        forall|i: int|
            0 <= i < entries.len() && (#[trigger] entries[i]).0 != key ==> with_entry(
                entries,
                key,
                rec,
            )[i] == entries[i],
        exists|i: int|
            0 <= i < with_entry(entries, key, rec).len() && (#[trigger] with_entry(
                entries,
                key,
                rec,
            )[i]).0 == key,
{
    lemma_key_position(entries, key);
    let out = with_entry(entries, key, rec);
    let p = key_position(entries, key);
    assert(out[p].0 == key);
}

/// Counts from sections that fill different columns all come through, whichever
/// section is joined first.
pub proof fn law_join_unites_counts(a: RecText, b: RecText, i: int)
    requires
        0 <= i < 22,
        a.counts.len() == 22,
        b.counts.len() == 22,
        a.counts[i] == 0 || b.counts[i] == 0,
    ensures
        merged(a, b).counts[i] == merged(b, a).counts[i],
        a.counts[i] != 0 ==> merged(a, b).counts[i] == a.counts[i],
        b.counts[i] != 0 ==> merged(a, b).counts[i] == b.counts[i],
{
}

} // verus!
