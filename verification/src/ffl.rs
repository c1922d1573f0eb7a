//! The temporal license dimension.
//!
//! Every snapshot of the license list is folded into one store: for each
//! license, keyed by its RDS key, the distinct versions of its metadata over
//! time, each with the window of snapshots over which it was observed. Report
//! rows are enriched with the version effective for the year of the report, so
//! that historic rows line up with how the license looked at the time.

use crate::number::{decimal, decimal_of, padded, padded_of, parse_u32, unsigned};
use crate::text::{norm_text, normalize, trim, trimmed};
use vstd::hash_map::StringHashMap;
use vstd::prelude::*;

verus! {

/// The metadata of one license in one snapshot.
#[derive(Clone)]
pub struct FflRecord {
    pub lic_regn: String,
    pub lic_dist: String,
    pub lic_cnty: String,
    pub lic_type: String,
    pub lic_xprdte: String,
    pub lic_seqn: String,
    pub license_name: String,
    pub business_name: String,
    pub premise_street: String,
    pub premise_city: String,
    pub premise_state: String,
    pub premise_zip: String,
    pub mail_street: String,
    pub mail_city: String,
    pub mail_state: String,
    pub mail_zip: String,
    pub voice_phone: String,
}

/// What a record holds.
pub struct RecordText {
    pub lic_regn: Seq<char>,
    pub lic_dist: Seq<char>,
    pub lic_cnty: Seq<char>,
    pub lic_type: Seq<char>,
    pub lic_xprdte: Seq<char>,
    pub lic_seqn: Seq<char>,
    pub license_name: Seq<char>,
    pub business_name: Seq<char>,
    pub premise_street: Seq<char>,
    pub premise_city: Seq<char>,
    pub premise_state: Seq<char>,
    pub premise_zip: Seq<char>,
    pub mail_street: Seq<char>,
    pub mail_city: Seq<char>,
    pub mail_state: Seq<char>,
    pub mail_zip: Seq<char>,
    pub voice_phone: Seq<char>,
}

impl View for FflRecord {
    type V = RecordText;

    open spec fn view(&self) -> RecordText {
        RecordText {
            lic_regn: self.lic_regn@,
            lic_dist: self.lic_dist@,
            lic_cnty: self.lic_cnty@,
            lic_type: self.lic_type@,
            lic_xprdte: self.lic_xprdte@,
            lic_seqn: self.lic_seqn@,
            license_name: self.license_name@,
            business_name: self.business_name@,
            premise_street: self.premise_street@,
            premise_city: self.premise_city@,
            premise_state: self.premise_state@,
            premise_zip: self.premise_zip@,
            mail_street: self.mail_street@,
            mail_city: self.mail_city@,
            mail_state: self.mail_state@,
            mail_zip: self.mail_zip@,
            voice_phone: self.voice_phone@,
        }
    }
}

/// The record of which every field is empty.
pub open spec fn empty_record() -> RecordText {
    RecordText {
        lic_regn: Seq::empty(),
        lic_dist: Seq::empty(),
        lic_cnty: Seq::empty(),
        lic_type: Seq::empty(),
        lic_xprdte: Seq::empty(),
        lic_seqn: Seq::empty(),
        license_name: Seq::empty(),
        business_name: Seq::empty(),
        premise_street: Seq::empty(),
        premise_city: Seq::empty(),
        premise_state: Seq::empty(),
        premise_zip: Seq::empty(),
        mail_street: Seq::empty(),
        mail_city: Seq::empty(),
        mail_state: Seq::empty(),
        mail_zip: Seq::empty(),
        voice_phone: Seq::empty(),
    }
}

/// The RDS key of a record: the region, the district in two digits and the
/// sequence number in five. Only a record of which all three are numbers has
/// one.
pub open spec fn record_key(r: RecordText) -> Option<Seq<char>> {
    let max = u32::MAX as nat;
    match (
        unsigned(trimmed(r.lic_regn), max),
        unsigned(trimmed(r.lic_dist), max),
        unsigned(trimmed(r.lic_seqn), max),
    ) {
        (Some(regn), Some(dist), Some(seqn)) => Some(
            decimal(regn) + padded(dist, 2) + padded(seqn, 5),
        ),
        _ => None,
    }
}

/// Whether two records agree in every field but those that make up the key.
pub open spec fn same_content(a: RecordText, b: RecordText) -> bool {
    &&& a.lic_cnty == b.lic_cnty
    &&& a.lic_type == b.lic_type
    &&& a.lic_xprdte == b.lic_xprdte
    &&& a.license_name == b.license_name
    &&& a.business_name == b.business_name
    &&& a.premise_street == b.premise_street
    &&& a.premise_city == b.premise_city
    &&& a.premise_state == b.premise_state
    &&& a.premise_zip == b.premise_zip
    &&& a.mail_street == b.mail_street
    &&& a.mail_city == b.mail_city
    &&& a.mail_state == b.mail_state
    &&& a.mail_zip == b.mail_zip
    &&& a.voice_phone == b.voice_phone
}

impl Default for FflRecord {
    fn default() -> (r: FflRecord)
        ensures
            r@ == empty_record(),
    {
        FflRecord {
            lic_regn: String::new(),
            lic_dist: String::new(),
            lic_cnty: String::new(),
            lic_type: String::new(),
            lic_xprdte: String::new(),
            lic_seqn: String::new(),
            license_name: String::new(),
            business_name: String::new(),
            premise_street: String::new(),
            premise_city: String::new(),
            premise_state: String::new(),
            premise_zip: String::new(),
            mail_street: String::new(),
            mail_city: String::new(),
            mail_state: String::new(),
            mail_zip: String::new(),
            voice_phone: String::new(),
        }
    }
}

impl FflRecord {
    /// The key under which the reports name this license, such as `16600332`
    /// for region 1, district 66 and sequence number 332.
    pub fn rds_key(&self) -> (r: Option<String>)
        ensures
            match r {
                Some(k) => record_key(self@) == Some(k@),
                None => record_key(self@) is None,
            },
    {
        let regn: u32 = match parse_u32(trim(self.lic_regn.as_str()).as_str()) {
            Some(n) => n,
            None => return None,
        };
        let dist: u32 = match parse_u32(trim(self.lic_dist.as_str()).as_str()) {
            Some(n) => n,
            None => return None,
        };
        let seqn: u32 = match parse_u32(trim(self.lic_seqn.as_str()).as_str()) {
            Some(n) => n,
            None => return None,
        };
        let mut key = decimal_of(regn as u64);
        key.append(padded_of(dist as u64, 2).as_str());
        key.append(padded_of(seqn as u64, 5).as_str());
        Some(key)
    }

    /// Whether the metadata is the same as that of another record, so that two
    /// consecutive snapshots show one version.
    pub fn has_same_content(&self, other: &FflRecord) -> (r: bool)
        ensures
            r == same_content(self@, other@),
    {
        self.lic_cnty == other.lic_cnty
            && self.lic_type == other.lic_type
            && self.lic_xprdte == other.lic_xprdte
            && self.license_name == other.license_name
            && self.business_name == other.business_name
            && self.premise_street == other.premise_street
            && self.premise_city == other.premise_city
            && self.premise_state == other.premise_state
            && self.premise_zip == other.premise_zip
            && self.mail_street == other.mail_street
            && self.mail_city == other.mail_city
            && self.mail_state == other.mail_state
            && self.mail_zip == other.mail_zip
            && self.voice_phone == other.voice_phone
    }
}

/// One version of the metadata of a license and the window of snapshots, as
/// inclusive `YYYY-MM` labels, over which it was observed.
pub struct FflVersion {
    pub record: FflRecord,
    pub first_seen: String,
    pub last_seen: String,
    pub first_year: i32,
    pub last_year: i32,
    pub seq: u32,
}

/// What a version holds.
pub struct VersionText {
    pub record: RecordText,
    pub first_seen: Seq<char>,
    pub last_seen: Seq<char>,
    pub first_year: i32,
    pub last_year: i32,
    pub seq: u32,
}

impl View for FflVersion {
    type V = VersionText;

    open spec fn view(&self) -> VersionText {
        VersionText {
            record: self.record@,
            first_seen: self.first_seen@,
            last_seen: self.last_seen@,
            first_year: self.first_year,
            last_year: self.last_year,
            seq: self.seq,
        }
    }
}

/// What the versions of a license hold.
pub open spec fn chain_text(chain: Seq<FflVersion>) -> Seq<VersionText> {
    Seq::new(chain.len(), |i: int| chain[i]@)
}

/// A snapshot that was folded into the store, and how many of its rows had a
/// key.
pub struct SnapshotMeta {
    pub label: String,
    pub source_file: String,
    pub row_count: usize,
}

/// What the note of a snapshot holds.
pub struct SnapshotText {
    pub label: Seq<char>,
    pub source_file: Seq<char>,
    pub row_count: nat,
}

impl View for SnapshotMeta {
    type V = SnapshotText;

    open spec fn view(&self) -> SnapshotText {
        SnapshotText {
            label: self.label@,
            source_file: self.source_file@,
            row_count: self.row_count as nat,
        }
    }
}

/// A license and its versions in chronological order.
pub struct License {
    pub rds_key: String,
    pub chain: Vec<FflVersion>,
}

/// The versions of every license, by RDS key.
pub type Versions = Map<Seq<char>, Seq<VersionText>>;

/// The versions of a license, none where the key is unknown.
pub open spec fn chain_of(versions: Versions, key: Seq<char>) -> Seq<VersionText> {
    if versions.contains_key(key) {
        versions[key]
    } else {
        Seq::empty()
    }
}

/// The versions after a further observation: the same content as that of the
/// latest version stretches its window, any other begins a version.
pub open spec fn observed(
    chain: Seq<VersionText>,
    rec: RecordText,
    label: Seq<char>,
    year: i32,
) -> Seq<VersionText> {
    if chain.len() > 0 && same_content(chain.last().record, rec) {
        chain.update(
            chain.len() - 1,
            VersionText { last_seen: label, last_year: year, ..chain.last() },
        )
    } else {
        chain.push(
            VersionText {
                record: rec,
                first_seen: label,
                last_seen: label,
                first_year: year,
                last_year: year,
                seq: chain.len() as u32,
            },
        )
    }
}

/// The versions after one row of a snapshot; a row without a key adds nothing.
pub open spec fn with_record(
    versions: Versions,
    rec: RecordText,
    label: Seq<char>,
    year: i32,
) -> Versions {
    match record_key(rec) {
        Some(key) => versions.insert(key, observed(chain_of(versions, key), rec, label, year)),
        None => versions,
    }
}

/// The versions after the rows of a snapshot, in order.
pub open spec fn with_records(
    versions: Versions,
    records: Seq<RecordText>,
    label: Seq<char>,
    year: i32,
) -> Versions
    decreases records.len(),
{
    if records.len() == 0 {
        versions
    } else {
        with_record(
            with_records(versions, records.drop_last(), label, year),
            records.last(),
            label,
            year,
        )
    }
}

/// How many of the records have a key.
pub open spec fn keyed_count(records: Seq<RecordText>) -> nat
    decreases records.len(),
{
    if records.len() == 0 {
        0
    } else {
        keyed_count(records.drop_last()) + if record_key(records.last()) is Some {
            1nat
        } else {
            0nat
        }
    }
}

/// What a row of records holds.
pub open spec fn record_texts(records: Seq<FflRecord>) -> Seq<RecordText> {
    Seq::new(records.len(), |i: int| records[i]@)
}

/// By how many years the window of a version misses a year.
pub open spec fn year_gap(v: VersionText, year: int) -> int {
    if year < v.first_year {
        v.first_year - year
    } else if year > v.last_year {
        year - v.last_year
    } else {
        0
    }
}

/// Whether version `a` fits a year better than `b`: its window is nearer, or as
/// near and `a` is the later version.
pub open spec fn fits_better(a: VersionText, b: VersionText, year: int) -> bool {
    ||| year_gap(a, year) < year_gap(b, year)
    ||| year_gap(a, year) == year_gap(b, year) && a.seq > b.seq
}

/// The first of the versions that none fits better.
pub open spec fn effective_index(chain: Seq<VersionText>, year: int) -> int
    decreases chain.len(),
{
    if chain.len() <= 1 {
        0
    } else {
        let best = effective_index(chain.drop_last(), year);
        if fits_better(chain.last(), chain[best], year) {
            chain.len() - 1
        } else {
            best
        }
    }
}

/// The version of a license that is effective for a year.
pub open spec fn effective(versions: Versions, key: Seq<char>, year: int) -> Option<VersionText> {
    let chain = chain_of(versions, key);
    if chain.len() > 0 {
        Some(chain[effective_index(chain, year)])
    } else {
        None
    }
}

/// Whether a version carries the name, city and state, up to white space and
/// letter case.
pub open spec fn is_named(
    v: VersionText,
    name: Seq<char>,
    city: Seq<char>,
    state: Seq<char>,
) -> bool {
    &&& norm_text(v.record.license_name) == norm_text(name)
    &&& norm_text(v.record.premise_city) == norm_text(city)
    &&& norm_text(v.record.premise_state) == norm_text(state)
}

/// Whether some version of the license `key` carries the name, city and state.
pub open spec fn license_named(
    versions: Versions,
    key: Seq<char>,
    name: Seq<char>,
    city: Seq<char>,
    state: Seq<char>,
) -> bool {
    versions.contains_key(key) && exists|i: int|
        0 <= i < versions[key].len() && is_named(#[trigger] versions[key][i], name, city, state)
}

/// The key of the one license that carries the name, city and state. There is
/// none where the name is blank, where no license carries them and where more
/// than one does.
pub open spec fn only_license_named(
    versions: Versions,
    name: Seq<char>,
    city: Seq<char>,
    state: Seq<char>,
) -> Option<Seq<char>> {
    if norm_text(name).len() > 0 && exists|k: Seq<char>|
        is_only_license(versions, k, name, city, state) {
        Some(choose|k: Seq<char>| is_only_license(versions, k, name, city, state))
    } else {
        None
    }
}

pub open spec fn is_only_license(
    versions: Versions,
    key: Seq<char>,
    name: Seq<char>,
    city: Seq<char>,
    state: Seq<char>,
) -> bool {
    &&& license_named(versions, key, name, city, state)
    &&& forall|k: Seq<char>| license_named(versions, k, name, city, state) ==> k == key
}

/// The licenses in the order of their first appearance, with an index by key.
struct Table {
    licenses: Vec<License>,
    index: StringHashMap<usize>,
}

impl Table {
    /// The index names the position of every license, and nothing else.
    spec fn wf(&self) -> bool {
        &&& forall|i: int|
            0 <= i < self.licenses@.len() ==> {
                &&& self.index@.contains_key(#[trigger] self.licenses@[i].rds_key@)
                &&& self.index@[self.licenses@[i].rds_key@] == i
            }
        &&& forall|k: Seq<char>| #[trigger]
            self.index@.contains_key(k) ==> {
                &&& self.index@[k] < self.licenses@.len()
                &&& self.licenses@[self.index@[k] as int].rds_key@ == k
            }
    }

    spec fn versions(&self) -> Versions {
        Map::new(
            |k: Seq<char>| self.index@.contains_key(k),
            |k: Seq<char>| chain_text(self.licenses@[self.index@[k] as int].chain@),
        )
    }

    fn new() -> (r: Table)
        ensures
            r.wf(),
            r.versions() == Map::<Seq<char>, Seq<VersionText>>::empty(),
    {
        let r = Table { licenses: Vec::new(), index: StringHashMap::new() };
        assert(r.versions() =~= Map::<Seq<char>, Seq<VersionText>>::empty());
        r
    }

    fn add_record(&mut self, rec: FflRecord, label: &str, year: i32) -> (r: bool)
        requires
            old(self).wf(),
        ensures
            final(self).wf(),
            final(self).versions() == with_record(old(self).versions(), rec@, label@, year),
            r == (record_key(rec@) is Some),
    {
        let key = match rec.rds_key() {
            Some(k) => k,
            None => return false,
        };
        let ghost before = self.versions();
        let ghost rec_text = rec@;
        let found: Option<usize> = match self.index.get(key.as_str()) {
            Some(i) => Some(*i),
            None => None,
        };
        match found {
            Some(i) => {
                let ghost chain = chain_text(self.licenses@[i as int].chain@);
                assert(chain == chain_of(before, key@));
                observe(&mut self.licenses[i].chain, rec, label, year);
                assert(self.versions() =~= before.insert(
                    key@,
                    observed(chain, rec_text, label@, year),
                ));
            },
            None => {
                let mut chain: Vec<FflVersion> = Vec::new();
                assert(chain_text(chain@) == Seq::<VersionText>::empty());
                observe(&mut chain, rec, label, year);
                let n: usize = self.licenses.len();
                self.index.insert(key.clone(), n);
                self.licenses.push(License { rds_key: key, chain });
                assert(self.versions() =~= before.insert(key@, chain_text(chain@)));
            },
        }
        true
    }
}

/// Adds an observation to the versions of a license.
fn observe(chain: &mut Vec<FflVersion>, rec: FflRecord, label: &str, year: i32)
    ensures
        chain_text(final(chain)@) == observed(chain_text(old(chain)@), rec@, label@, year),
{
    let n: usize = chain.len();
    let ghost before = chain_text(chain@);
    if n > 0 && chain[n - 1].record.has_same_content(&rec) {
        chain[n - 1].last_seen = label.to_owned();
        chain[n - 1].last_year = year;
        assert(chain_text(chain@) =~= observed(before, rec@, label@, year));
    } else {
        let ghost rec_text = rec@;
        chain.push(
            FflVersion {
                record: rec,
                first_seen: label.to_owned(),
                last_seen: label.to_owned(),
                first_year: year,
                last_year: year,
                seq: n as u32,
            },
        );
        assert(chain_text(chain@) =~= observed(before, rec_text, label@, year));
    }
}

/// The license dimension: all versions of all licenses and the snapshots that
/// they were observed in.
pub struct FflStore {
    table: Table,
    snapshots: Vec<SnapshotMeta>,
}

/// What the store holds.
pub struct StoreText {
    pub versions: Versions,
    pub snapshots: Seq<SnapshotText>,
}

impl View for FflStore {
    type V = StoreText;

    closed spec fn view(&self) -> StoreText {
        StoreText {
            versions: self.table.versions(),
            snapshots: Seq::new(self.snapshots@.len(), |i: int| self.snapshots@[i]@),
        }
    }
}

/// The store after a further snapshot.
pub open spec fn with_snapshot(
    store: StoreText,
    label: Seq<char>,
    source_file: Seq<char>,
    year: i32,
    records: Seq<RecordText>,
) -> StoreText {
    StoreText {
        versions: with_records(store.versions, records, label, year),
        snapshots: store.snapshots.push(
            SnapshotText { label, source_file, row_count: keyed_count(records) },
        ),
    }
}

impl FflStore {
    #[verifier::type_invariant]
    spec fn wf(&self) -> bool {
        self.table.wf()
    }

    /// A store without licenses and without snapshots.
    pub fn new() -> (r: FflStore)
        ensures
            r@.versions == Map::<Seq<char>, Seq<VersionText>>::empty(),
            r@.snapshots == Seq::<SnapshotText>::empty(),
    {
        FflStore { table: Table::new(), snapshots: Vec::new() }
    }

    /// Folds the records of a further snapshot into the store.
    pub fn add_snapshot(
        self,
        label: &str,
        source_file: &str,
        year: i32,
        records: Vec<FflRecord>,
    ) -> (r: FflStore)
        ensures
            r@ == with_snapshot(self@, label@, source_file@, year, record_texts(records@)),
    {
        proof {
            use_type_invariant(&self);
        }
        let ghost before = self@;
        let ghost all = record_texts(records@);
        let mut table = self.table;
        let mut snapshots = self.snapshots;
        let mut count: usize = 0;
        let total: usize = records.len();
        for rec in it: records
            invariant
                table.wf(),
                it.seq() == records@,
                all == record_texts(records@),
                count == keyed_count(all.take(it.index() as int)),
                count <= it.index(),
                total == records@.len(),
                table.versions() == with_records(
                    before.versions,
                    all.take(it.index() as int),
                    label@,
                    year,
                ),
        {
            let ghost now = all.take(it.index() + 1);
            assert(now.drop_last() == all.take(it.index() as int));
            assert(now.last() == rec@);
            if table.add_record(rec, label, year) {
                count += 1;
            }
        }
        assert(all.take(all.len() as int) == all);
        snapshots.push(
            SnapshotMeta {
                label: label.to_owned(),
                source_file: source_file.to_owned(),
                row_count: count,
            },
        );
        let r = FflStore { table, snapshots };
        assert(r@.snapshots =~= with_snapshot(self@, label@, source_file@, year, all).snapshots);
        r
    }

    /// The licenses, each once, in the order of their first appearance.
    pub fn licenses(&self) -> (r: &Vec<License>)
        ensures
            forall|i: int, j: int|
                0 <= i < j < r@.len() ==> (#[trigger] r@[i]).rds_key@ != (#[trigger] r@[j]).rds_key@,
            forall|i: int| #![trigger r@[i]]
                0 <= i < r@.len() ==> self@.versions.contains_key(r@[i].rds_key@)
                    && self@.versions[r@[i].rds_key@] == chain_text(r@[i].chain@),
            forall|k: Seq<char>| #[trigger]
                self@.versions.contains_key(k) ==> exists|i: int|
                    0 <= i < r@.len() && (#[trigger] r@[i]).rds_key@ == k,
    {
        proof {
            use_type_invariant(self);
            assert forall|k: Seq<char>| #[trigger] self@.versions.contains_key(k) implies exists|
                i: int,
            |
                0 <= i < self.table.licenses@.len() && (
                #[trigger] self.table.licenses@[i]).rds_key@ == k by {
                let i = self.table.index@[k] as int;
                assert(self.table.licenses@[i].rds_key@ == k);
            }
        }
        &self.table.licenses
    }

    /// The snapshots in the order in which they were added.
    pub fn snapshots(&self) -> (r: &Vec<SnapshotMeta>)
        ensures
            self@.snapshots == Seq::new(r@.len(), |i: int| r@[i]@),
    {
        &self.snapshots
    }

    /// The version effective for a year: the one whose window holds the year,
    /// else the one whose window is nearest. Of versions that fit equally well
    /// the most recent is taken.
    pub fn version_for_year(&self, key: &str, year: i32) -> (r: Option<&FflVersion>)
        ensures
            match r {
                Some(v) => effective(self@.versions, key@, year as int) == Some(v@),
                None => effective(self@.versions, key@, year as int) is None,
            },
    {
        proof {
            use_type_invariant(self);
        }
        let at: usize = match self.table.index.get(key) {
            Some(i) => *i,
            None => return None,
        };
        let chain = &self.table.licenses[at].chain;
        let ghost all = chain_text(chain@);
        assert(all == chain_of(self@.versions, key@));
        if chain.len() == 0 {
            return None;
        }
        let mut best: usize = 0;
        let mut i: usize = 1;
        assert(effective_index(all.take(1), year as int) == 0);
        while i < chain.len()
            invariant
                all == chain_text(chain@),
                1 <= i <= chain@.len(),
                best < i,
                best == effective_index(all.take(i as int), year as int),
            decreases chain@.len() - i,
        {
            proof {
                let now = all.take(i + 1);
                assert(now.drop_last() == all.take(i as int));
                assert(now.last() == chain@[i as int]@);
                assert(now[best as int] == chain@[best as int]@);
            }
            if chain[i].fits_better_than(&chain[best], year) {
                best = i;
            }
            i += 1;
        }
        assert(all.take(i as int) == all);
        Some(&chain[best])
    }

    /// The RDS key of the only license of which some version carries the name,
    /// city and state, for a row that has no key of its own.
    pub fn synthesize_key(&self, name: &str, city: &str, state: &str) -> (r: Option<String>)
        ensures
            match r {
                Some(k) => only_license_named(self@.versions, name@, city@, state@) == Some(k@),
                None => only_license_named(self@.versions, name@, city@, state@) is None,
            },
    {
        proof {
            use_type_invariant(self);
        }
        let n = normalize(name);
        let c = normalize(city);
        let s = normalize(state);
        if n.as_str().is_empty() {
            return None;
        }
        let ghost versions = self@.versions;
        let licenses = &self.table.licenses;
        let mut found: Option<usize> = None;
        let mut i: usize = 0;
        while i < licenses.len()
            invariant
                self.table.wf(),
                licenses == &self.table.licenses,
                versions == self.table.versions(),
                n@ == norm_text(name@),
                c@ == norm_text(city@),
                s@ == norm_text(state@),
                i <= licenses@.len(),
                match found {
                    Some(f) => f < i && license_named(
                        versions,
                        licenses@[f as int].rds_key@,
                        name@,
                        city@,
                        state@,
                    ),
                    None => true,
                },
                forall|j: int|
                    0 <= j < i && found != Some(j as usize) ==> !license_named(
                        versions,
                        (#[trigger] licenses@[j]).rds_key@,
                        name@,
                        city@,
                        state@,
                    ),
            decreases licenses@.len() - i,
        {
            let ghost key = licenses@[i as int].rds_key@;
            assert(versions.contains_key(key));
            assert(versions[key] == chain_text(licenses@[i as int].chain@));
            if any_named(&licenses[i].chain, &n, &c, &s) {
                proof {
                    let v = choose|v: int|
                        0 <= v < licenses@[i as int].chain@.len() && names_match(
                            (#[trigger] licenses@[i as int].chain@[v])@,
                            n@,
                            c@,
                            s@,
                        );
                    assert(is_named(versions[key][v], name@, city@, state@));
                }
                if found.is_some() {
                    proof {
                        let other = licenses@[found->0 as int].rds_key@;
                        assert(license_named(versions, other, name@, city@, state@));
                        assert(license_named(versions, key, name@, city@, state@));
                        assert(other != key);
                    }
                    return None;
                }
                found = Some(i);
            } else {
                assert(!license_named(versions, key, name@, city@, state@)) by {
                    if license_named(versions, key, name@, city@, state@) {
                        let v = choose|v: int|
                            0 <= v < versions[key].len() && is_named(
                                #[trigger] versions[key][v],
                                name@,
                                city@,
                                state@,
                            );
                        assert(names_match(licenses@[i as int].chain@[v]@, n@, c@, s@));
                    }
                }
            }
            i += 1;
        }
        assert forall|k: Seq<char>| license_named(versions, k, name@, city@, state@) implies found
            is Some && licenses@[found->0 as int].rds_key@ == k by {
            let at = self.table.index@[k] as int;
            assert(licenses@[at].rds_key@ == k);
        }
        match found {
            Some(f) => {
                let key = licenses[f].rds_key.clone();
                assert(is_only_license(versions, key@, name@, city@, state@));
                Some(key)
            },
            None => None,
        }
    }
}

/// Whether a version carries the normalised name, city and state.
spec fn names_match(v: VersionText, n: Seq<char>, c: Seq<char>, s: Seq<char>) -> bool {
    &&& norm_text(v.record.license_name) == n
    &&& norm_text(v.record.premise_city) == c
    &&& norm_text(v.record.premise_state) == s
}

fn any_named(chain: &Vec<FflVersion>, n: &String, c: &String, s: &String) -> (r: bool)
    ensures
        r == exists|i: int|
            0 <= i < chain@.len() && names_match((#[trigger] chain@[i])@, n@, c@, s@),
{
    let mut i: usize = 0;
    while i < chain.len()
        invariant
            i <= chain@.len(),
            forall|j: int| 0 <= j < i ==> !names_match((#[trigger] chain@[j])@, n@, c@, s@),
        decreases chain@.len() - i,
    {
        let rec = &chain[i].record;
        if normalize(rec.license_name.as_str()) == *n && normalize(rec.premise_city.as_str()) == *c
            && normalize(rec.premise_state.as_str()) == *s {
            return true;
        }
        i += 1;
    }
    false
}

impl FflVersion {
    fn gap(&self, year: i32) -> (r: i64)
        ensures
            r == year_gap(self@, year as int),
    {
        if year < self.first_year {
            self.first_year as i64 - year as i64
        } else if year > self.last_year {
            year as i64 - self.last_year as i64
        } else {
            0
        }
    }

    /// Whether this version fits a year better than another.
    pub fn fits_better_than(&self, other: &FflVersion, year: i32) -> (r: bool)
        ensures
            r == fits_better(self@, other@, year as int),
    {
        let a: i64 = self.gap(year);
        let b: i64 = other.gap(year);
        a < b || (a == b && self.seq > other.seq)
    }
}

} // verus!
