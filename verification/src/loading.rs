//! Loading the license dimension, one snapshot file after the other.

use crate::cells::{sheet_text, Cell};
use crate::ffl::{
    record_key, record_texts, with_records, with_snapshot, FflRecord, FflStore, RecordText, StoreText,
};
use crate::ffl_laws::{
    all_chronological, all_histories, all_in_label_order, all_keyed, law_keyed_records_are_counted,
    law_labels_stay_in_order,
    law_versions_carry_their_key, law_versions_differ, law_windows_stay_chronological,
    lemma_later_label,
};
use crate::records::{csv_table, read_csv, read_xlsx, sheet_records, table_records};
use crate::snapshots::{
    dated, has_one_negative_year, is_load_order, is_ordered, labels_ascend,
    law_load_order_labels_ascend, load_order, loads_before, order_text, DatedText, Snapshot,
};
use crate::text::texts;
use vstd::prelude::*;

verus! {

/// What was read from a file of the license list.
pub enum Contents {
    /// The bytes of a CSV document.
    Csv(Vec<u8>),
    /// The first worksheet of a workbook, where it has one.
    Sheet(Option<Vec<Vec<Cell>>>),
    /// A file of another type.
    Other,
}

/// Why the license list cannot be loaded.
pub enum FflError {
    /// None of the files has a date in its name.
    NoSnapshots,
    /// A file is neither a CSV document nor a workbook.
    UnsupportedType,
    /// A workbook has no worksheets.
    NoWorksheet,
    /// A CSV document cannot be read.
    Csv(csv::Error),
}

/// The records of a file, none where it cannot be read.
pub open spec fn contents_records(contents: Contents) -> Option<Seq<RecordText>> {
    match contents {
        Contents::Csv(data) => match csv_table(data@) {
            Some(t) => Some(table_records(t.0, t.1)),
            None => None,
        },
        Contents::Sheet(Some(rows)) => Some(sheet_records(sheet_text(rows@))),
        _ => None,
    }
}

/// Whether an error tells why a file cannot be read.
pub open spec fn is_read_error(contents: Contents, e: FflError) -> bool {
    match contents {
        Contents::Csv(_) => e is Csv,
        Contents::Sheet(_) => e is NoWorksheet,
        Contents::Other => e is UnsupportedType,
    }
}

/// The records of a file of the license list.
pub fn read_records(contents: &Contents) -> (r: Result<Vec<FflRecord>, FflError>)
    ensures
        match contents_records(*contents) {
            Some(records) => r matches Ok(rs) && record_texts(rs@) == records,
            None => r matches Err(e) && is_read_error(*contents, e),
        },
{
    match contents {
        Contents::Csv(data) => match read_csv(data.as_slice()) {
            Ok(records) => Ok(records),
            Err(e) => Err(FflError::Csv(e)),
        },
        Contents::Sheet(Some(rows)) => Ok(read_xlsx(rows)),
        Contents::Sheet(None) => Err(FflError::NoWorksheet),
        Contents::Other => Err(FflError::UnsupportedType),
    }
}

/// A load in progress: the files in their order, how many of them were taken,
/// and what they gave.
pub struct Loading {
    order: Vec<Snapshot>,
    taken: usize,
    store: FflStore,
}

/// What a load in progress holds.
pub struct LoadingText {
    pub order: Seq<DatedText>,
    pub taken: int,
    pub store: StoreText,
}

impl View for Loading {
    type V = LoadingText;

    closed spec fn view(&self) -> LoadingText {
        LoadingText {
            order: order_text(self.order@),
            taken: self.taken as int,
            store: self.store@,
        }
    }
}

/// The load after the records of its next file.
pub open spec fn with_file(
    loading: LoadingText,
    source_file: Seq<char>,
    records: Seq<RecordText>,
) -> LoadingText {
    let snap = loading.order[loading.taken];
    LoadingText {
        order: loading.order,
        taken: loading.taken + 1,
        store: with_snapshot(loading.store, snap.label, source_file, snap.year, records),
    }
}

/// What every load in progress keeps: of each license the versions carry its key
/// and differ from their neighbours, and their windows, by year and by label,
/// follow each other and do not reach past the latest snapshot.
pub open spec fn is_sound(loading: LoadingText) -> bool {
    &&& 0 <= loading.taken <= loading.order.len()
    &&& is_ordered(loading.order)
    &&& all_histories(loading.store.versions)
    &&& all_keyed(loading.store.versions)
    &&& loading.taken == 0 ==> loading.store.versions.dom() == Set::<Seq<char>>::empty()
    &&& loading.taken > 0 ==> all_chronological(
        loading.store.versions,
        loading.order[loading.taken - 1].year as int,
    )
    &&& loading.taken > 0 && labels_ascend(loading.order) ==> all_in_label_order(
        loading.store.versions,
        loading.order[loading.taken - 1].label,
    )
}

/// Taking a further file keeps what every load keeps.
pub proof fn law_loading_stays_sound(
    loading: LoadingText,
    source_file: Seq<char>,
    records: Seq<RecordText>,
)
    requires
        is_sound(loading),
        loading.taken < loading.order.len(),
    ensures
        is_sound(with_file(loading, source_file, records)),
{
    let snap = loading.order[loading.taken];
    let versions = loading.store.versions;
    law_versions_differ(versions, records, snap.label, snap.year);
    law_versions_carry_their_key(versions, records, snap.label, snap.year);
    if labels_ascend(loading.order) {
        if loading.taken > 0 {
            lemma_later_label(versions, loading.order[loading.taken - 1].label, snap.label);
        } else {
            assert forall|k: Seq<char>| #[trigger]
                versions.contains_key(k) implies crate::ffl_laws::is_in_label_order(
                versions[k],
                snap.label,
            ) by {
                assert(versions.dom().contains(k));
            }
        }
        law_labels_stay_in_order(versions, records, snap.label, snap.year);
    }
    assert(all_chronological(versions, snap.year as int)) by {
        if loading.taken > 0 {
            let last = loading.order[loading.taken - 1];
            assert(loads_before(last, snap));
            assert forall|k: Seq<char>| #[trigger]
                versions.contains_key(k) implies crate::ffl_laws::is_chronological(
                versions[k],
                snap.year as int,
            ) by {
                assert(crate::ffl_laws::is_chronological(versions[k], last.year as int));
            }
        } else {
            assert forall|k: Seq<char>| #[trigger]
                versions.contains_key(k) implies crate::ffl_laws::is_chronological(
                versions[k],
                snap.year as int,
            ) by {
                assert(versions.dom().contains(k));
            }
        }
    }
    law_windows_stay_chronological(versions, records, snap.label, snap.year);
}

impl Loading {
    #[verifier::type_invariant]
    spec fn wf(&self) -> bool {
        is_sound(self@)
    }

    /// Begins a load of the named files. Files without a date in their names are
    /// left out; there must be at least one other.
    pub fn start(stems: &Vec<String>) -> (r: Result<Loading, FflError>)
        ensures
            match r {
                Ok(l) => {
                    &&& l@.order.len() > 0
                    &&& is_load_order(l@.order, texts(stems@), stems@.len() as int)
                    &&& has_one_negative_year(l@.order) ==> labels_ascend(l@.order)
                    &&& l@.taken == 0
                    &&& l@.store.versions == Map::<Seq<char>, Seq<crate::ffl::VersionText>>::empty()
                    &&& l@.store.snapshots == Seq::<crate::ffl::SnapshotText>::empty()
                },
                Err(e) => e is NoSnapshots && forall|k: int|
                    0 <= k < stems@.len() ==> #[trigger] dated(texts(stems@), k) is None,
            },
    {
        let order = load_order(stems);
        if order.len() == 0 {
            return Err(FflError::NoSnapshots);
        }
        let store = FflStore::new();
        assert(order_text(order@).len() == order@.len());
        assert(store@.versions.dom() =~= Set::<Seq<char>>::empty());
        proof {
            if has_one_negative_year(order_text(order@)) {
                law_load_order_labels_ascend(
                    order_text(order@),
                    texts(stems@),
                    stems@.len() as int,
                );
            }
        }
        Ok(Loading { order, taken: 0, store })
    }

    /// The file to read next, none where all were taken.
    pub fn next(&self) -> (r: Option<&Snapshot>)
        ensures
            match r {
                Some(snap) => self@.taken < self@.order.len() && snap@ == self@.order[self@.taken],
                None => self@.taken == self@.order.len(),
            },
    {
        proof {
            use_type_invariant(self);
        }
        if self.taken < self.order.len() {
            assert(self@.order[self@.taken] == self.order@[self.taken as int]@);
            Some(&self.order[self.taken])
        } else {
            None
        }
    }

    /// The license dimension of the files that were taken so far.
    pub fn store(&self) -> (r: &FflStore)
        ensures
            r@ == self@.store,
    {
        &self.store
    }

    /// Folds what was read from the next file into the license dimension. A file
    /// that cannot be read ends the load.
    pub fn take(self, source_file: &str, contents: &Contents) -> (r: Result<Loading, FflError>)
        requires
            self@.taken < self@.order.len(),
        ensures
            match contents_records(*contents) {
                Some(records) => r matches Ok(l) && l@ == with_file(self@, source_file@, records),
                None => r matches Err(e) && is_read_error(*contents, e),
            },
    {
        proof {
            use_type_invariant(&self);
        }
        let ghost before = self@;
        let records = match read_records(contents) {
            Ok(records) => records,
            Err(e) => return Err(e),
        };
        let ghost rows = record_texts(records@);
        let order = self.order;
        let taken: usize = self.taken;
        assert(before.order[taken as int] == order@[taken as int]@);
        let store = self.store.add_snapshot(
            order[taken].label.as_str(),
            source_file,
            order[taken].year,
            records,
        );
        proof {
            law_loading_stays_sound(before, source_file@, rows);
        }
        assert(taken < order.len());
        Ok(Loading { order, taken: taken + 1, store })
    }

    /// The license dimension once every file was taken. Of each license the
    /// versions carry its key and differ from their neighbours, and their windows
    /// are in chronological order, by year and by label.
    pub fn finish(self) -> (r: FflStore)
        requires
            self@.taken == self@.order.len(),
        ensures
            r@ == self@.store,
            all_histories(r@.versions),
            all_keyed(r@.versions),
            self@.taken > 0 && labels_ascend(self@.order) ==> all_in_label_order(
                r@.versions,
                self@.order[self@.taken - 1].label,
            ),
            self@.taken > 0 ==> all_chronological(
                r@.versions,
                self@.order[self@.taken - 1].year as int,
            ),
    {
        proof {
            use_type_invariant(&self);
        }
        self.store
    }
}

/// The records of a file are folded under the date of the file that is next, and the
/// file is noted with that date, its name and the number of its records that have a
/// key. The files before it and their order stay.
pub proof fn law_files_are_folded_under_their_date(
    loading: LoadingText,
    source_file: Seq<char>,
    records: Seq<RecordText>,
)
    requires
        0 <= loading.taken < loading.order.len(),
    ensures
        ({
            let after = with_file(loading, source_file, records);
            let snap = loading.order[loading.taken];
            let note = after.store.snapshots.last();
            &&& after.order == loading.order
            &&& after.taken == loading.taken + 1
            &&& after.store.versions == with_records(
                loading.store.versions,
                records,
                snap.label,
                snap.year,
            )
            &&& after.store.snapshots.drop_last() == loading.store.snapshots
            &&& note.label == snap.label
            &&& note.source_file == source_file
            &&& note.row_count == records.filter(|r: RecordText| record_key(r) is Some).len()
        }),
{
    law_keyed_records_are_counted(records);
    let after = with_file(loading, source_file, records);
    assert(after.store.snapshots.drop_last() == loading.store.snapshots);
}

/// A CSV document gives the records of its rows by its headers, a worksheet those of
/// its rows by its first row. Nothing else can be read, and the error tells why.
pub proof fn law_contents_are_read_by_kind(contents: Contents, e: FflError)
    ensures
        contents matches Contents::Csv(data) ==> {
            &&& csv_table(data@) matches Some(t) ==> contents_records(contents) == Some(
                table_records(t.0, t.1),
            )
            &&& csv_table(data@) is None ==> contents_records(contents) is None
            &&& is_read_error(contents, e) <==> e is Csv
        },
        contents matches Contents::Sheet(sheet) ==> {
            &&& sheet matches Some(rows) ==> contents_records(contents) == Some(
                sheet_records(sheet_text(rows@)),
            )
            &&& sheet is None ==> contents_records(contents) is None
            &&& is_read_error(contents, e) <==> e is NoWorksheet
        },
        contents is Other ==> contents_records(contents) is None && (is_read_error(contents, e)
            <==> e is UnsupportedType),
{
}

} // verus!
