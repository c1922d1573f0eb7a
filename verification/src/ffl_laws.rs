//! What holds of the license dimension as a whole.

use crate::ffl::{
    chain_of, effective, effective_index, fits_better, is_named, is_only_license, keyed_count,
    license_named,
    observed, only_license_named, record_key, same_content, with_record, with_records, year_gap, RecordText,
    VersionText, Versions,
};
use crate::number::{
    decimal, lemma_decimal_digits, lemma_padded, lemma_short_padded, lemma_value_append, padded,
    ten_to, unsigned, value,
};
use crate::text::{
    all_digits, law_text_order_is_total, law_text_order_is_transitive, law_words_are_words,
    law_words_of_phrase, lemma_words_of_norm, norm_text, text_before, trimmed, upper_words, words,
};
use vstd::prelude::*;

verus! {

/// The region, district and sequence number of a record.
pub open spec fn key_numbers(r: RecordText) -> Option<(nat, nat, nat)> {
    let max = u32::MAX as nat;
    match (
        unsigned(trimmed(r.lic_regn), max),
        unsigned(trimmed(r.lic_dist), max),
        unsigned(trimmed(r.lic_seqn), max),
    ) {
        (Some(regn), Some(dist), Some(seqn)) => Some((regn, dist, seqn)),
        _ => None,
    }
}

/// A district of at most two digits and a sequence number of at most five.
pub open spec fn fits_places(r: RecordText) -> bool {
    match key_numbers(r) {
        Some((_, dist, seqn)) => dist < 100 && seqn < 100_000,
        None => false,
    }
}

/// A district of two digits and a sequence number of five keep their places in
/// the key: read as a number, it is the region times ten million plus the
/// district times one hundred thousand plus the sequence number.
pub proof fn law_rds_key_is_positional(r: RecordText, regn: nat, dist: nat, seqn: nat)
    requires
        key_numbers(r) == Some((regn, dist, seqn)),
        dist < 100,
        seqn < 100_000,
    ensures
        record_key(r) matches Some(k) && all_digits(k) && value(k) == regn * 10_000_000 + dist
            * 100_000 + seqn,
{
    reveal_with_fuel(ten_to, 6);
    lemma_short_padded(dist, 2);
    lemma_short_padded(seqn, 5);
    lemma_padded(dist, 2);
    lemma_padded(seqn, 5);
    lemma_decimal_digits(regn);
    let a = decimal(regn);
    let b = padded(dist, 2);
    let c = padded(seqn, 5);
    lemma_value_append(a, b);
    lemma_value_append(a + b, c);
    assert(ten_to(b.len()) == 100);
    assert(ten_to(c.len()) == 100_000);
    assert(value(a + b) == regn * 100 + dist);
    assert(value(a + b + c) == (regn * 100 + dist) * 100_000 + seqn);
    assert forall|i: int| 0 <= i < (a + b + c).len() implies crate::text::is_digit(
        #[trigger] (a + b + c)[i],
    ) by {
        if i < a.len() {
            assert((a + b + c)[i] == a[i]);
        } else if i < a.len() + b.len() {
            assert((a + b + c)[i] == b[i - a.len()]);
        } else {
            assert((a + b + c)[i] == c[i - a.len() - b.len()]);
        }
    }
    assert(all_digits(a + b + c));
    assert((regn * 100 + dist) * 100_000 + seqn == regn * 10_000_000 + dist * 100_000 + seqn)
        by (nonlinear_arith);
    assert(record_key(r) == Some(a + b + c));
}

/// A record has a key exactly where its region, district and sequence number are
/// numbers; the key is the three written behind each other, the district in at least
/// two digits and the sequence number in at least five.
pub proof fn law_rds_key_is_written_out(r: RecordText)
    ensures
        record_key(r) is Some <==> key_numbers(r) is Some,
        key_numbers(r) matches Some((regn, dist, seqn)) ==> record_key(r) == Some(
            decimal(regn) + padded(dist, 2) + padded(seqn, 5),
        ),
{
}

/// Two records with the same key name the same license: their regions,
/// districts and sequence numbers agree.
pub proof fn law_rds_key_tells_licenses_apart(a: RecordText, b: RecordText)
    requires
        record_key(a) is Some,
        record_key(a) == record_key(b),
        fits_places(a),
        fits_places(b),
    ensures
        key_numbers(a) == key_numbers(b),
{
    let (x, xd, xs) = key_numbers(a)->0;
    let (y, yd, ys) = key_numbers(b)->0;
    law_rds_key_is_positional(a, x, xd, xs);
    law_rds_key_is_positional(b, y, yd, ys);
    lemma_places(x, xd, xs, y, yd, ys);
}

proof fn lemma_places(x: nat, xd: nat, xs: nat, y: nat, yd: nat, ys: nat)
    requires
        xd < 100,
        yd < 100,
        xs < 100_000,
        ys < 100_000,
        x * 10_000_000 + xd * 100_000 + xs == y * 10_000_000 + yd * 100_000 + ys,
    ensures
        x == y,
        xd == yd,
        xs == ys,
{
    assert(xs == (x * 10_000_000 + xd * 100_000 + xs) % 100_000);
    assert(ys == (y * 10_000_000 + yd * 100_000 + ys) % 100_000);
}

/// A record with the three fields of its key left blank: what there is to know
/// of a license besides its key.
pub open spec fn details(r: RecordText) -> RecordText {
    RecordText { lic_regn: Seq::empty(), lic_dist: Seq::empty(), lic_seqn: Seq::empty(), ..r }
}

/// Two records have the same content exactly where they differ in nothing but
/// region, district and sequence number.
pub proof fn law_content_is_all_but_the_key(a: RecordText, b: RecordText)
    ensures
        same_content(a, b) <==> details(a) == details(b),
{
}

/// Versions numbered from zero, of which no two neighbours have the same
/// content, and at least one.
pub open spec fn is_history(chain: Seq<VersionText>) -> bool {
    &&& chain.len() > 0
    &&& forall|i: int| 0 <= i < chain.len() ==> (#[trigger] chain[i]).seq == i as u32
    &&& forall|i: int, j: int|
        0 <= i && j == i + 1 && j < chain.len() ==> details((#[trigger] chain[i]).record)
            != details((#[trigger] chain[j]).record)
}

pub open spec fn all_histories(versions: Versions) -> bool {
    forall|k: Seq<char>| #[trigger] versions.contains_key(k) ==> is_history(versions[k])
}

proof fn lemma_observed_history(
    chain: Seq<VersionText>,
    rec: RecordText,
    label: Seq<char>,
    year: i32,
)
    requires
        chain.len() == 0 || is_history(chain),
    ensures
        is_history(observed(chain, rec, label, year)),
{
    if chain.len() > 0 {
        law_content_is_all_but_the_key(chain.last().record, rec);
    }
}

/// Folding a snapshot keeps, for every license, versions that are numbered from
/// zero and differ from their neighbours: equal content in consecutive
/// snapshots is one version.
pub proof fn law_versions_differ(
    versions: Versions,
    records: Seq<RecordText>,
    label: Seq<char>,
    year: i32,
)
    requires
        all_histories(versions),
    ensures
        all_histories(with_records(versions, records, label, year)),
    decreases records.len(),
{
    if records.len() > 0 {
        law_versions_differ(versions, records.drop_last(), label, year);
        let before = with_records(versions, records.drop_last(), label, year);
        if let Some(key) = record_key(records.last()) {
            lemma_observed_history(chain_of(before, key), records.last(), label, year);
        }
    }
}

/// Windows that follow each other, the last of them not behind `year`.
pub open spec fn is_chronological(chain: Seq<VersionText>, year: int) -> bool {
    &&& forall|i: int|
        0 <= i < chain.len() ==> (#[trigger] chain[i]).first_year <= chain[i].last_year <= year
    &&& forall|i: int, j: int|
        0 <= i < j < chain.len() ==> (#[trigger] chain[i]).last_year <= (
        #[trigger] chain[j]).first_year
}

pub open spec fn all_chronological(versions: Versions, year: int) -> bool {
    forall|k: Seq<char>| #[trigger]
        versions.contains_key(k) ==> is_chronological(versions[k], year)
}

proof fn lemma_observed_chronological(
    chain: Seq<VersionText>,
    rec: RecordText,
    label: Seq<char>,
    year: i32,
)
    requires
        is_chronological(chain, year as int),
    ensures
        is_chronological(observed(chain, rec, label, year), year as int),
{
}

/// Folding a snapshot of a year that is not before those folded so far keeps
/// the windows of every license in chronological order.
pub proof fn law_windows_stay_chronological(
    versions: Versions,
    records: Seq<RecordText>,
    label: Seq<char>,
    year: i32,
)
    requires
        all_chronological(versions, year as int),
    ensures
        all_chronological(with_records(versions, records, label, year), year as int),
    decreases records.len(),
{
    if records.len() > 0 {
        law_windows_stay_chronological(versions, records.drop_last(), label, year);
        let before = with_records(versions, records.drop_last(), label, year);
        if let Some(key) = record_key(records.last()) {
            lemma_observed_chronological(chain_of(before, key), records.last(), label, year);
        }
    }
}

/// Whether every version of every license carries the key of its license.
pub open spec fn all_keyed(versions: Versions) -> bool {
    forall|k: Seq<char>, i: int|
        versions.contains_key(k) && 0 <= i < versions[k].len() ==> record_key(
            (#[trigger] versions[k][i]).record,
        ) == Some(k)
}

/// Folding a snapshot keeps every version under the key of its license.
pub proof fn law_versions_carry_their_key(
    versions: Versions,
    records: Seq<RecordText>,
    label: Seq<char>,
    year: i32,
)
    requires
        all_keyed(versions),
    ensures
        all_keyed(with_records(versions, records, label, year)),
    decreases records.len(),
{
    if records.len() > 0 {
        law_versions_carry_their_key(versions, records.drop_last(), label, year);
        let before = with_records(versions, records.drop_last(), label, year);
        let now = with_records(versions, records, label, year);
        if let Some(key) = record_key(records.last()) {
            assert forall|k: Seq<char>, i: int|
                now.contains_key(k) && 0 <= i < now[k].len() implies record_key(
                (#[trigger] now[k][i]).record,
            ) == Some(k) by {
                if k != key {
                    assert(before.contains_key(k));
                    assert(now[k][i] == before[k][i]);
                } else if i < chain_of(before, key).len() {
                    assert(before.contains_key(k));
                    assert(now[k][i].record == before[k][i].record);
                }
            }
        }
    }
}

/// Windows of which the labels, as text, follow each other, the last of them not
/// behind `label`.
pub open spec fn is_in_label_order(chain: Seq<VersionText>, label: Seq<char>) -> bool {
    &&& forall|i: int|
        0 <= i < chain.len() ==> !text_before(
            (#[trigger] chain[i]).last_seen,
            chain[i].first_seen,
        ) && !text_before(label, chain[i].last_seen)
    &&& forall|i: int, j: int|
        0 <= i < j < chain.len() ==> !text_before(
            (#[trigger] chain[j]).first_seen,
            (#[trigger] chain[i]).last_seen,
        )
}

pub open spec fn all_in_label_order(versions: Versions, label: Seq<char>) -> bool {
    forall|k: Seq<char>| #[trigger]
        versions.contains_key(k) ==> is_in_label_order(versions[k], label)
}

/// A text that does not come before a second, which does not come before a
/// third, does not come before the third.
proof fn lemma_not_before(a: Seq<char>, b: Seq<char>, c: Seq<char>)
    requires
        !text_before(b, a),
        !text_before(c, b),
    ensures
        !text_before(c, a),
{
    law_text_order_is_total(a, b);
    law_text_order_is_total(b, c);
    law_text_order_is_total(a, c);
    if text_before(c, a) && a != b && b != c {
        law_text_order_is_transitive(a, b, c);
    }
}

/// Labels in order up to a snapshot are in order up to any later one.
pub proof fn lemma_later_label(versions: Versions, label: Seq<char>, later: Seq<char>)
    requires
        all_in_label_order(versions, label),
        !text_before(later, label),
    ensures
        all_in_label_order(versions, later),
{
    assert forall|k: Seq<char>| #[trigger] versions.contains_key(k) implies is_in_label_order(
        versions[k],
        later,
    ) by {
        let chain = versions[k];
        assert(is_in_label_order(chain, label));
        assert forall|i: int| 0 <= i < chain.len() implies !text_before(
            (#[trigger] chain[i]).last_seen,
            chain[i].first_seen,
        ) && !text_before(later, chain[i].last_seen) by {
            lemma_not_before(chain[i].last_seen, label, later);
        }
    }
}

proof fn lemma_observed_labels(
    chain: Seq<VersionText>,
    rec: RecordText,
    label: Seq<char>,
    year: i32,
)
    requires
        is_in_label_order(chain, label),
    ensures
        is_in_label_order(observed(chain, rec, label, year), label),
{
    law_text_order_is_total(label, label);
    let now = observed(chain, rec, label, year);
    assert forall|i: int| 0 <= i < now.len() implies !text_before(
        (#[trigger] now[i]).last_seen,
        now[i].first_seen,
    ) && !text_before(label, now[i].last_seen) by {
        if i < chain.len() {
            assert(now[i].first_seen == chain[i].first_seen);
            if now[i] != chain[i] {
                lemma_not_before(chain[i].first_seen, chain[i].last_seen, label);
            }
        }
    }
    assert forall|i: int, j: int| 0 <= i < j < now.len() implies !text_before(
        (#[trigger] now[j]).first_seen,
        (#[trigger] now[i]).last_seen,
    ) by {
        assert(now[i] == chain[i]);
        if j < chain.len() {
            assert(now[j].first_seen == chain[j].first_seen);
        }
    }
}

/// Folding a snapshot whose label, as text, is not before those folded so far
/// keeps the labels of every license in order.
pub proof fn law_labels_stay_in_order(
    versions: Versions,
    records: Seq<RecordText>,
    label: Seq<char>,
    year: i32,
)
    requires
        all_in_label_order(versions, label),
    ensures
        all_in_label_order(with_records(versions, records, label, year), label),
    decreases records.len(),
{
    if records.len() > 0 {
        law_labels_stay_in_order(versions, records.drop_last(), label, year);
        let before = with_records(versions, records.drop_last(), label, year);
        if let Some(key) = record_key(records.last()) {
            lemma_observed_labels(chain_of(before, key), records.last(), label, year);
        }
    }
}

/// Whether `later` continues `chain`: no version is lost, and none but the
/// latest changes, which may only stretch its window.
pub open spec fn continues(chain: Seq<VersionText>, later: Seq<VersionText>) -> bool {
    &&& chain.len() <= later.len()
    &&& forall|i: int|
        0 <= i < chain.len() ==> {
            &&& (#[trigger] later[i]).record == chain[i].record
            &&& later[i].first_seen == chain[i].first_seen
            &&& later[i].first_year == chain[i].first_year
            &&& later[i].seq == chain[i].seq
        }
    &&& forall|i: int| 0 <= i < chain.len() - 1 ==> #[trigger] later[i] == chain[i]
}

/// Folding a snapshot forgets nothing: every license keeps all its versions,
/// each with its content and the start of its window.
pub proof fn law_history_is_kept(
    versions: Versions,
    records: Seq<RecordText>,
    label: Seq<char>,
    year: i32,
    key: Seq<char>,
)
    ensures
        continues(
            chain_of(versions, key),
            chain_of(with_records(versions, records, label, year), key),
        ),
        versions.contains_key(key) ==> with_records(versions, records, label, year).contains_key(
            key,
        ),
    decreases records.len(),
{
    if records.len() > 0 {
        law_history_is_kept(versions, records.drop_last(), label, year, key);
    }
}

/// A record that repeats the content of the latest version adds no version; one
/// that changes it adds exactly one.
pub proof fn law_only_changes_add_versions(
    chain: Seq<VersionText>,
    rec: RecordText,
    label: Seq<char>,
    year: i32,
)
    ensures
        observed(chain, rec, label, year).len() == if chain.len() > 0 && details(
            chain.last().record,
        ) == details(rec) {
            chain.len()
        } else {
            chain.len() + 1
        },
        same_content(observed(chain, rec, label, year).last().record, rec),
        observed(chain, rec, label, year).last().last_seen == label,
        observed(chain, rec, label, year).last().last_year == year,
{
    if chain.len() > 0 {
        law_content_is_all_but_the_key(chain.last().record, rec);
    }
}

/// What was observed is what the latest version holds, field by field, up to the
/// snapshot of the observation. A version that is new begins there; one that
/// goes on keeps its beginning. The versions before it stay as they are.
pub proof fn law_observation_is_kept(
    chain: Seq<VersionText>,
    rec: RecordText,
    label: Seq<char>,
    year: i32,
)
    ensures
        ({
            let now = observed(chain, rec, label, year);
            let v = now.last();
            let r = v.record;
            &&& now.len() > 0
            &&& r.lic_cnty == rec.lic_cnty
            &&& r.lic_type == rec.lic_type
            &&& r.lic_xprdte == rec.lic_xprdte
            &&& r.license_name == rec.license_name
            &&& r.business_name == rec.business_name
            &&& r.premise_street == rec.premise_street
            &&& r.premise_city == rec.premise_city
            &&& r.premise_state == rec.premise_state
            &&& r.premise_zip == rec.premise_zip
            &&& r.mail_street == rec.mail_street
            &&& r.mail_city == rec.mail_city
            &&& r.mail_state == rec.mail_state
            &&& r.mail_zip == rec.mail_zip
            &&& r.voice_phone == rec.voice_phone
            &&& v.last_seen == label
            &&& v.last_year == year
            &&& now.len() == chain.len() ==> {
                &&& v.first_seen == chain.last().first_seen
                &&& v.first_year == chain.last().first_year
                &&& v.seq == chain.last().seq
                &&& now.drop_last() == chain.drop_last()
            }
            &&& now.len() != chain.len() ==> {
                &&& v.first_seen == label
                &&& v.first_year == year
                &&& v.seq == chain.len() as u32
                &&& r == rec
                &&& now.drop_last() == chain
            }
        }),
{
    let now = observed(chain, rec, label, year);
    if now.len() == chain.len() {
        assert(now.drop_last() == chain.drop_last());
    } else {
        assert(now.drop_last() == chain);
    }
}

/// A license that two snapshots show alike has one version, seen from the first
/// to the second. Where they differ in anything but the fields of the key, it
/// has two, and each is seen in its own snapshot.
pub proof fn law_two_snapshots_of_a_license(
    versions: Versions,
    a: RecordText,
    b: RecordText,
    key: Seq<char>,
    first: Seq<char>,
    first_year: i32,
    second: Seq<char>,
    second_year: i32,
)
    requires
        !versions.contains_key(key),
        record_key(a) == Some(key),
        record_key(b) == Some(key),
    ensures
        ({
            let once = with_records(versions, seq![a], first, first_year);
            let twice = with_records(once, seq![b], second, second_year);
            let old = VersionText {
                record: a,
                first_seen: first,
                last_seen: first,
                first_year,
                last_year: first_year,
                seq: 0,
            };
            let new = VersionText {
                record: b,
                first_seen: second,
                last_seen: second,
                first_year: second_year,
                last_year: second_year,
                seq: 1,
            };
            &&& twice.contains_key(key)
            &&& details(a) == details(b) ==> twice[key] == seq![
                VersionText { last_seen: second, last_year: second_year, ..old },
            ]
            &&& details(a) != details(b) ==> twice[key] == seq![old, new]
        }),
{
    let once = with_records(versions, seq![a], first, first_year);
    let twice = with_records(once, seq![b], second, second_year);
    assert(seq![a].drop_last() == Seq::<RecordText>::empty());
    assert(seq![b].drop_last() == Seq::<RecordText>::empty());
    assert(with_records(versions, seq![a].drop_last(), first, first_year) == versions);
    assert(with_records(once, seq![b].drop_last(), second, second_year) == once);
    law_content_is_all_but_the_key(a, b);
    assert(once[key] == observed(Seq::empty(), a, first, first_year));
    assert(once[key].len() == 1);
    let v = once[key][0];
    if details(a) == details(b) {
        assert(twice[key] == seq![
            VersionText { last_seen: second, last_year: second_year, ..v },
        ]);
    } else {
        assert(twice[key] =~= seq![v, twice[key][1]]);
    }
}

/// Folding a snapshot leaves every license that it lists as the last of its rows
/// shows it, and every license that it does not list as it was.
pub proof fn law_snapshot_is_kept(
    versions: Versions,
    records: Seq<RecordText>,
    label: Seq<char>,
    year: i32,
    key: Seq<char>,
    i: int,
)
    requires
        -1 <= i < records.len(),
        i >= 0 ==> record_key(records[i]) == Some(key),
        forall|j: int| i < j < records.len() ==> record_key(#[trigger] records[j]) != Some(key),
    ensures
        ({
            let now = with_records(versions, records, label, year);
            &&& i >= 0 ==> {
                &&& now.contains_key(key)
                &&& now[key].len() > 0
                &&& details(now[key].last().record) == details(records[i])
                &&& now[key].last().last_seen == label
                &&& now[key].last().last_year == year
            }
            &&& i < 0 ==> now.contains_key(key) == versions.contains_key(key) && chain_of(now, key)
                == chain_of(versions, key)
        }),
    decreases records.len(),
{
    if records.len() > 0 {
        let front = records.drop_last();
        let before = with_records(versions, front, label, year);
        if i < records.len() - 1 {
            assert(record_key(records[records.len() - 1]) != Some(key));
            assert forall|j: int| i < j < front.len() implies record_key(#[trigger] front[j])
                != Some(key) by {
                assert(record_key(records[j]) != Some(key));
            }
            law_snapshot_is_kept(versions, front, label, year, key, i);
        } else {
            law_observation_is_kept(chain_of(before, key), records[i], label, year);
        }
    }
}

/// No version fits a year better than the effective one, and every earlier one
/// fits worse.
pub proof fn law_effective_fits_best(chain: Seq<VersionText>, year: int)
    requires
        chain.len() > 0,
    ensures
        0 <= effective_index(chain, year) < chain.len(),
        forall|j: int|
            0 <= j < chain.len() ==> !fits_better(
                #[trigger] chain[j],
                chain[effective_index(chain, year)],
                year,
            ),
        forall|j: int|
            0 <= j < effective_index(chain, year) ==> fits_better(
                chain[effective_index(chain, year)],
                #[trigger] chain[j],
                year,
            ),
    decreases chain.len(),
{
    if chain.len() > 1 {
        let front = chain.drop_last();
        law_effective_fits_best(front, year);
        let best = effective_index(front, year);
        assert(front[best] == chain[best]);
        assert forall|j: int| 0 <= j < chain.len() implies !fits_better(
            #[trigger] chain[j],
            chain[effective_index(chain, year)],
            year,
        ) by {
            if j < chain.len() - 1 {
                assert(front[j] == chain[j]);
            }
        }
        assert forall|j: int| 0 <= j < effective_index(chain, year) implies fits_better(
            chain[effective_index(chain, year)],
            #[trigger] chain[j],
            year,
        ) by {
            assert(front[j] == chain[j]);
        }
    }
}

/// Where the window of some version holds the year, so does that of the
/// effective version.
pub proof fn law_effective_window_holds_year(chain: Seq<VersionText>, year: int, i: int)
    requires
        0 <= i < chain.len(),
        chain[i].first_year <= year <= chain[i].last_year,
    ensures
        ({
            let v = chain[effective_index(chain, year)];
            v.first_year <= year <= v.last_year
        }),
{
    law_effective_fits_best(chain, year);
    assert(year_gap(chain[i], year) == 0);
}

/// Of the versions of a history that fit a year equally well, the effective one
/// is the most recent.
pub proof fn law_effective_is_latest(chain: Seq<VersionText>, year: int, j: int)
    requires
        is_history(chain),
        chain.len() <= u32::MAX,
        effective_index(chain, year) < j < chain.len(),
    ensures
        year_gap(chain[j], year) > year_gap(chain[effective_index(chain, year)], year),
{
    law_effective_fits_best(chain, year);
    let i = effective_index(chain, year);
    assert(chain[i].seq == i as u32);
    assert(chain[j].seq == j as u32);
}

/// By how many years a window misses a year, on whichever side.
pub open spec fn years_off(v: VersionText, year: int) -> int {
    let early = v.first_year - year;
    let late = year - v.last_year;
    let far = if early > late {
        early
    } else {
        late
    };
    if far > 0 {
        far
    } else {
        0
    }
}

/// A license has a version for every year exactly where it is known. It is one
/// of its versions, none is nearer to the year, and of those as near it has the
/// greatest number.
pub proof fn law_effective_is_nearest(versions: Versions, key: Seq<char>, year: int, j: int)
    requires
        versions.contains_key(key),
        0 <= j < versions[key].len(),
        forall|i: int|
            0 <= i < versions[key].len() ==> (#[trigger] versions[key][i]).first_year
                <= versions[key][i].last_year,
    ensures
        effective(versions, key, year) matches Some(v) && {
            &&& versions[key].contains(v)
            &&& years_off(v, year) <= years_off(versions[key][j], year)
            &&& years_off(v, year) == years_off(versions[key][j], year) ==> versions[key][j].seq
                <= v.seq
        },
{
    let chain = versions[key];
    law_effective_fits_best(chain, year);
    let i = effective_index(chain, year);
    assert(chain[i].first_year <= chain[i].last_year);
    assert(chain[j].first_year <= chain[j].last_year);
    assert(!fits_better(chain[j], chain[i], year));
}

/// A license that is not known has no version.
pub proof fn law_unknown_license_has_no_version(versions: Versions, key: Seq<char>, year: int)
    requires
        !versions.contains_key(key),
    ensures
        effective(versions, key, year) is None,
{
}

/// A license as the latest snapshot shows it is the license that a report of
/// that year sees.
pub proof fn law_latest_snapshot_is_effective(
    versions: Versions,
    rec: RecordText,
    label: Seq<char>,
    year: i32,
    key: Seq<char>,
)
    requires
        record_key(rec) == Some(key),
        all_histories(versions),
        all_chronological(versions, year as int),
        chain_of(versions, key).len() < u32::MAX,
    ensures
        effective(with_record(versions, rec, label, year), key, year as int) matches Some(v)
            && details(v.record) == details(rec) && v.last_seen == label,
{
    let chain = observed(chain_of(versions, key), rec, label, year);
    lemma_observed_history(chain_of(versions, key), rec, label, year);
    lemma_observed_chronological(chain_of(versions, key), rec, label, year);
    law_only_changes_add_versions(chain_of(versions, key), rec, label, year);
    let i = effective_index(chain, year as int);
    law_effective_fits_best(chain, year as int);
    if i < chain.len() - 1 {
        law_effective_is_latest(chain, year as int, chain.len() - 1);
        assert(year_gap(chain.last(), year as int) == 0);
    }
}

/// Whether two texts have the same words, up to letter case.
pub open spec fn same_words(a: Seq<char>, b: Seq<char>) -> bool {
    upper_words(words(a)) == upper_words(words(b))
}

/// Texts are the same once normalised exactly where their words are.
pub proof fn lemma_norm_is_words(a: Seq<char>, b: Seq<char>)
    ensures
        norm_text(a) == norm_text(b) <==> same_words(a, b),
        norm_text(a).len() == 0 <==> words(a).len() == 0,
{
    law_words_are_words(a);
    law_words_are_words(b);
    law_words_of_phrase(words(a));
    law_words_of_phrase(words(b));
    lemma_words_of_norm(words(a));
    lemma_words_of_norm(words(b));
    assert(words(Seq::<char>::empty()) == Seq::<Seq<char>>::empty());
    if norm_text(a).len() == 0 {
        assert(norm_text(a) == Seq::<char>::empty());
    }
}

/// Whether a license has at some time had the name, city and state.
pub open spec fn has_had(
    versions: Versions,
    key: Seq<char>,
    name: Seq<char>,
    city: Seq<char>,
    state: Seq<char>,
) -> bool {
    versions.contains_key(key) && exists|i: int|
        0 <= i < versions[key].len() && same_words(
            (#[trigger] versions[key][i]).record.license_name,
            name,
        ) && same_words(versions[key][i].record.premise_city, city) && same_words(
            versions[key][i].record.premise_state,
            state,
        )
}

proof fn lemma_has_had(
    versions: Versions,
    key: Seq<char>,
    name: Seq<char>,
    city: Seq<char>,
    state: Seq<char>,
)
    ensures
        license_named(versions, key, name, city, state) <==> has_had(
            versions,
            key,
            name,
            city,
            state,
        ),
{
    if versions.contains_key(key) {
        assert forall|i: int| 0 <= i < versions[key].len() implies is_named(
            #[trigger] versions[key][i],
            name,
            city,
            state,
        ) == (same_words(versions[key][i].record.license_name, name) && same_words(
            versions[key][i].record.premise_city,
            city,
        ) && same_words(versions[key][i].record.premise_state, state)) by {
            let r = versions[key][i].record;
            lemma_norm_is_words(r.license_name, name);
            lemma_norm_is_words(r.premise_city, city);
            lemma_norm_is_words(r.premise_state, state);
        }
    }
}

/// A key is synthesized from a name, a city and a state exactly where one license
/// has had all three, word for word up to letter case, and no other license has;
/// a blank name gives none.
pub proof fn law_synthesized_key_has_had_the_names(
    versions: Versions,
    name: Seq<char>,
    city: Seq<char>,
    state: Seq<char>,
    key: Seq<char>,
)
    ensures
        only_license_named(versions, name, city, state) == Some(key) <==> {
            &&& words(name).len() > 0
            &&& has_had(versions, key, name, city, state)
            &&& forall|k: Seq<char>| #[trigger]
                has_had(versions, k, name, city, state) ==> k == key
        },
{
    law_synthesized_key_is_unambiguous(versions, name, city, state, key);
    lemma_norm_is_words(name, name);
    assert forall|k: Seq<char>| license_named(versions, k, name, city, state) == #[trigger] has_had(
        versions,
        k,
        name,
        city,
        state,
    ) by {
        lemma_has_had(versions, k, name, city, state);
    }
    lemma_has_had(versions, key, name, city, state);
    if is_only_license(versions, key, name, city, state) {
        assert forall|k: Seq<char>| #[trigger] has_had(versions, k, name, city, state) implies k
            == key by {
            assert(license_named(versions, k, name, city, state));
        }
    }
    if has_had(versions, key, name, city, state) && forall|k: Seq<char>| #[trigger]
        has_had(versions, k, name, city, state) ==> k == key {
        assert forall|k: Seq<char>| license_named(versions, k, name, city, state) implies k
            == key by {
            assert(has_had(versions, k, name, city, state));
        }
    }
}

/// A key is synthesized where exactly one license carries the name, city and
/// state, and then it is the key of that license.
pub proof fn law_synthesized_key_is_unambiguous(
    versions: Versions,
    name: Seq<char>,
    city: Seq<char>,
    state: Seq<char>,
    key: Seq<char>,
)
    ensures
        only_license_named(versions, name, city, state) == Some(key) <==> norm_text(name).len() > 0
            && is_only_license(versions, key, name, city, state),
{
    if exists|k: Seq<char>| is_only_license(versions, k, name, city, state) {
        let k = choose|k: Seq<char>| is_only_license(versions, k, name, city, state);
        assert(is_only_license(versions, k, name, city, state));
    }
}

/// The records of a snapshot that are counted are those that have a key.
pub proof fn law_keyed_records_are_counted(records: Seq<RecordText>)
    ensures
        keyed_count(records) == records.filter(|r: RecordText| record_key(r) is Some).len(),
    decreases records.len(),
{
    reveal(Seq::filter);
    if records.len() > 0 {
        law_keyed_records_are_counted(records.drop_last());
    }
}

} // verus!
