//! The lines of a current report: which give rows, and how the license parts the
//! name from the street.

use crate::ffl::{effective, VersionText, Versions};
use crate::ffl_laws::{lemma_norm_is_words, same_words};
use crate::number::signed;
use crate::pdf::{
    current_header, data_row, data_rows, header_line, is_current, lemma_first_number,
    looks_like_data, name_street_split, prefix_split, skipped_count, source_label, starts_with_digit, suffix_split,
    NameSource,
};
use crate::section_laws::{lemma_same_length, lemma_street_follows_once, street_follows};
use crate::text::{
    all_digits, all_letters, all_words, has_part, is_digit, law_words_are_words, lines, norm_text, phrase,
    words,
};
use vstd::prelude::*;

verus! {

/// A line gives a row exactly where it has a key of at least six digits, a license
/// type of two, at least two words, a state of two letters and 22 numbers.
pub proof fn law_data_lines_give_rows(line: Seq<char>, year: int, versions: Versions)
    ensures
        data_row(line, year, versions) is Some <==> {
            let ws = words(line);
            let n = ws.len() as int;
            &&& n >= 27
            &&& ws[0].len() >= 6 && all_digits(ws[0])
            &&& ws[1].len() == 2 && all_digits(ws[1])
            &&& ws[n - 23].len() == 2 && all_letters(ws[n - 23])
            &&& forall|i: int|
                n - 22 <= i < n ==> signed(#[trigger] ws[i], i64::MAX as nat) is Some
        },
{
    let ws = words(line);
    let n = ws.len() as int;
    if n >= 27 {
        if data_row(line, year, versions) is Some {
            assert forall|i: int| n - 22 <= i < n implies signed(
                #[trigger] ws[i],
                i64::MAX as nat,
            ) is Some by {
                assert(ws[i] == ws[ws.len() - 22 + (i - (n - 22))]);
            }
        }
    }
}

/// Every line that begins with a key and a license type is accounted for: it
/// gives a row or is counted as skipped. No other line is counted.
pub proof fn law_candidate_lines_are_accounted_for(
    ls: Seq<Seq<char>>,
    line: Seq<char>,
    year: int,
    versions: Versions,
)
    ensures
        ({
            let ws = words(line);
            let candidate = ws.len() >= 2 && ws[0].len() >= 6 && all_digits(ws[0]) && ws[1].len()
                == 2 && all_digits(ws[1]);
            let rows = data_rows(ls.push(line), year, versions).len() - data_rows(
                ls,
                year,
                versions,
            ).len();
            let skipped = skipped_count(ls.push(line), year, versions) - skipped_count(
                ls,
                year,
                versions,
            );
            &&& candidate ==> rows + skipped == 1 && rows >= 0 && skipped >= 0
            &&& !candidate ==> rows == 0 && skipped == 0
            &&& rows == 1 <==> data_row(line, year, versions) is Some
        }),
        data_rows(Seq::empty(), year, versions).len() == 0,
        skipped_count(Seq::empty(), year, versions) == 0,
{
    assert(ls.push(line).drop_last() == ls);
    law_data_lines_give_rows(line, year, versions);
}

proof fn lemma_name_found(ws: Seq<Seq<char>>, name: Seq<char>, k: int, from: int)
    requires
        all_words(ws),
        0 <= from <= k < ws.len(),
        same_words(name, phrase(ws.take(k))),
    ensures
        prefix_split(ws, norm_text(name), from) == Some(k),
    decreases k - from,
{
    lemma_norm_is_words(name, phrase(ws.take(k)));
    if from < k {
        assert(all_words(ws.take(k)));
        assert(all_words(ws.take(from)));
        lemma_same_length(ws.take(k), name);
        lemma_norm_is_words(name, phrase(ws.take(from)));
        if same_words(name, phrase(ws.take(from))) {
            lemma_same_length(ws.take(from), name);
        }
        lemma_name_found(ws, name, k, from + 1);
    }
}

proof fn lemma_no_name(ws: Seq<Seq<char>>, name: Seq<char>, from: int)
    requires
        1 <= from,
        forall|k: int| 1 <= k < ws.len() ==> !same_words(name, phrase(#[trigger] ws.take(k))),
    ensures
        prefix_split(ws, norm_text(name), from) is None,
    decreases ws.len() - from,
{
    if from < ws.len() {
        lemma_norm_is_words(name, phrase(ws.take(from)));
        lemma_no_name(ws, name, from + 1);
    }
}

proof fn lemma_street_found(ws: Seq<Seq<char>>, street: Seq<char>, k: int, from: int)
    requires
        all_words(ws),
        0 <= from <= k < ws.len(),
        same_words(street, phrase(ws.skip(k))),
    ensures
        suffix_split(ws, norm_text(street), from) == Some(k),
    decreases k - from,
{
    lemma_norm_is_words(street, phrase(ws.skip(k)));
    if from < k {
        assert(all_words(ws.skip(k)));
        assert(all_words(ws.skip(from)));
        lemma_same_length(ws.skip(k), street);
        lemma_norm_is_words(street, phrase(ws.skip(from)));
        if same_words(street, phrase(ws.skip(from))) {
            lemma_same_length(ws.skip(from), street);
        }
        lemma_street_found(ws, street, k, from + 1);
    }
}

proof fn lemma_no_street(ws: Seq<Seq<char>>, street: Seq<char>, from: int)
    requires
        1 <= from,
        forall|k: int| 1 <= k < ws.len() ==> !same_words(street, phrase(#[trigger] ws.skip(k))),
    ensures
        suffix_split(ws, norm_text(street), from) is None,
    decreases ws.len() - from,
{
    if from < ws.len() {
        lemma_norm_is_words(street, phrase(ws.skip(from)));
        lemma_no_street(ws, street, from + 1);
    }
}

/// Whether the first `k` words, and not all, are the license name of a version.
pub open spec fn is_name(ws: Seq<Seq<char>>, v: VersionText, k: int) -> bool {
    1 <= k < ws.len() && same_words(v.record.license_name, phrase(ws.take(k)))
}

/// Whether the words from `k` on, and not all, are the premise street of a
/// version.
pub open spec fn is_street(ws: Seq<Seq<char>>, v: VersionText, k: int) -> bool {
    1 <= k < ws.len() && same_words(v.record.premise_street, phrase(ws.skip(k)))
}

/// Words at the front that are the license name part it from the street; else
/// words at the end that are the premise street do; else the first word that
/// begins with a digit does. The row tells which of the three it was.
pub proof fn law_license_parts_name_and_street(ws: Seq<Seq<char>>, v: VersionText, k: int)
    requires
        all_words(ws),
    ensures
        ({
            let (at, source) = name_street_split(ws, Some(v));
            let no_name = forall|i: int| !#[trigger] is_name(ws, v, i);
            let no_street = forall|i: int| !#[trigger] is_street(ws, v, i);
            &&& is_name(ws, v, k) ==> at == k && source == NameSource::FflPrefix
            &&& no_name && is_street(ws, v, k) ==> at == k && source == NameSource::FflSuffix
            &&& no_name && no_street ==> street_follows(ws, at) && source == NameSource::Heuristic
        }),
        street_follows(ws, name_street_split(ws, None).0),
        name_street_split(ws, None).1 == NameSource::Heuristic,
{
    let (name, street) = (v.record.license_name, v.record.premise_street);
    let no_name = forall|i: int| !#[trigger] is_name(ws, v, i);
    let no_street = forall|i: int| !#[trigger] is_street(ws, v, i);
    lemma_norm_is_words(street, street);
    lemma_house_number(ws);
    if is_name(ws, v, k) {
        lemma_name_found(ws, name, k, 1);
    }
    if no_name {
        assert forall|i: int| 1 <= i < ws.len() implies !same_words(
            name,
            phrase(#[trigger] ws.take(i)),
        ) by {
            assert(!is_name(ws, v, i));
        }
        lemma_no_name(ws, name, 1);
        if is_street(ws, v, k) {
            assert(all_words(ws.skip(k)));
            lemma_same_length(ws.skip(k), street);
            lemma_street_found(ws, street, k, 1);
        }
        if no_street {
            assert forall|i: int| 1 <= i < ws.len() implies !same_words(
                street,
                phrase(#[trigger] ws.skip(i)),
            ) by {
                assert(!is_street(ws, v, i));
            }
            lemma_no_street(ws, street, 1);
        }
    }
}

proof fn lemma_house_number(ws: Seq<Seq<char>>)
    ensures
        street_follows(ws, crate::pdf::house_number_split(ws)),
{
    lemma_first_number(ws, 0);
    let k = crate::pdf::house_number_split(ws);
    assert forall|i: int| 0 <= i < k implies !((#[trigger] ws[i]).len() > 0 && is_digit(
        ws[i][0],
    )) by {
        assert(!starts_with_digit(ws[i]));
    }
}

/// The row of a line shows the words between the license type and the state as the
/// version of its license for the year parts them, and tells how they were parted.
/// What the version does not tell, the house number does.
pub proof fn law_rows_show_the_split(line: Seq<char>, year: int, versions: Versions, k: int)
    requires
        data_row(line, year, versions) is Some,
    ensures
        ({
            let row = data_row(line, year, versions)->0;
            let ws = words(line);
            let blob = ws.subrange(2, ws.len() - 23);
            let split = row.app_license_name == phrase(blob.take(k)) && row.app_premise_city
                == phrase(blob.skip(k));
            match effective(versions, ws[0], year) {
                Some(v) => {
                    let no_name = forall|i: int| !#[trigger] is_name(blob, v, i);
                    let no_street = forall|i: int| !#[trigger] is_street(blob, v, i);
                    &&& is_name(blob, v, k) ==> split && row.name_source is FflPrefix
                    &&& no_name && is_street(blob, v, k) ==> split && row.name_source is FflSuffix
                    &&& no_name && no_street && street_follows(blob, k) ==> split
                        && row.name_source is Heuristic
                },
                None => street_follows(blob, k) ==> split && row.name_source is Heuristic,
            }
        }),
{
    let ws = words(line);
    let blob = ws.subrange(2, ws.len() - 23);
    let version = effective(versions, ws[0], year);
    law_words_are_words(line);
    assert(all_words(blob));
    lemma_house_number(blob);
    let at = name_street_split(blob, version).0;
    if street_follows(blob, k) && street_follows(blob, at) {
        lemma_street_follows_once(blob, k, at);
    }
    if let Some(v) = version {
        law_license_parts_name_and_street(blob, v, k);
    }
}

/// Each way in which a name was found has a label of its own.
pub proof fn law_sources_are_labelled()
    ensures
        source_label(NameSource::FflPrefix) == "ffl-prefix"@,
        source_label(NameSource::FflSuffix) == "ffl-suffix"@,
        source_label(NameSource::Heuristic) == "heuristic"@,
        source_label(NameSource::Xlsx) == "xlsx"@,
{
}

/// The header of a report is the first of its lines that names the key column.
pub proof fn law_header_is_the_first(ls: Seq<Seq<char>>, i: int)
    requires
        forall|j: int| 0 <= j < i ==> !has_part(#[trigger] ls[j], "APP_RDS_KEY"@),
        0 <= i <= ls.len(),
        i < ls.len() ==> has_part(ls[i], "APP_RDS_KEY"@),
    ensures
        i < ls.len() ==> header_line(ls) == Some(ls[i]),
        i == ls.len() ==> header_line(ls) is None,
    decreases i,
{
    if i > 0 {
        let rest = ls.skip(1);
        assert(!has_part(ls[0], "APP_RDS_KEY"@));
        assert forall|j: int| 0 <= j < i - 1 implies !has_part(
            #[trigger] rest[j],
            "APP_RDS_KEY"@,
        ) by {
            assert(!has_part(ls[j + 1], "APP_RDS_KEY"@));
        }
        law_header_is_the_first(rest, i - 1);
    }
}

/// A report is in the current format exactly where the words of its header are
/// the 27 columns, in order.
pub proof fn law_current_format_has_27_columns(text: Seq<char>, i: int)
    requires
        0 <= i < lines(text).len(),
        forall|j: int| 0 <= j < i ==> !has_part(#[trigger] lines(text)[j], "APP_RDS_KEY"@),
        has_part(lines(text)[i], "APP_RDS_KEY"@),
    ensures
        is_current(text) <==> {
            let ws = words(lines(text)[i]);
            &&& ws.len() == 27
            &&& ws[0] == "APP_RDS_KEY"@
            &&& ws[1] == "APP_LIC_TYPE"@
            &&& ws[2] == "APP_LICENSE_NAME"@
            &&& ws[3] == "APP_PREMISE_CITY"@
            &&& ws[4] == "APP_PREMISE_STATE"@
            &&& forall|c: int|
                0 <= c < 22 ==> #[trigger] ws[5 + c] == crate::text::upper(
                    crate::columns::count_col(c),
                )
        },
{
    law_header_is_the_first(lines(text), i);
    let ws = words(lines(text)[i]);
    let h = current_header();
    if ws.len() == 27 && ws[0] == "APP_RDS_KEY"@ && ws[1] == "APP_LIC_TYPE"@ && ws[2]
        == "APP_LICENSE_NAME"@ && ws[3] == "APP_PREMISE_CITY"@ && ws[4] == "APP_PREMISE_STATE"@
        && (forall|c: int|
        0 <= c < 22 ==> #[trigger] ws[5 + c] == crate::text::upper(
            crate::columns::count_col(c),
        )) {
        assert forall|j: int| 0 <= j < 27 implies ws[j] == h[j] by {
            if j >= 5 {
                assert(ws[5 + (j - 5)] == crate::text::upper(crate::columns::count_col(j - 5)));
            }
        }
        assert(ws =~= h);
    }
}

/// A line is read by its words: how much white space parts them does not matter.
pub proof fn law_lines_are_read_by_their_words(
    line: Seq<char>,
    other: Seq<char>,
    year: int,
    versions: Versions,
)
    requires
        words(line) == words(other),
    ensures
        data_row(line, year, versions) == data_row(other, year, versions),
        looks_like_data(line) == looks_like_data(other),
{
}

} // verus!
