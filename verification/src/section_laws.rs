//! The lines of a historic report, read back.

use crate::columns::count_column;
use crate::ffl::{effective, VersionText, Versions};
use crate::ffl_laws::{lemma_norm_is_words, same_words};
use crate::histpdf::{
    city_start, field_cut, grouped_count, header_columns, is_column_header,
    is_section_row, law_counts_follow_the_header, law_cut_keeps_words, name_end,
    pair_columns, scan_line, scan_lines, section_rec, state_position, ungrouped, Scan,
};
use crate::histpdf_laws::{lemma_caliber_columns, names_calibers, pair_at};
use crate::joined::{entry_rows, keys_distinct, key_position, lemma_key_position, with_entry};
use crate::number::{decimal_int, law_decimal_reads_back, signed};
use crate::pdf::{lemma_first_number, lemma_marks_are_words, starts_with_digit, RowText};
use crate::text::{
    all_digits, all_letters, all_words, is_digit, is_space, is_word, law_lines_end_at_line_feeds,
    law_trim_removes_the_ends, law_words_are_words, law_words_of_phrase, lemma_join_front, lines, phrase, trim_end, trim_start, trimmed, upper, upper_words,
    words,
};
use vstd::prelude::*;

verus! {

/// A text without its commas is what is left of it when they are filtered out.
pub proof fn lemma_ungrouped(s: Seq<char>)
    ensures
        ungrouped(s) == s.filter(|c: char| c != ','),
    decreases s.len(),
{
    reveal(Seq::filter);
    if s.len() > 0 {
        lemma_ungrouped(s.drop_last());
    }
}

/// A phrase has no white space at its ends.
pub proof fn lemma_trimmed_phrase(ws: Seq<Seq<char>>)
    requires
        all_words(ws),
        ws.len() > 0,
    ensures
        trimmed(phrase(ws)) == phrase(ws),
        phrase(ws).len() >= ws[0].len(),
        phrase(ws).take(ws[0].len() as int) == ws[0],
{
    let s = phrase(ws);
    assert(is_word(ws[0]));
    assert(is_word(ws[ws.len() - 1]));
    if ws.len() > 1 {
        lemma_join_front(ws, seq![' ']);
    }
    assert(s.take(ws[0].len() as int) == ws[0]);
    assert(s[0] == s.take(ws[0].len() as int)[0]);
    assert(s.last() == ws.last().last());
    assert(!is_space(s[0]));
    assert(!is_space(s.last()));
    assert(trim_start(s) == s);
    assert(trim_end(s) == s);
}

/// The words of a row of a section.
pub open spec fn section_words(
    key: Seq<char>,
    blob: Seq<Seq<char>>,
    state: Seq<char>,
    counts: Seq<Seq<char>>,
) -> Seq<Seq<char>> {
    seq![key] + blob + seq![state] + counts
}

/// Whether a word shows a count, with or without commas in it.
pub open spec fn shows_count(w: Seq<char>, n: i64) -> bool {
    is_word(w) && w.filter(|c: char| c != ',') == decimal_int(n as int)
}

/// Whether a row of a section with the given columns can be written: a key of six to
/// nine digits, at least one word, a state of two letters and a number for each of
/// the columns, of which there is at least one and none twice.
pub open spec fn can_be_written(
    cols: Seq<int>,
    key: Seq<char>,
    blob: Seq<Seq<char>>,
    state: Seq<char>,
    shown: Seq<Seq<char>>,
    counts: Seq<i64>,
) -> bool {
    &&& 6 <= key.len() <= 9
    &&& all_digits(key)
    &&& all_words(blob)
    &&& blob.len() >= 1
    &&& state.len() == 2
    &&& all_letters(state)
    &&& shown.len() == counts.len()
    &&& shown.len() == cols.len()
    &&& shown.len() > 0
    &&& forall|i: int| 0 <= i < shown.len() ==> shows_count(#[trigger] shown[i], counts[i])
    &&& forall|i: int| 0 <= i < cols.len() ==> 0 <= #[trigger] cols[i] < 22
    &&& cols.no_duplicates()
}

proof fn lemma_section_words(
    key: Seq<char>,
    blob: Seq<Seq<char>>,
    state: Seq<char>,
    shown: Seq<Seq<char>>,
    counts: Seq<i64>,
)
    requires
        6 <= key.len() <= 9,
        all_digits(key),
        all_words(blob),
        blob.len() >= 1,
        state.len() == 2,
        all_letters(state),
        shown.len() == counts.len(),
        forall|i: int| 0 <= i < shown.len() ==> shows_count(#[trigger] shown[i], counts[i]),
    ensures
        ({
            let ws = section_words(key, blob, state, shown);
            let n = shown.len() as int;
            let line = phrase(ws);
            &&& trimmed(line) == line
            &&& words(line) == ws
            &&& !is_column_header(line)
            &&& is_section_row(ws, n)
            &&& ws[0] == key
            &&& ws[ws.len() - n - 1] == state
            &&& ws.subrange(1, ws.len() - n - 1) == blob
            &&& forall|i: int|
                0 <= i < n ==> grouped_count(#[trigger] ws[ws.len() - n + i]) == Some(
                    counts[i] as int,
                )
        }),
{
    let ws = section_words(key, blob, state, shown);
    let n = shown.len() as int;
    let line = phrase(ws);
    lemma_marks_are_words(key);
    lemma_marks_are_words(state);
    assert forall|i: int| 0 <= i < ws.len() implies is_word(#[trigger] ws[i]) by {
        if 1 <= i < 1 + blob.len() {
            assert(ws[i] == blob[i - 1]);
        } else if i > 1 + blob.len() {
            assert(ws[i] == shown[i - 2 - blob.len()]);
            assert(shows_count(shown[i - 2 - blob.len()], counts[i - 2 - blob.len()]));
        }
    }
    law_words_of_phrase(ws);
    lemma_trimmed_phrase(ws);
    assert(is_digit(key[0]));
    assert(line[0] == line.take(key.len() as int)[0]);
    reveal_strlit("RDS KEY");
    if line.len() >= 7 {
        assert(upper(line.take(7))[0] == line[0]);
    }
    assert forall|i: int| 0 <= i < n implies grouped_count(#[trigger] ws[ws.len() - n + i]) == Some(
        counts[i] as int,
    ) by {
        assert(ws[ws.len() - n + i] == shown[i]);
        assert(shows_count(shown[i], counts[i]));
        lemma_ungrouped(shown[i]);
        law_decimal_reads_back(counts[i] as int, i64::MAX as nat);
    }
    assert(ws.subrange(1, ws.len() - n - 1) == blob);
}

/// A row of a section that names its license for the first time reads back as
/// what it was written from: the license gets a row of its own behind the others,
/// with its key, its state, the words between them in name, street and city, and
/// each count in the column that the header names at its place. The other rows
/// stay.
pub proof fn law_section_line_reads_back(
    scan: Scan,
    key: Seq<char>,
    blob: Seq<Seq<char>>,
    state: Seq<char>,
    shown: Seq<Seq<char>>,
    counts: Seq<i64>,
    year: int,
    versions: Versions,
)
    requires
        can_be_written(scan.cols, key, blob, state, shown, counts),
        forall|i: int| 0 <= i < scan.entries.len() ==> (#[trigger] scan.entries[i]).0 != key,
    ensures
        ({
            let line = phrase(section_words(key, blob, state, shown));
            let after = scan_line(scan, line, year, versions);
            let before = entry_rows(scan.entries, false, year, versions);
            let rows = entry_rows(after.entries, false, year, versions);
            let row = rows.last();
            &&& after.cols == scan.cols
            &&& after.sections == scan.sections
            &&& rows.len() == before.len() + 1
            &&& rows.drop_last() == before
            &&& row.rds_key == key
            &&& row.app_lic_type == Seq::<char>::empty()
            &&& words(row.app_license_name) + words(row.app_premise_street) + words(
                row.app_premise_city,
            ) == blob
            &&& row.app_premise_state == state
            &&& row.counts.len() == 22
            &&& forall|i: int|
                0 <= i < counts.len() ==> row.counts[#[trigger] scan.cols[i]] == counts[i]
            &&& forall|c: int|
                0 <= c < 22 && !scan.cols.contains(c) ==> #[trigger] row.counts[c] == 0
            &&& row.name_source is FflPrefix <==> after.unsplit == scan.unsplit
            &&& row.name_source is Heuristic <==> after.unsplit == scan.unsplit + 1
            &&& !versions.contains_key(key) ==> row.name_source is Heuristic
        }),
{
    let ws = section_words(key, blob, state, shown);
    let n = shown.len() as int;
    let line = phrase(ws);
    lemma_section_words(key, blob, state, shown, counts);
    let version = effective(versions, key, year);
    let rec = section_rec(ws, scan.cols, version);
    law_cut_keeps_words(blob, version);
    law_counts_follow_the_header(ws, scan.cols);
    crate::histpdf::lemma_placed(ws, scan.cols, n);
    lemma_key_position(scan.entries, key);
    let after = scan_line(scan, line, year, versions);
    assert(after.entries == scan.entries.push((key, rec)));
    let rows = entry_rows(after.entries, false, year, versions);
    let before = entry_rows(scan.entries, false, year, versions);
    assert(rows.drop_last() == before);
    assert forall|i: int| 0 <= i < counts.len() implies rows.last().counts[
        #[trigger] scan.cols[i]
    ] == counts[i] by {
        assert(grouped_count(ws[ws.len() - n + i]) == Some(counts[i] as int));
    }
}

/// A row of a section that names a license that has a row already adds to it: the
/// counts of the section that are not zero come in, all other counts and the name,
/// street, city and state stay, except that a field that was empty is filled. The
/// other rows stay.
pub proof fn law_section_line_joins(
    scan: Scan,
    at: int,
    blob: Seq<Seq<char>>,
    state: Seq<char>,
    shown: Seq<Seq<char>>,
    counts: Seq<i64>,
    year: int,
    versions: Versions,
)
    requires
        0 <= at < scan.entries.len(),
        keys_distinct(scan.entries),
        scan.entries[at].1.counts.len() == 22,
        can_be_written(scan.cols, scan.entries[at].0, blob, state, shown, counts),
    ensures
        ({
            let line = phrase(section_words(scan.entries[at].0, blob, state, shown));
            let after = scan_line(scan, line, year, versions);
            let before = entry_rows(scan.entries, false, year, versions);
            let rows = entry_rows(after.entries, false, year, versions);
            let (old, row) = (before[at], rows[at]);
            &&& rows.len() == before.len()
            &&& forall|i: int| 0 <= i < rows.len() && i != at ==> #[trigger] rows[i] == before[i]
            &&& row.rds_key == old.rds_key
            &&& old.app_license_name.len() > 0 ==> row.app_license_name == old.app_license_name
            &&& old.app_premise_street.len() > 0 ==> row.app_premise_street
                == old.app_premise_street
            &&& old.app_premise_city.len() > 0 ==> row.app_premise_city == old.app_premise_city
            &&& old.app_premise_state.len() > 0 ==> row.app_premise_state
                == old.app_premise_state
            &&& old.app_premise_state.len() == 0 ==> row.app_premise_state == state
            &&& forall|i: int|
                0 <= i < counts.len() && counts[i] != 0 ==> row.counts[#[trigger] scan.cols[i]]
                    == counts[i]
            &&& forall|c: int|
                0 <= c < 22 && !scan.cols.contains(c) ==> #[trigger] row.counts[c]
                    == old.counts[c]
        }),
{
    let key = scan.entries[at].0;
    let ws = section_words(key, blob, state, shown);
    let n = shown.len() as int;
    let line = phrase(ws);
    lemma_section_words(key, blob, state, shown, counts);
    let rec = section_rec(ws, scan.cols, effective(versions, key, year));
    law_counts_follow_the_header(ws, scan.cols);
    crate::histpdf::lemma_placed(ws, scan.cols, n);
    lemma_key_position(scan.entries, key);
    assert(key_position(scan.entries, key) == at);
    let after = scan_line(scan, line, year, versions);
    assert(after.entries == with_entry(scan.entries, key, rec));
    let rows = entry_rows(after.entries, false, year, versions);
    assert forall|i: int| 0 <= i < counts.len() && counts[i] != 0 implies rows[at].counts[
        #[trigger] scan.cols[i]
    ] == counts[i] by {
        assert(grouped_count(ws[ws.len() - n + i]) == Some(counts[i] as int));
        assert(rec.counts[scan.cols[i]] == counts[i]);
        assert(0 <= scan.cols[i] < 22);
    }
    assert forall|c: int| 0 <= c < 22 && !scan.cols.contains(c) implies #[trigger] rows[at].counts[c]
        == scan.entries[at].1.counts[c] by {
        assert(rec.counts[c] == 0);
    }
}

/// A line that is no column header and lacks anything of a row changes nothing: a
/// key of six to nine digits, at least one word, a state of two letters and a
/// number for each column.
pub proof fn law_other_lines_are_passed_over(
    scan: Scan,
    line: Seq<char>,
    year: int,
    versions: Versions,
)
    requires
        !is_column_header(trimmed(line)),
        ({
            let ws = words(trimmed(line));
            let n = scan.cols.len() as int;
            ||| n == 0
            ||| ws.len() < n + 3
            ||| ws[0].len() < 6
            ||| ws[0].len() > 9
            ||| !all_digits(ws[0])
            ||| ws[ws.len() - n - 1].len() != 2
            ||| !all_letters(ws[ws.len() - n - 1])
            ||| exists|i: int|
                0 <= i < n && signed(
                    (#[trigger] ws[ws.len() - n + i]).filter(|c: char| c != ','),
                    i64::MAX as nat,
                ) is None
        }),
    ensures
        scan_line(scan, line, year, versions) == scan,
{
    let ws = words(trimmed(line));
    let n = scan.cols.len() as int;
    if exists|i: int|
        0 <= i < n && signed(
            (#[trigger] ws[ws.len() - n + i]).filter(|c: char| c != ','),
            i64::MAX as nat,
        ) is None {
        let i = choose|i: int|
            0 <= i < n && signed(
                (#[trigger] ws[ws.len() - n + i]).filter(|c: char| c != ','),
                i64::MAX as nat,
            ) is None;
        lemma_ungrouped(ws[ws.len() - n + i]);
        assert(grouped_count(ws[ws.len() - n + i]) is None);
    }
}

/// A report is read line by line: nothing is known in front of the first line, and
/// each further line is read behind those before it.
pub proof fn law_report_is_read_line_by_line(
    ls: Seq<Seq<char>>,
    line: Seq<char>,
    year: int,
    versions: Versions,
)
    ensures
        scan_lines(Seq::empty(), year, versions).entries.len() == 0,
        scan_lines(Seq::empty(), year, versions).cols.len() == 0,
        scan_lines(Seq::empty(), year, versions).sections == 0,
        scan_lines(Seq::empty(), year, versions).unsplit == 0,
        scan_lines(ls.push(line), year, versions) == scan_line(
            scan_lines(ls, year, versions),
            line,
            year,
            versions,
        ),
{
    assert(ls.push(line).drop_last() == ls);
}

/// The words of a column header: those in front of the state column, the state
/// column and those behind it.
pub open spec fn heads_section(front: Seq<Seq<char>>, mark: Seq<char>, tail: Seq<Seq<char>>) -> bool {
    &&& all_words(front)
    &&& is_word(mark)
    &&& all_words(tail)
    &&& front.len() >= 2
    &&& upper(front[0]) == "RDS"@
    &&& upper(front[1]) == "KEY"@
    &&& forall|i: int| 0 <= i < front.len() ==> upper(#[trigger] front[i]) != "STATE"@
    &&& upper(mark) == "STATE"@
    &&& tail.len() > 0
}

proof fn lemma_state_position(ws: Seq<Seq<char>>, from: int, at: int)
    requires
        0 <= from <= at < ws.len(),
        forall|i: int| 0 <= i < at ==> upper(#[trigger] ws[i]) != "STATE"@,
        upper(ws[at]) == "STATE"@,
    ensures
        state_position(ws, from) == at,
    decreases at - from,
{
    if from < at {
        assert(upper(ws[from]) != "STATE"@);
        lemma_state_position(ws, from + 1, at);
    }
}

proof fn lemma_heads_section(front: Seq<Seq<char>>, mark: Seq<char>, tail: Seq<Seq<char>>)
    requires
        heads_section(front, mark, tail),
    ensures
        ({
            let ws = front + seq![mark] + tail;
            let line = phrase(ws);
            &&& trimmed(line) == line
            &&& words(line) == ws
            &&& is_column_header(line)
            &&& state_position(ws, 0) == front.len()
        }),
{
    let ws = front + seq![mark] + tail;
    let line = phrase(ws);
    assert(all_words(ws)) by {
        assert forall|i: int| 0 <= i < ws.len() implies is_word(#[trigger] ws[i]) by {
            if i < front.len() {
                assert(ws[i] == front[i]);
            } else if i > front.len() {
                assert(ws[i] == tail[i - front.len() - 1]);
            }
        }
    }
    law_words_of_phrase(ws);
    lemma_trimmed_phrase(ws);
    assert forall|i: int| 0 <= i < front.len() implies upper(#[trigger] ws[i]) != "STATE"@ by {
        assert(ws[i] == front[i]);
    }
    lemma_state_position(ws, 0, front.len() as int);
    reveal_strlit("RDS");
    reveal_strlit("KEY");
    reveal_strlit("RDS KEY");
    let (a, b) = (ws[0], ws[1]);
    assert(a == front[0] && b == front[1]);
    assert(upper(a).len() == 3 && upper(b).len() == 3);
    let rest = ws.skip(1);
    lemma_join_front(ws, seq![' ']);
    lemma_join_front(rest, seq![' ']);
    assert(rest[0] == b);
    let more = seq![' '] + phrase(rest.skip(1));
    assert(line == a + (seq![' '] + (b + more)));
    assert(line.take(7) == a + seq![' '] + b);
    assert(upper(line.take(7)) == upper(a) + seq![' '] + upper(b)) by {
        assert(upper(line.take(7)) =~= upper(a) + seq![' '] + upper(b));
    }
    assert("RDS KEY"@ =~= "RDS"@ + seq![' '] + "KEY"@);
}

/// A column header that names one count column, in all the words behind the state
/// column, begins a section of that column; what was read before it stays.
pub proof fn law_header_begins_a_section(
    scan: Scan,
    front: Seq<Seq<char>>,
    mark: Seq<char>,
    tail: Seq<Seq<char>>,
    c: int,
    year: int,
    versions: Versions,
)
    requires
        heads_section(front, mark, tail),
        upper(tail[0]) != "PISTOL"@,
        upper(tail[0]) != "REVOLVER"@,
        count_column(phrase(tail)) == Some(c),
    ensures
        ({
            let line = phrase(front + seq![mark] + tail);
            let after = scan_line(scan, line, year, versions);
            &&& after.cols == seq![c]
            &&& after.sections == scan.sections + 1
            &&& after.entries == scan.entries
            &&& after.unsplit == scan.unsplit
        }),
{
    let ws = front + seq![mark] + tail;
    lemma_heads_section(front, mark, tail);
    let m = front.len() as int + 1;
    assert(ws[m] == tail[0]);
    assert(ws.skip(m) == tail);
}

/// A line is a column header exactly where it begins with `RDS Key`, in any letter
/// case. One that names no count column changes nothing.
pub proof fn law_headers_without_columns_are_passed_over(
    scan: Scan,
    line: Seq<char>,
    front: Seq<Seq<char>>,
    mark: Seq<char>,
    tail: Seq<Seq<char>>,
    year: int,
    versions: Versions,
)
    ensures
        is_column_header(line) <==> line.len() >= 7 && upper(line).take(7) == "RDS KEY"@,
        heads_section(front, mark, tail) && upper(tail[0]) != "PISTOL"@ && upper(tail[0])
            != "REVOLVER"@ && count_column(phrase(tail)) is None ==> scan_line(
            scan,
            phrase(front + seq![mark] + tail),
            year,
            versions,
        ) == scan,
{
    if line.len() >= 7 {
        assert(upper(line.take(7)) =~= upper(line).take(7));
    }
    if heads_section(front, mark, tail) {
        let ws = front + seq![mark] + tail;
        let m = front.len() as int + 1;
        lemma_heads_section(front, mark, tail);
        assert(ws[m] == tail[0]);
        assert(ws.skip(m) == tail);
    }
}

/// A column header that names calibers, two words each, begins a section of their
/// columns in that order.
pub proof fn law_caliber_header_begins_a_section(
    scan: Scan,
    front: Seq<Seq<char>>,
    mark: Seq<char>,
    tail: Seq<Seq<char>>,
    cols: Seq<int>,
    year: int,
    versions: Versions,
)
    requires
        heads_section(front, mark, tail),
        cols.len() > 0,
        tail.len() == 2 * cols.len(),
        forall|i: int|
            0 <= i < cols.len() ==> {
                let pair = #[trigger] pair_at(tail, 0, i);
                &&& upper(pair[0]) == "PISTOL"@ || upper(pair[0]) == "REVOLVER"@
                &&& count_column(phrase(pair)) == Some(cols[i])
            },
    ensures
        ({
            let line = phrase(front + seq![mark] + tail);
            let after = scan_line(scan, line, year, versions);
            &&& after.cols == cols
            &&& after.sections == scan.sections + 1
            &&& after.entries == scan.entries
            &&& after.unsplit == scan.unsplit
        }),
{
    let ws = front + seq![mark] + tail;
    let m = front.len() as int + 1;
    let n = cols.len() as int;
    lemma_heads_section(front, mark, tail);
    assert forall|i: int| 0 <= i < n implies #[trigger] pair_at(ws, m, i) == pair_at(
        tail,
        0,
        i,
    ) by {
        assert(pair_at(ws, m, i) =~= pair_at(tail, 0, i));
    }
    assert(names_calibers(ws, m, n)) by {
        assert forall|i: int| 0 <= i < n implies crate::histpdf_laws::is_caliber(
            #[trigger] pair_at(ws, m, i),
        ) by {
            assert(pair_at(tail, 0, i) == pair_at(ws, m, i));
        }
    }
    let line = phrase(ws);
    lemma_caliber_columns(line, m, n);
    assert forall|i: int| 0 <= i < n implies header_columns(line)[i] == cols[i] by {
        assert(pair_at(ws, m, i) == pair_at(tail, 0, i));
    }
    assert(header_columns(line) =~= cols);
}

/// A text with the words of a phrase has as many.
pub proof fn lemma_same_length(ws: Seq<Seq<char>>, a: Seq<char>)
    requires
        all_words(ws),
        same_words(a, phrase(ws)),
    ensures
        words(a).len() == ws.len(),
{
    law_words_of_phrase(ws);
    assert(upper_words(words(a)).len() == words(a).len());
    assert(upper_words(ws).len() == ws.len());
}

proof fn lemma_name_found(ws: Seq<Seq<char>>, name: Seq<char>, k: int, from: int)
    requires
        all_words(ws),
        0 <= from <= k <= ws.len(),
        same_words(name, phrase(ws.take(k))),
    ensures
        name_end(ws, crate::text::norm_text(name), from) == Some(k),
    decreases k - from,
{
    lemma_norm_is_words(name, phrase(ws.take(k)));
    if from < k {
        assert(all_words(ws.take(k)));
        assert(all_words(ws.take(from)));
        lemma_same_length(ws.take(k), name);
        lemma_norm_is_words(name, phrase(ws.take(from)));
        if same_words(name, phrase(ws.take(from))) {
            lemma_same_length(ws.take(from), name);
        }
        lemma_name_found(ws, name, k, from + 1);
    }
}

proof fn lemma_no_name(ws: Seq<Seq<char>>, name: Seq<char>, from: int)
    requires
        1 <= from,
        forall|k: int| 1 <= k <= ws.len() ==> !same_words(name, phrase(#[trigger] ws.take(k))),
    ensures
        name_end(ws, crate::text::norm_text(name), from) is None,
    decreases ws.len() + 1 - from,
{
    if from <= ws.len() {
        lemma_norm_is_words(name, phrase(ws.take(from)));
        lemma_no_name(ws, name, from + 1);
    }
}

proof fn lemma_city_found(ws: Seq<Seq<char>>, city: Seq<char>, j: int, from: int)
    requires
        all_words(ws),
        0 <= from <= j < ws.len(),
        same_words(city, phrase(ws.skip(j))),
    ensures
        city_start(ws, crate::text::norm_text(city), from) == Some(j),
    decreases j - from,
{
    lemma_norm_is_words(city, phrase(ws.skip(j)));
    if from < j {
        assert(all_words(ws.skip(j)));
        assert(all_words(ws.skip(from)));
        lemma_same_length(ws.skip(j), city);
        lemma_norm_is_words(city, phrase(ws.skip(from)));
        if same_words(city, phrase(ws.skip(from))) {
            lemma_same_length(ws.skip(from), city);
        }
        lemma_city_found(ws, city, j, from + 1);
    }
}

proof fn lemma_no_city(ws: Seq<Seq<char>>, city: Seq<char>, from: int)
    requires
        0 <= from,
        forall|j: int| 0 <= j < ws.len() ==> !same_words(city, phrase(#[trigger] ws.skip(j))),
    ensures
        city_start(ws, crate::text::norm_text(city), from) is None,
    decreases ws.len() - from,
{
    if from < ws.len() {
        lemma_norm_is_words(city, phrase(ws.skip(from)));
        lemma_no_city(ws, city, from + 1);
    }
}

/// Whether the street begins behind `k` words: none of them begins with a digit,
/// and the next does, or there is none.
pub open spec fn street_follows(ws: Seq<Seq<char>>, k: int) -> bool {
    &&& 0 <= k <= ws.len()
    &&& forall|i: int| 0 <= i < k ==> !((#[trigger] ws[i]).len() > 0 && is_digit(ws[i][0]))
    &&& k < ws.len() ==> ws[k].len() > 0 && is_digit(ws[k][0])
}

/// Whether the first `k` words are the license name of a version.
pub open spec fn is_name(ws: Seq<Seq<char>>, v: VersionText, k: int) -> bool {
    1 <= k <= ws.len() && same_words(v.record.license_name, phrase(ws.take(k)))
}

/// Whether the words from `j` on are the premise city of a version.
pub open spec fn is_city(ws: Seq<Seq<char>>, v: VersionText, j: int) -> bool {
    0 <= j < ws.len() && same_words(v.record.premise_city, phrase(ws.skip(j)))
}

/// Words at the front that are the license name are the name, and words at the
/// end that are the premise city are the city, unless the two overlap. Without
/// the name, the first word that begins with a digit begins the street; without
/// the city, the street runs to the end. The split is resolved where either was
/// found.
pub proof fn law_license_parts_the_fields(ws: Seq<Seq<char>>, v: VersionText, k: int, j: int)
    requires
        all_words(ws),
    ensures
        ({
            let cut = field_cut(ws, Some(v));
            let n = ws.len() as int;
            let no_name = forall|i: int| !#[trigger] is_name(ws, v, i);
            let no_city = forall|i: int| !#[trigger] is_city(ws, v, i);
            &&& is_name(ws, v, k) && is_city(ws, v, j) && k <= j ==> cut.name == k && cut.city == j
                && cut.resolved
            &&& is_name(ws, v, k) && is_city(ws, v, j) && j < k ==> cut.name == k && cut.city == n
                && cut.resolved
            &&& is_name(ws, v, k) && no_city ==> cut.name == k && cut.city == n && cut.resolved
            &&& no_name && is_city(ws, v, j) ==> street_follows(ws.take(j), cut.name) && cut.city
                == j && cut.resolved
            &&& no_name && no_city ==> street_follows(ws, cut.name) && cut.city == n
                && !cut.resolved
        }),
{
    let (name, city) = (v.record.license_name, v.record.premise_city);
    let no_name = forall|i: int| !#[trigger] is_name(ws, v, i);
    let no_city = forall|i: int| !#[trigger] is_city(ws, v, i);
    lemma_first_number(ws, 0);
    lemma_norm_is_words(city, city);
    if is_name(ws, v, k) {
        lemma_name_found(ws, name, k, 1);
    }
    if is_city(ws, v, j) {
        assert(all_words(ws.skip(j)));
        lemma_same_length(ws.skip(j), city);
        lemma_city_found(ws, city, j, 0);
        lemma_first_number(ws.take(j), 0);
    }
    if no_name {
        assert forall|i: int| 1 <= i <= ws.len() implies !same_words(
            name,
            phrase(#[trigger] ws.take(i)),
        ) by {
            assert(!is_name(ws, v, i));
        }
        lemma_no_name(ws, name, 1);
    }
    if no_city {
        assert forall|i: int| 0 <= i < ws.len() implies !same_words(
            city,
            phrase(#[trigger] ws.skip(i)),
        ) by {
            assert(!is_city(ws, v, i));
        }
        lemma_no_city(ws, city, 0);
    }
    let cut = field_cut(ws, Some(v));
    if no_name && is_city(ws, v, j) {
        let front = ws.take(j);
        assert forall|i: int| 0 <= i < cut.name implies !((#[trigger] front[i]).len() > 0
            && is_digit(front[i][0])) by {
            assert(!starts_with_digit(front[i]));
        }
    }
    if no_name && no_city {
        assert forall|i: int| 0 <= i < cut.name implies !((#[trigger] ws[i]).len() > 0
            && is_digit(ws[i][0])) by {
            assert(!starts_with_digit(ws[i]));
        }
    }
}

/// Without a license the first word that begins with a digit begins the street,
/// which runs to the end, and the split is not resolved.
pub proof fn law_house_number_parts_the_fields(ws: Seq<Seq<char>>)
    ensures
        ({
            let cut = field_cut(ws, None);
            street_follows(ws, cut.name) && cut.city == ws.len() && !cut.resolved
        }),
{
    lemma_first_number(ws, 0);
    let cut = field_cut(ws, None);
    assert forall|i: int| 0 <= i < cut.name implies !((#[trigger] ws[i]).len() > 0 && is_digit(
        ws[i][0],
    )) by {
        assert(!starts_with_digit(ws[i]));
    }
}

/// Whether a row shows a split of words into name, street and city.
pub open spec fn shows_split(row: RowText, ws: Seq<Seq<char>>, name: int, city: int) -> bool {
    &&& row.app_license_name == phrase(ws.take(name))
    &&& row.app_premise_street == phrase(ws.subrange(name, city))
    &&& row.app_premise_city == phrase(ws.skip(city))
}

/// The row of a license shows the words in front of its state as its version of the
/// year parts them: the license name, the street and the premise city. What the
/// version does not tell, the house number does.
pub proof fn law_section_rows_show_the_split(
    scan: Scan,
    key: Seq<char>,
    blob: Seq<Seq<char>>,
    state: Seq<char>,
    shown: Seq<Seq<char>>,
    counts: Seq<i64>,
    year: int,
    versions: Versions,
    k: int,
    j: int,
)
    requires
        can_be_written(scan.cols, key, blob, state, shown, counts),
        forall|i: int| 0 <= i < scan.entries.len() ==> (#[trigger] scan.entries[i]).0 != key,
    ensures
        ({
            let line = phrase(section_words(key, blob, state, shown));
            let after = scan_line(scan, line, year, versions);
            let row = entry_rows(after.entries, false, year, versions).last();
            let n = blob.len() as int;
            match effective(versions, key, year) {
                Some(v) => {
                    let no_name = forall|i: int| !#[trigger] is_name(blob, v, i);
                    let no_city = forall|i: int| !#[trigger] is_city(blob, v, i);
                    &&& is_name(blob, v, k) && is_city(blob, v, j) && k <= j ==> shows_split(
                        row,
                        blob,
                        k,
                        j,
                    ) && row.name_source is FflPrefix
                    &&& is_name(blob, v, k) && is_city(blob, v, j) && j < k ==> shows_split(
                        row,
                        blob,
                        k,
                        n,
                    ) && row.name_source is FflPrefix
                    &&& is_name(blob, v, k) && no_city ==> shows_split(row, blob, k, n)
                        && row.name_source is FflPrefix
                    &&& no_name && is_city(blob, v, j) && street_follows(blob.take(j), k)
                        ==> shows_split(row, blob, k, j) && row.name_source is FflPrefix
                    &&& no_name && no_city && street_follows(blob, k) ==> shows_split(
                        row,
                        blob,
                        k,
                        n,
                    ) && row.name_source is Heuristic
                },
                None => street_follows(blob, k) ==> shows_split(row, blob, k, n)
                    && row.name_source is Heuristic,
            }
        }),
{
    let ws = section_words(key, blob, state, shown);
    lemma_section_words(key, blob, state, shown, counts);
    let version = effective(versions, key, year);
    let rec = section_rec(ws, scan.cols, version);
    lemma_key_position(scan.entries, key);
    let after = scan_line(scan, phrase(ws), year, versions);
    assert(after.entries == scan.entries.push((key, rec)));
    law_house_number_parts_the_fields(blob);
    let cut = field_cut(blob, version);
    if street_follows(blob, k) && street_follows(blob, cut.name) {
        lemma_street_follows_once(blob, k, cut.name);
    }
    if let Some(v) = version {
        law_license_parts_the_fields(blob, v, k, j);
        if 0 <= j <= blob.len() && street_follows(blob.take(j), k) && street_follows(
            blob.take(j),
            cut.name,
        ) {
            lemma_street_follows_once(blob.take(j), k, cut.name);
        }
    }
}

/// There is one place at which the street begins.
pub proof fn lemma_street_follows_once(ws: Seq<Seq<char>>, a: int, b: int)
    requires
        street_follows(ws, a),
        street_follows(ws, b),
    ensures
        a == b,
{
    if a < b {
        assert(!(ws[a].len() > 0 && is_digit(ws[a][0])));
    } else if b < a {
        assert(!(ws[b].len() > 0 && is_digit(ws[b][0])));
    }
}

proof fn lemma_phrase_is_one_line(ws: Seq<Seq<char>>)
    requires
        all_words(ws),
    ensures
        forall|i: int| 0 <= i < phrase(ws).len() ==> #[trigger] phrase(ws)[i] != '\n',
    decreases ws.len(),
{
    if ws.len() > 0 {
        let w = ws.last();
        assert(is_word(ws[ws.len() - 1]));
        let front = ws.drop_last();
        assert(all_words(front));
        lemma_phrase_is_one_line(front);
        let s = phrase(ws);
        let k = phrase(front).len() as int;
        assert forall|i: int| 0 <= i < s.len() implies #[trigger] s[i] != '\n' by {
            if ws.len() == 1 {
                assert(s == ws[0]);
                assert(!is_space(w[i]));
            } else if i < k {
                assert(s[i] == phrase(front)[i]);
            } else if i > k {
                assert(s[i] == w[i - k - 1]);
                assert(!is_space(w[i - k - 1]));
            }
        }
    }
}

/// The text of a report of one section with one row, down to the row: it has the key,
/// the state, the words between them and the count in the column that the header
/// names, and zero in all others.
pub proof fn law_report_reads_back(
    front: Seq<Seq<char>>,
    mark: Seq<char>,
    tail: Seq<Seq<char>>,
    c: int,
    key: Seq<char>,
    blob: Seq<Seq<char>>,
    state: Seq<char>,
    shown: Seq<char>,
    count: i64,
    year: int,
    versions: Versions,
)
    requires
        heads_section(front, mark, tail),
        upper(tail[0]) != "PISTOL"@,
        upper(tail[0]) != "REVOLVER"@,
        count_column(phrase(tail)) == Some(c),
        can_be_written(seq![c], key, blob, state, seq![shown], seq![count]),
    ensures
        ({
            let header = phrase(front + seq![mark] + tail);
            let line = phrase(section_words(key, blob, state, seq![shown]));
            let scan = scan_lines(lines(header + seq!['\n'] + line), year, versions);
            let rows = entry_rows(scan.entries, false, year, versions);
            &&& scan.sections == 1
            &&& rows.len() == 1
            &&& rows[0].rds_key == key
            &&& words(rows[0].app_license_name) + words(rows[0].app_premise_street) + words(
                rows[0].app_premise_city,
            ) == blob
            &&& rows[0].app_premise_state == state
            &&& rows[0].counts.len() == 22
            &&& forall|k: int|
                0 <= k < 22 ==> #[trigger] rows[0].counts[k] == if k == c {
                    count
                } else {
                    0
                }
        }),
{
    let hs = front + seq![mark] + tail;
    let ls = section_words(key, blob, state, seq![shown]);
    let (header, line) = (phrase(hs), phrase(ls));
    let none = Seq::<Seq<char>>::empty();
    lemma_heads_section(front, mark, tail);
    assert forall|i: int| 0 <= i < seq![shown].len() implies shows_count(
        #[trigger] seq![shown][i],
        seq![count][i],
    ) by {
    }
    lemma_section_words(key, blob, state, seq![shown], seq![count]);
    law_words_are_words(header);
    law_words_are_words(line);
    lemma_phrase_is_one_line(hs);
    lemma_phrase_is_one_line(ls);
    lemma_trimmed_phrase(hs);
    lemma_trimmed_phrase(ls);
    law_lines_end_at_line_feeds(header, line);
    law_lines_end_at_line_feeds(line, Seq::empty());
    assert(is_word(hs[hs.len() - 1]));
    assert(header.last() == hs.last().last()) by {
        lemma_last_of_phrase(hs);
    }
    assert(!is_space(header.last()));
    let text = header + seq!['\n'] + line;
    assert(lines(text) == seq![header, line]);
    let start = scan_lines(none, year, versions);
    law_report_is_read_line_by_line(none, header, year, versions);
    law_report_is_read_line_by_line(none.push(header), line, year, versions);
    assert(none.push(header).push(line) == seq![header, line]);
    law_header_begins_a_section(start, front, mark, tail, c, year, versions);
    let second = scan_line(start, header, year, versions);
    assert(second.cols == seq![c]);
    law_section_line_reads_back(
        second,
        key,
        blob,
        state,
        seq![shown],
        seq![count],
        year,
        versions,
    );
    let rows = entry_rows(scan_line(second, line, year, versions).entries, false, year, versions);
    assert(rows.last().counts[second.cols[0]] == count);
    assert forall|k: int| 0 <= k < 22 implies #[trigger] rows[0].counts[k] == if k == c {
        count
    } else {
        0
    } by {
        if k != c {
            assert(!second.cols.contains(k));
        }
    }
}

proof fn lemma_last_of_phrase(ws: Seq<Seq<char>>)
    requires
        ws.len() > 0,
        ws.last().len() > 0,
    ensures
        phrase(ws).len() > 0,
        phrase(ws).last() == ws.last().last(),
{
}

proof fn lemma_pairs_shift(a: Seq<Seq<char>>, i: int, b: Seq<Seq<char>>, j: int)
    requires
        0 <= i <= a.len(),
        0 <= j <= b.len(),
        a.skip(i) == b.skip(j),
    ensures
        pair_columns(a, i) == pair_columns(b, j),
    decreases a.len() - i,
{
    assert(a.skip(i).len() == a.len() - i);
    assert(b.skip(j).len() == b.len() - j);
    if i + 1 < a.len() {
        assert(a.subrange(i, i + 2) == a.skip(i).subrange(0, 2));
        assert(b.subrange(j, j + 2) == b.skip(j).subrange(0, 2));
        assert(a.skip(i + 2) == a.skip(i).skip(2));
        assert(b.skip(j + 2) == b.skip(j).skip(2));
        lemma_pairs_shift(a, i + 2, b, j + 2);
    }
}

/// Two words in front of the calibers of a header that name none are passed over.
pub proof fn law_unknown_calibers_are_passed_over(
    front: Seq<Seq<char>>,
    mark: Seq<char>,
    pair: Seq<Seq<char>>,
    tail: Seq<Seq<char>>,
)
    requires
        heads_section(front, mark, tail),
        upper(tail[0]) == "PISTOL"@ || upper(tail[0]) == "REVOLVER"@,
        all_words(pair),
        pair.len() == 2,
        upper(pair[0]) == "PISTOL"@ || upper(pair[0]) == "REVOLVER"@,
        count_column(phrase(pair)) is None,
    ensures
        header_columns(phrase(front + seq![mark] + (pair + tail))) == header_columns(
            phrase(front + seq![mark] + tail),
        ),
{
    let a = front + seq![mark] + (pair + tail);
    let b = front + seq![mark] + tail;
    let m = front.len() as int + 1;
    assert(all_words(pair + tail)) by {
        assert forall|i: int| 0 <= i < (pair + tail).len() implies is_word(
            #[trigger] (pair + tail)[i],
        ) by {
            if i < 2 {
                assert((pair + tail)[i] == pair[i]);
            } else {
                assert((pair + tail)[i] == tail[i - 2]);
            }
        }
    }
    lemma_heads_section(front, mark, tail);
    lemma_heads_section(front, mark, pair + tail);
    assert(a[m] == pair[0]);
    assert(b[m] == tail[0]);
    assert(a.subrange(m, m + 2) == pair);
    assert(a.skip(m + 2) == tail);
    assert(b.skip(m) == tail);
    lemma_pairs_shift(a, m + 2, b, m);
}

/// White space around a line does not matter, whether it is a header, a row or
/// anything else.
pub proof fn law_indented_lines_read_alike(
    scan: Scan,
    a: Seq<char>,
    line: Seq<char>,
    b: Seq<char>,
    year: int,
    versions: Versions,
)
    requires
        forall|i: int| 0 <= i < a.len() ==> is_space(#[trigger] a[i]),
        forall|i: int| 0 <= i < b.len() ==> is_space(#[trigger] b[i]),
        line.len() > 0,
        !is_space(line[0]),
        !is_space(line.last()),
    ensures
        scan_line(scan, a + line + b, year, versions) == scan_line(scan, line, year, versions),
{
    let none = Seq::<char>::empty();
    law_trim_removes_the_ends(a, line, b);
    law_trim_removes_the_ends(none, line, none);
    assert(none + line + none == line);
}

} // verus!
