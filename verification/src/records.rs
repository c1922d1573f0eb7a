//! License records from the rows of a snapshot, by the names of its columns.

use crate::cells::{row_to_strings, sheet_text, Cell};
use crate::ffl::{empty_record, record_texts, FflRecord, RecordText};
use crate::text::{
    all_words, chars_of, is_space, is_word, join, join_all, law_words_of_phrase, lemma_join_front, phrase,
    same, string_of, texts, to_upper, trim, trimmed, upper, words, words_of,
};
use vstd::prelude::*;

verus! {

/// A field of a license record.
#[derive(Clone, Copy)]
pub enum Field {
    LicRegn,
    LicDist,
    LicCnty,
    LicType,
    LicXprdte,
    LicSeqn,
    LicenseName,
    BusinessName,
    PremiseStreet,
    PremiseCity,
    PremiseState,
    PremiseZip,
    MailStreet,
    MailCity,
    MailState,
    MailZip,
    VoicePhone,
}

/// The text without the byte order marks in front of it.
pub open spec fn without_bom(s: Seq<char>) -> Seq<char>
    decreases s.len(),
{
    if s.len() > 0 && s[0] == '\u{feff}' {
        without_bom(s.skip(1))
    } else {
        s
    }
}

/// The name of a column: its header in upper case, without byte order marks and
/// with runs of white space as single underscores.
pub open spec fn header_name(h: Seq<char>) -> Seq<char> {
    upper(join(words(without_bom(h)), "_"@))
}

/// The field that a column holds, none for a column of no interest.
pub open spec fn field_named(name: Seq<char>) -> Option<Field> {
    if name == "LIC_REGN"@ {
        Some(Field::LicRegn)
    } else if name == "LIC_DIST"@ {
        Some(Field::LicDist)
    } else if name == "LIC_CNTY"@ {
        Some(Field::LicCnty)
    } else if name == "LIC_TYPE"@ {
        Some(Field::LicType)
    } else if name == "LIC_XPRDTE"@ {
        Some(Field::LicXprdte)
    } else if name == "LIC_SEQN"@ {
        Some(Field::LicSeqn)
    } else if name == "LICENSE_NAME"@ || name == "APP_LICENSE_NAME"@ {
        Some(Field::LicenseName)
    } else if name == "BUSINESS_NAME"@ {
        Some(Field::BusinessName)
    } else if name == "PREMISE_STREET"@ {
        Some(Field::PremiseStreet)
    } else if name == "PREMISE_CITY"@ {
        Some(Field::PremiseCity)
    } else if name == "PREMISE_STATE"@ {
        Some(Field::PremiseState)
    } else if name == "PREMISE_ZIP_CODE"@ || name == "PREMISE_ZIP"@ {
        Some(Field::PremiseZip)
    } else if name == "MAIL_STREET"@ {
        Some(Field::MailStreet)
    } else if name == "MAIL_CITY"@ {
        Some(Field::MailCity)
    } else if name == "MAIL_STATE"@ {
        Some(Field::MailState)
    } else if name == "MAIL_ZIP_CODE"@ || name == "MAIL_ZIP"@ {
        Some(Field::MailZip)
    } else if name == "VOICE_PHONE"@ {
        Some(Field::VoicePhone)
    } else {
        None
    }
}

/// The value of a field.
pub open spec fn field_value(r: RecordText, f: Field) -> Seq<char> {
    match f {
        Field::LicRegn => r.lic_regn,
        Field::LicDist => r.lic_dist,
        Field::LicCnty => r.lic_cnty,
        Field::LicType => r.lic_type,
        Field::LicXprdte => r.lic_xprdte,
        Field::LicSeqn => r.lic_seqn,
        Field::LicenseName => r.license_name,
        Field::BusinessName => r.business_name,
        Field::PremiseStreet => r.premise_street,
        Field::PremiseCity => r.premise_city,
        Field::PremiseState => r.premise_state,
        Field::PremiseZip => r.premise_zip,
        Field::MailStreet => r.mail_street,
        Field::MailCity => r.mail_city,
        Field::MailState => r.mail_state,
        Field::MailZip => r.mail_zip,
        Field::VoicePhone => r.voice_phone,
    }
}

/// The record with one field set.
pub open spec fn with_field(r: RecordText, f: Field, v: Seq<char>) -> RecordText {
    match f {
        Field::LicRegn => RecordText { lic_regn: v, ..r },
        Field::LicDist => RecordText { lic_dist: v, ..r },
        Field::LicCnty => RecordText { lic_cnty: v, ..r },
        Field::LicType => RecordText { lic_type: v, ..r },
        Field::LicXprdte => RecordText { lic_xprdte: v, ..r },
        Field::LicSeqn => RecordText { lic_seqn: v, ..r },
        Field::LicenseName => RecordText { license_name: v, ..r },
        Field::BusinessName => RecordText { business_name: v, ..r },
        Field::PremiseStreet => RecordText { premise_street: v, ..r },
        Field::PremiseCity => RecordText { premise_city: v, ..r },
        Field::PremiseState => RecordText { premise_state: v, ..r },
        Field::PremiseZip => RecordText { premise_zip: v, ..r },
        Field::MailStreet => RecordText { mail_street: v, ..r },
        Field::MailCity => RecordText { mail_city: v, ..r },
        Field::MailState => RecordText { mail_state: v, ..r },
        Field::MailZip => RecordText { mail_zip: v, ..r },
        Field::VoicePhone => RecordText { voice_phone: v, ..r },
    }
}

/// The record after the value of one column, which is trimmed.
pub open spec fn with_column(r: RecordText, name: Seq<char>, value: Seq<char>) -> RecordText {
    match field_named(name) {
        Some(f) => with_field(r, f, trimmed(value)),
        None => r,
    }
}

/// The record of the first `n` values of a row under columns of the given names.
/// A value without a column adds nothing.
pub open spec fn row_record(names: Seq<Seq<char>>, row: Seq<Seq<char>>, n: int) -> RecordText
    decreases n,
{
    if n <= 0 {
        empty_record()
    } else if n - 1 < names.len() {
        with_column(row_record(names, row, n - 1), names[n - 1], row[n - 1])
    } else {
        row_record(names, row, n - 1)
    }
}

pub open spec fn header_names(headers: Seq<Seq<char>>) -> Seq<Seq<char>> {
    Seq::new(headers.len(), |i: int| header_name(headers[i]))
}

/// The records of the rows under a row of headers.
pub open spec fn table_records(headers: Seq<Seq<char>>, rows: Seq<Seq<Seq<char>>>) -> Seq<
    RecordText,
> {
    Seq::new(
        rows.len(),
        |i: int| row_record(header_names(headers), rows[i], rows[i].len() as int),
    )
}

/// The records of a sheet of which the first row holds the headers.
pub open spec fn sheet_records(rows: Seq<Seq<Seq<char>>>) -> Seq<RecordText> {
    if rows.len() == 0 {
        Seq::empty()
    } else {
        table_records(rows[0], rows.skip(1))
    }
}

/// What the rows of a table hold.
pub open spec fn table_text(rows: Seq<Vec<String>>) -> Seq<Seq<Seq<char>>> {
    Seq::new(rows.len(), |i: int| texts(rows[i]@))
}

/// The name of a column, so that `Lic Regn` and `LIC_REGN` are the same.
pub fn norm_header(h: &str) -> (r: String)
    ensures
        r@ == header_name(h@),
{
    let chars = chars_of(h);
    let mut i: usize = 0;
    assert(h@.skip(0) == h@);
    while i < chars.len() && chars[i] == '\u{feff}'
        invariant
            i <= chars@.len(),
            chars@ == h@,
            without_bom(h@) == without_bom(h@.skip(i as int)),
        decreases chars@.len() - i,
    {
        assert(h@.skip(i as int).skip(1) == h@.skip(i + 1));
        i += 1;
    }
    let rest = string_of(&chars, i, chars.len());
    assert(rest@ == h@.skip(i as int));
    let ws = words_of(rest.as_str());
    let joined = join_all(&ws, "_");
    to_upper(joined.as_str())
}

/// The field that a column holds.
pub fn field_of(name: &str) -> (r: Option<Field>)
    ensures
        r == field_named(name@),
{
    if same(name, "LIC_REGN") {
        Some(Field::LicRegn)
    } else if same(name, "LIC_DIST") {
        Some(Field::LicDist)
    } else if same(name, "LIC_CNTY") {
        Some(Field::LicCnty)
    } else if same(name, "LIC_TYPE") {
        Some(Field::LicType)
    } else if same(name, "LIC_XPRDTE") {
        Some(Field::LicXprdte)
    } else if same(name, "LIC_SEQN") {
        Some(Field::LicSeqn)
    } else if same(name, "LICENSE_NAME") || same(name, "APP_LICENSE_NAME") {
        Some(Field::LicenseName)
    } else if same(name, "BUSINESS_NAME") {
        Some(Field::BusinessName)
    } else if same(name, "PREMISE_STREET") {
        Some(Field::PremiseStreet)
    } else if same(name, "PREMISE_CITY") {
        Some(Field::PremiseCity)
    } else if same(name, "PREMISE_STATE") {
        Some(Field::PremiseState)
    } else if same(name, "PREMISE_ZIP_CODE") || same(name, "PREMISE_ZIP") {
        Some(Field::PremiseZip)
    } else if same(name, "MAIL_STREET") {
        Some(Field::MailStreet)
    } else if same(name, "MAIL_CITY") {
        Some(Field::MailCity)
    } else if same(name, "MAIL_STATE") {
        Some(Field::MailState)
    } else if same(name, "MAIL_ZIP_CODE") || same(name, "MAIL_ZIP") {
        Some(Field::MailZip)
    } else if same(name, "VOICE_PHONE") {
        Some(Field::VoicePhone)
    } else {
        None
    }
}

/// Sets the field that a column holds to the trimmed value; a column of no
/// interest, such as a leading RDS key, changes nothing.
pub fn set_field(rec: &mut FflRecord, header: &str, value: &str)
    ensures
        final(rec)@ == with_column(old(rec)@, header@, value@),
{
    let field = match field_of(header) {
        Some(f) => f,
        None => return,
    };
    let v = trim(value);
    match field {
        Field::LicRegn => rec.lic_regn = v,
        Field::LicDist => rec.lic_dist = v,
        Field::LicCnty => rec.lic_cnty = v,
        Field::LicType => rec.lic_type = v,
        Field::LicXprdte => rec.lic_xprdte = v,
        Field::LicSeqn => rec.lic_seqn = v,
        Field::LicenseName => rec.license_name = v,
        Field::BusinessName => rec.business_name = v,
        Field::PremiseStreet => rec.premise_street = v,
        Field::PremiseCity => rec.premise_city = v,
        Field::PremiseState => rec.premise_state = v,
        Field::PremiseZip => rec.premise_zip = v,
        Field::MailStreet => rec.mail_street = v,
        Field::MailCity => rec.mail_city = v,
        Field::MailState => rec.mail_state = v,
        Field::MailZip => rec.mail_zip = v,
        Field::VoicePhone => rec.voice_phone = v,
    }
}

fn names_of(headers: &Vec<String>) -> (r: Vec<String>)
    ensures
        texts(r@) == header_names(texts(headers@)),
{
    let ghost all = header_names(texts(headers@));
    let mut out: Vec<String> = Vec::new();
    let mut i: usize = 0;
    while i < headers.len()
        invariant
            i <= headers@.len(),
            all == header_names(texts(headers@)),
            texts(out@) == all.take(i as int),
        decreases headers@.len() - i,
    {
        crate::text::push_text(&mut out, norm_header(headers[i].as_str()));
        i += 1;
        assert(texts(out@) == all.take(i as int));
    }
    assert(all.take(i as int) == all);
    out
}

fn record_of(names: &Vec<String>, row: &Vec<String>) -> (r: FflRecord)
    ensures
        r@ == row_record(texts(names@), texts(row@), row@.len() as int),
{
    let mut rec = FflRecord::default();
    let mut i: usize = 0;
    while i < row.len()
        invariant
            i <= row@.len(),
            rec@ == row_record(texts(names@), texts(row@), i as int),
        decreases row@.len() - i,
    {
        if i < names.len() {
            set_field(&mut rec, names[i].as_str(), row[i].as_str());
        }
        i += 1;
    }
    rec
}

/// The records of the rows of a table with the given headers.
pub fn records_of(headers: &Vec<String>, rows: &Vec<Vec<String>>) -> (r: Vec<FflRecord>)
    ensures
        record_texts(r@) == table_records(texts(headers@), table_text(rows@)),
{
    let names = names_of(headers);
    let ghost all = table_records(texts(headers@), table_text(rows@));
    let mut out: Vec<FflRecord> = Vec::new();
    let mut i: usize = 0;
    while i < rows.len()
        invariant
            i <= rows@.len(),
            texts(names@) == header_names(texts(headers@)),
            all == table_records(texts(headers@), table_text(rows@)),
            record_texts(out@) == all.take(i as int),
        decreases rows@.len() - i,
    {
        let ghost before = record_texts(out@);
        let rec = record_of(&names, &rows[i]);
        assert(table_text(rows@)[i as int] == texts(rows@[i as int]@));
        let ghost text = rec@;
        out.push(rec);
        assert(record_texts(out@) == before.push(text));
        i += 1;
        assert(record_texts(out@) == all.take(i as int));
    }
    assert(all.take(i as int) == all);
    out
}

/// The records of a worksheet of which the first row holds the headers; an
/// empty sheet has none.
pub fn read_xlsx(rows: &Vec<Vec<Cell>>) -> (r: Vec<FflRecord>)
    ensures
        record_texts(r@) == sheet_records(sheet_text(rows@)),
{
    if rows.len() == 0 {
        let out: Vec<FflRecord> = Vec::new();
        assert(record_texts(out@) == Seq::<RecordText>::empty());
        return out;
    }
    let headers = row_to_strings(&rows[0]);
    let ghost rest = sheet_text(rows@).skip(1);
    let mut table: Vec<Vec<String>> = Vec::new();
    let mut i: usize = 1;
    assert(table_text(table@) == rest.take(0));
    while i < rows.len()
        invariant
            1 <= i <= rows@.len(),
            rest == sheet_text(rows@).skip(1),
            table_text(table@) == rest.take(i - 1),
        decreases rows@.len() - i,
    {
        let ghost before = table_text(table@);
        let row = row_to_strings(&rows[i]);
        let ghost text = texts(row@);
        table.push(row);
        assert(table_text(table@) == before.push(text));
        i += 1;
        assert(table_text(table@) == rest.take(i - 1));
    }
    assert(rest.take(i - 1) == rest);
    records_of(&headers, &table)
}

/// `csv::Error`, why a CSV document cannot be read.
#[verifier::external_type_specification]
#[verifier::external_body]
pub struct ExCsvError(csv::Error);

/// The headers and the rows that the reader of the `csv` crate finds in a
/// document, none where the document cannot be read.
pub uninterp spec fn csv_table(data: Seq<u8>) -> Option<(Seq<Seq<char>>, Seq<Seq<Seq<char>>>)>;

/// `csv::ReaderBuilder` with `flexible`, so that rows may differ in length:
/// `headers` gives the first row and `records` those behind it, each as its
/// fields in order. The first row that cannot be read ends the document with
/// its error.
#[verifier::external_body]
fn csv_rows(data: &[u8]) -> (r: Result<(Vec<String>, Vec<Vec<String>>), csv::Error>)
    ensures
        match r {
            Ok(t) => csv_table(data@) == Some((texts(t.0@), table_text(t.1@))),
            Err(_) => csv_table(data@) is None,
        },
{
    let mut rdr = csv::ReaderBuilder::new().flexible(true).from_reader(data);
    let headers: Vec<String> = rdr.headers()?.iter().map(str::to_string).collect();
    let mut rows: Vec<Vec<String>> = Vec::new();
    for row in rdr.records() {
        rows.push(row?.iter().map(str::to_string).collect());
    }
    Ok((headers, rows))
}

/// The records of a CSV document.
pub fn read_csv(data: &[u8]) -> (r: Result<Vec<FflRecord>, csv::Error>)
    ensures
        match csv_table(data@) {
            Some(t) => r matches Ok(records) && record_texts(records@) == table_records(t.0, t.1),
            None => r is Err,
        },
{
    match csv_rows(data) {
        Ok(t) => Ok(records_of(&t.0, &t.1)),
        Err(e) => Err(e),
    }
}

/// Setting a field sets that field and no other.
proof fn lemma_with_field(r: RecordText, f: Field, v: Seq<char>, g: Field)
    ensures
        field_value(with_field(r, f, v), g) == if f == g {
            v
        } else {
            field_value(r, g)
        },
{
}

/// A field is filled from the last column of its name, trimmed, wherever that
/// column stands; a field without a column stays empty.
pub proof fn law_columns_map_by_name(
    names: Seq<Seq<char>>,
    row: Seq<Seq<char>>,
    n: int,
    f: Field,
    i: int,
)
    requires
        0 <= n <= row.len(),
        -1 <= i < n,
        0 <= i ==> i < names.len() && field_named(names[i]) == Some(f),
        forall|j: int|
            i < j < n && j < names.len() ==> field_named(#[trigger] names[j]) != Some(f),
    ensures
        field_value(row_record(names, row, n), f) == if 0 <= i {
            trimmed(row[i])
        } else {
            Seq::<char>::empty()
        },
    decreases n,
{
    if n > 0 {
        let k = n - 1;
        let before = row_record(names, row, k);
        if k < names.len() {
            if let Some(g) = field_named(names[k]) {
                lemma_with_field(before, g, trimmed(row[k]), f);
            }
        }
        if k > i {
            law_columns_map_by_name(names, row, k, f, i);
        }
    }
}

proof fn lemma_without_bom_append(a: Seq<char>, b: Seq<char>)
    requires
        without_bom(a).len() > 0,
    ensures
        without_bom(a + b) == without_bom(a) + b,
    decreases a.len(),
{
    if a[0] == '\u{feff}' {
        lemma_without_bom_append(a.skip(1), b);
        assert((a + b).skip(1) == a.skip(1) + b);
    }
}

proof fn lemma_without_bom_word(w: Seq<char>)
    requires
        is_word(w),
        without_bom(w).len() > 0,
    ensures
        is_word(without_bom(w)),
    decreases w.len(),
{
    if w[0] == '\u{feff}' {
        let rest = w.skip(1);
        reveal_with_fuel(without_bom, 2);
        assert forall|i: int| 0 <= i < rest.len() implies !is_space(#[trigger] rest[i]) by {
            assert(rest[i] == w[i + 1]);
        }
        lemma_without_bom_word(rest);
    }
}

proof fn lemma_joined_word(ws: Seq<Seq<char>>)
    requires
        ws.len() > 0,
        all_words(ws),
    ensures
        is_word(join(ws, "_"@)),
    decreases ws.len(),
{
    reveal_strlit("_");
    if ws.len() > 1 {
        lemma_joined_word(ws.drop_last());
        let s = join(ws, "_"@);
        assert forall|i: int| 0 <= i < s.len() implies !is_space(#[trigger] s[i]) by {
            let front = join(ws.drop_last(), "_"@);
            if i < front.len() {
                assert(s[i] == front[i]);
            } else if i == front.len() {
                assert(s[i] == '_');
            } else {
                assert(s[i] == ws.last()[i - front.len() - 1]);
            }
        }
    }
}

/// A header names the same column whether blanks or underscores stand between
/// its words. The one exception is a first word of byte order marks alone, as
/// only a blank behind it is dropped with it.
pub proof fn law_header_spellings(ws: Seq<Seq<char>>)
    requires
        all_words(ws),
        ws.len() > 0 ==> without_bom(ws[0]).len() > 0,
    ensures
        header_name(phrase(ws)) == header_name(join(ws, "_"@)),
{
    if ws.len() > 0 {
        let first = without_bom(ws[0]);
        let bare = ws.update(0, first);
        lemma_without_bom_word(ws[0]);
        assert(bare.skip(1) == ws.skip(1));
        if ws.len() >= 2 {
            lemma_join_front(ws, "_"@);
            lemma_join_front(bare, "_"@);
            lemma_without_bom_append(ws[0], "_"@ + join(ws.skip(1), "_"@));
            lemma_join_front(ws, seq![' ']);
            lemma_join_front(bare, seq![' ']);
            lemma_without_bom_append(ws[0], seq![' '] + join(ws.skip(1), seq![' ']));
        }
        assert(without_bom(phrase(ws)) == phrase(bare));
        assert(without_bom(join(ws, "_"@)) == join(bare, "_"@));
        law_words_of_phrase(bare);
        lemma_joined_word(bare);
        let one = seq![join(bare, "_"@)];
        law_words_of_phrase(one);
        assert(phrase(one) == one[0]);
        assert(join(one, "_"@) == one[0]);
    }
}

/// A byte order mark in front of a header does not change its name.
pub proof fn law_byte_order_mark_is_ignored(h: Seq<char>)
    ensures
        header_name(seq!['\u{feff}'] + h) == header_name(h),
{
    assert((seq!['\u{feff}'] + h).skip(1) == h);
}

} // verus!
