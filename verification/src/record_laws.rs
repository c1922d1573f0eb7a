//! Which column of a snapshot fills which field of a license record.

use crate::records::{
    field_named, header_name, header_names, law_columns_map_by_name, row_record, sheet_records,
    table_records, without_bom, Field,
};
use crate::text::{all_words, join, law_words_of_phrase, phrase, trimmed, upper};
use vstd::prelude::*;

verus! {

/// Whether column `i` is the last of the first `n` that has one of two names, or
/// none has where `i` is -1.
pub open spec fn is_last_named(
    names: Seq<Seq<char>>,
    n: int,
    name: Seq<char>,
    other: Seq<char>,
    i: int,
) -> bool {
    &&& -1 <= i < n
    &&& i >= 0 ==> i < names.len() && (names[i] == name || names[i] == other)
    &&& forall|j: int|
        i < j < n && j < names.len() ==> #[trigger] names[j] != name && names[j] != other
}

/// What a row holds under column `i`, without the white space at its ends.
pub open spec fn under(row: Seq<Seq<char>>, i: int) -> Seq<char> {
    if i >= 0 {
        trimmed(row[i])
    } else {
        Seq::empty()
    }
}

proof fn lemma_names_tell_fields(name: Seq<char>)
    ensures
        field_named(name) == Some(Field::LicRegn) <==> name == "LIC_REGN"@,
        field_named(name) == Some(Field::LicDist) <==> name == "LIC_DIST"@,
        field_named(name) == Some(Field::LicCnty) <==> name == "LIC_CNTY"@,
        field_named(name) == Some(Field::LicType) <==> name == "LIC_TYPE"@,
        field_named(name) == Some(Field::LicXprdte) <==> name == "LIC_XPRDTE"@,
        field_named(name) == Some(Field::LicSeqn) <==> name == "LIC_SEQN"@,
        field_named(name) == Some(Field::LicenseName) <==> name == "LICENSE_NAME"@ || name == "APP_LICENSE_NAME"@,
        field_named(name) == Some(Field::BusinessName) <==> name == "BUSINESS_NAME"@,
        field_named(name) == Some(Field::PremiseStreet) <==> name == "PREMISE_STREET"@,
        field_named(name) == Some(Field::PremiseCity) <==> name == "PREMISE_CITY"@,
        field_named(name) == Some(Field::PremiseState) <==> name == "PREMISE_STATE"@,
        field_named(name) == Some(Field::PremiseZip) <==> name == "PREMISE_ZIP_CODE"@ || name == "PREMISE_ZIP"@,
        field_named(name) == Some(Field::MailStreet) <==> name == "MAIL_STREET"@,
        field_named(name) == Some(Field::MailCity) <==> name == "MAIL_CITY"@,
        field_named(name) == Some(Field::MailState) <==> name == "MAIL_STATE"@,
        field_named(name) == Some(Field::MailZip) <==> name == "MAIL_ZIP_CODE"@ || name == "MAIL_ZIP"@,
        field_named(name) == Some(Field::VoicePhone) <==> name == "VOICE_PHONE"@,
{
    reveal_strlit("LIC_REGN");
    assert("LIC_REGN"@.len() == 8 && "LIC_REGN"@[0] == 'L' && "LIC_REGN"@[4] == 'R');
    reveal_strlit("LIC_DIST");
    assert("LIC_DIST"@.len() == 8 && "LIC_DIST"@[0] == 'L' && "LIC_DIST"@[4] == 'D');
    reveal_strlit("LIC_CNTY");
    assert("LIC_CNTY"@.len() == 8 && "LIC_CNTY"@[0] == 'L' && "LIC_CNTY"@[4] == 'C');
    reveal_strlit("LIC_TYPE");
    assert("LIC_TYPE"@.len() == 8 && "LIC_TYPE"@[0] == 'L' && "LIC_TYPE"@[4] == 'T');
    reveal_strlit("LIC_XPRDTE");
    assert("LIC_XPRDTE"@.len() == 10 && "LIC_XPRDTE"@[0] == 'L');
    reveal_strlit("LIC_SEQN");
    assert("LIC_SEQN"@.len() == 8 && "LIC_SEQN"@[0] == 'L' && "LIC_SEQN"@[4] == 'S');
    reveal_strlit("LICENSE_NAME");
    assert("LICENSE_NAME"@.len() == 12 && "LICENSE_NAME"@[0] == 'L');
    reveal_strlit("APP_LICENSE_NAME");
    assert("APP_LICENSE_NAME"@.len() == 16 && "APP_LICENSE_NAME"@[0] == 'A');
    reveal_strlit("BUSINESS_NAME");
    assert("BUSINESS_NAME"@.len() == 13 && "BUSINESS_NAME"@[0] == 'B');
    reveal_strlit("PREMISE_STREET");
    assert("PREMISE_STREET"@.len() == 14);
    reveal_strlit("PREMISE_CITY");
    assert("PREMISE_CITY"@.len() == 12 && "PREMISE_CITY"@[0] == 'P');
    reveal_strlit("PREMISE_STATE");
    assert("PREMISE_STATE"@.len() == 13 && "PREMISE_STATE"@[0] == 'P');
    reveal_strlit("PREMISE_ZIP_CODE");
    assert("PREMISE_ZIP_CODE"@.len() == 16 && "PREMISE_ZIP_CODE"@[0] == 'P');
    reveal_strlit("PREMISE_ZIP");
    assert("PREMISE_ZIP"@.len() == 11 && "PREMISE_ZIP"@[0] == 'P');
    reveal_strlit("MAIL_STREET");
    assert("MAIL_STREET"@.len() == 11 && "MAIL_STREET"@[0] == 'M');
    reveal_strlit("MAIL_CITY");
    assert("MAIL_CITY"@.len() == 9);
    reveal_strlit("MAIL_STATE");
    assert("MAIL_STATE"@.len() == 10 && "MAIL_STATE"@[0] == 'M');
    reveal_strlit("MAIL_ZIP_CODE");
    assert("MAIL_ZIP_CODE"@.len() == 13 && "MAIL_ZIP_CODE"@[0] == 'M');
    reveal_strlit("MAIL_ZIP");
    assert("MAIL_ZIP"@.len() == 8 && "MAIL_ZIP"@[0] == 'M');
    reveal_strlit("VOICE_PHONE");
    assert("VOICE_PHONE"@.len() == 11 && "VOICE_PHONE"@[0] == 'V');
}

/// Every field of a license record is filled from the column of its name, wherever
/// that stands in the row; of several the last counts, and without one the field is
/// empty.
pub proof fn law_columns_fill_their_fields(names: Seq<Seq<char>>, row: Seq<Seq<char>>, n: int, i: int)
    requires
        0 <= n <= row.len(),
    ensures
        ({
            let r = row_record(names, row, n);
            &&& is_last_named(names, n, "LIC_REGN"@, "LIC_REGN"@, i) ==> r.lic_regn == under(row, i)
            &&& is_last_named(names, n, "LIC_DIST"@, "LIC_DIST"@, i) ==> r.lic_dist == under(row, i)
            &&& is_last_named(names, n, "LIC_CNTY"@, "LIC_CNTY"@, i) ==> r.lic_cnty == under(row, i)
            &&& is_last_named(names, n, "LIC_TYPE"@, "LIC_TYPE"@, i) ==> r.lic_type == under(row, i)
            &&& is_last_named(names, n, "LIC_XPRDTE"@, "LIC_XPRDTE"@, i) ==> r.lic_xprdte == under(row, i)
            &&& is_last_named(names, n, "LIC_SEQN"@, "LIC_SEQN"@, i) ==> r.lic_seqn == under(row, i)
            &&& is_last_named(names, n, "LICENSE_NAME"@, "APP_LICENSE_NAME"@, i) ==> r.license_name == under(row, i)
            &&& is_last_named(names, n, "BUSINESS_NAME"@, "BUSINESS_NAME"@, i) ==> r.business_name == under(row, i)
            &&& is_last_named(names, n, "PREMISE_STREET"@, "PREMISE_STREET"@, i) ==> r.premise_street == under(row, i)
            &&& is_last_named(names, n, "PREMISE_CITY"@, "PREMISE_CITY"@, i) ==> r.premise_city == under(row, i)
            &&& is_last_named(names, n, "PREMISE_STATE"@, "PREMISE_STATE"@, i) ==> r.premise_state == under(row, i)
            &&& is_last_named(names, n, "PREMISE_ZIP_CODE"@, "PREMISE_ZIP"@, i) ==> r.premise_zip == under(row, i)
            &&& is_last_named(names, n, "MAIL_STREET"@, "MAIL_STREET"@, i) ==> r.mail_street == under(row, i)
            &&& is_last_named(names, n, "MAIL_CITY"@, "MAIL_CITY"@, i) ==> r.mail_city == under(row, i)
            &&& is_last_named(names, n, "MAIL_STATE"@, "MAIL_STATE"@, i) ==> r.mail_state == under(row, i)
            &&& is_last_named(names, n, "MAIL_ZIP_CODE"@, "MAIL_ZIP"@, i) ==> r.mail_zip == under(row, i)
            &&& is_last_named(names, n, "VOICE_PHONE"@, "VOICE_PHONE"@, i) ==> r.voice_phone == under(row, i)
        }),
{
    if is_last_named(names, n, "LIC_REGN"@, "LIC_REGN"@, i) {
        lemma_field(names, row, n, Field::LicRegn, "LIC_REGN"@, "LIC_REGN"@, i);
    }
    if is_last_named(names, n, "LIC_DIST"@, "LIC_DIST"@, i) {
        lemma_field(names, row, n, Field::LicDist, "LIC_DIST"@, "LIC_DIST"@, i);
    }
    if is_last_named(names, n, "LIC_CNTY"@, "LIC_CNTY"@, i) {
        lemma_field(names, row, n, Field::LicCnty, "LIC_CNTY"@, "LIC_CNTY"@, i);
    }
    if is_last_named(names, n, "LIC_TYPE"@, "LIC_TYPE"@, i) {
        lemma_field(names, row, n, Field::LicType, "LIC_TYPE"@, "LIC_TYPE"@, i);
    }
    if is_last_named(names, n, "LIC_XPRDTE"@, "LIC_XPRDTE"@, i) {
        lemma_field(names, row, n, Field::LicXprdte, "LIC_XPRDTE"@, "LIC_XPRDTE"@, i);
    }
    if is_last_named(names, n, "LIC_SEQN"@, "LIC_SEQN"@, i) {
        lemma_field(names, row, n, Field::LicSeqn, "LIC_SEQN"@, "LIC_SEQN"@, i);
    }
    if is_last_named(names, n, "LICENSE_NAME"@, "APP_LICENSE_NAME"@, i) {
        lemma_field(names, row, n, Field::LicenseName, "LICENSE_NAME"@, "APP_LICENSE_NAME"@, i);
    }
    if is_last_named(names, n, "BUSINESS_NAME"@, "BUSINESS_NAME"@, i) {
        lemma_field(names, row, n, Field::BusinessName, "BUSINESS_NAME"@, "BUSINESS_NAME"@, i);
    }
    if is_last_named(names, n, "PREMISE_STREET"@, "PREMISE_STREET"@, i) {
        lemma_field(names, row, n, Field::PremiseStreet, "PREMISE_STREET"@, "PREMISE_STREET"@, i);
    }
    if is_last_named(names, n, "PREMISE_CITY"@, "PREMISE_CITY"@, i) {
        lemma_field(names, row, n, Field::PremiseCity, "PREMISE_CITY"@, "PREMISE_CITY"@, i);
    }
    if is_last_named(names, n, "PREMISE_STATE"@, "PREMISE_STATE"@, i) {
        lemma_field(names, row, n, Field::PremiseState, "PREMISE_STATE"@, "PREMISE_STATE"@, i);
    }
    if is_last_named(names, n, "PREMISE_ZIP_CODE"@, "PREMISE_ZIP"@, i) {
        lemma_field(names, row, n, Field::PremiseZip, "PREMISE_ZIP_CODE"@, "PREMISE_ZIP"@, i);
    }
    if is_last_named(names, n, "MAIL_STREET"@, "MAIL_STREET"@, i) {
        lemma_field(names, row, n, Field::MailStreet, "MAIL_STREET"@, "MAIL_STREET"@, i);
    }
    if is_last_named(names, n, "MAIL_CITY"@, "MAIL_CITY"@, i) {
        lemma_field(names, row, n, Field::MailCity, "MAIL_CITY"@, "MAIL_CITY"@, i);
    }
    if is_last_named(names, n, "MAIL_STATE"@, "MAIL_STATE"@, i) {
        lemma_field(names, row, n, Field::MailState, "MAIL_STATE"@, "MAIL_STATE"@, i);
    }
    if is_last_named(names, n, "MAIL_ZIP_CODE"@, "MAIL_ZIP"@, i) {
        lemma_field(names, row, n, Field::MailZip, "MAIL_ZIP_CODE"@, "MAIL_ZIP"@, i);
    }
    if is_last_named(names, n, "VOICE_PHONE"@, "VOICE_PHONE"@, i) {
        lemma_field(names, row, n, Field::VoicePhone, "VOICE_PHONE"@, "VOICE_PHONE"@, i);
    }
}

proof fn lemma_field(
    names: Seq<Seq<char>>,
    row: Seq<Seq<char>>,
    n: int,
    f: Field,
    name: Seq<char>,
    other: Seq<char>,
    i: int,
)
    requires
        0 <= n <= row.len(),
        is_last_named(names, n, name, other, i),
        names_field(name, other, f),
    ensures
        crate::records::field_value(row_record(names, row, n), f) == under(row, i),
{
    if i >= 0 {
        lemma_names_tell_fields(names[i]);
    }
    assert forall|j: int| i < j < n && j < names.len() implies field_named(#[trigger] names[j])
        != Some(f) by {
        lemma_names_tell_fields(names[j]);
        assert(names[j] != name && names[j] != other);
    }
    law_columns_map_by_name(names, row, n, f, i);
}

/// The two names of a field, which are the same where it has one.
spec fn names_field(name: Seq<char>, other: Seq<char>, f: Field) -> bool {
    match f {
        Field::LicRegn => name == "LIC_REGN"@ && other == "LIC_REGN"@,
        Field::LicDist => name == "LIC_DIST"@ && other == "LIC_DIST"@,
        Field::LicCnty => name == "LIC_CNTY"@ && other == "LIC_CNTY"@,
        Field::LicType => name == "LIC_TYPE"@ && other == "LIC_TYPE"@,
        Field::LicXprdte => name == "LIC_XPRDTE"@ && other == "LIC_XPRDTE"@,
        Field::LicSeqn => name == "LIC_SEQN"@ && other == "LIC_SEQN"@,
        Field::LicenseName => name == "LICENSE_NAME"@ && other == "APP_LICENSE_NAME"@,
        Field::BusinessName => name == "BUSINESS_NAME"@ && other == "BUSINESS_NAME"@,
        Field::PremiseStreet => name == "PREMISE_STREET"@ && other == "PREMISE_STREET"@,
        Field::PremiseCity => name == "PREMISE_CITY"@ && other == "PREMISE_CITY"@,
        Field::PremiseState => name == "PREMISE_STATE"@ && other == "PREMISE_STATE"@,
        Field::PremiseZip => name == "PREMISE_ZIP_CODE"@ && other == "PREMISE_ZIP"@,
        Field::MailStreet => name == "MAIL_STREET"@ && other == "MAIL_STREET"@,
        Field::MailCity => name == "MAIL_CITY"@ && other == "MAIL_CITY"@,
        Field::MailState => name == "MAIL_STATE"@ && other == "MAIL_STATE"@,
        Field::MailZip => name == "MAIL_ZIP_CODE"@ && other == "MAIL_ZIP"@,
        Field::VoicePhone => name == "VOICE_PHONE"@ && other == "VOICE_PHONE"@,
    }
}

/// A header names the column of its words in capitals, with underscores between
/// them, whatever white space parts them.
pub proof fn law_header_is_its_words(ws: Seq<Seq<char>>)
    requires
        all_words(ws),
        ws.len() > 0,
        ws[0][0] != '\u{feff}',
    ensures
        header_name(phrase(ws)) == upper(join(ws, "_"@)),
{
    law_words_of_phrase(ws);
    crate::section_laws::lemma_trimmed_phrase(ws);
    let s = phrase(ws);
    assert(crate::text::is_word(ws[0]));
    assert(s[0] == s.take(ws[0].len() as int)[0]);
    assert(without_bom(s) == s);
}

/// Each row of a table below its headers is a record, in order, and so is each row of
/// a sheet below its first.
pub proof fn law_rows_are_records(
    headers: Seq<Seq<char>>,
    rows: Seq<Seq<Seq<char>>>,
    sheet: Seq<Seq<Seq<char>>>,
    i: int,
)
    requires
        0 <= i < rows.len(),
        sheet == seq![headers] + rows,
    ensures
        table_records(headers, rows).len() == rows.len(),
        table_records(headers, rows)[i] == row_record(
            Seq::new(headers.len(), |k: int| header_name(headers[k])),
            rows[i],
            rows[i].len() as int,
        ),
        sheet_records(sheet) == table_records(headers, rows),
        sheet_records(Seq::empty()).len() == 0,
{
    assert(sheet.skip(1) == rows);
    assert(header_names(headers) == Seq::new(headers.len(), |k: int| header_name(headers[k])));
}

} // verus!
