//! The export for a static site: the rows of each year as compressed JSON, and
//! an index of what there is.

use crate::columns::{count_col, count_names, COUNT_COLS};
use crate::groups::{groups_json, groups_json_body, json_list, json_strings};
use crate::jsonout::{json_str, json_string};
use crate::labels::{label_texts, Label, LabelText};
use crate::links::{link_texts, name_texts, GroupName, Link};
use crate::number::{decimal, decimal_int, decimal_of, decimal_of_signed};
use crate::text::{join, join_all, push_text, texts};
use vstd::prelude::*;

verus! {

/// The columns of an exported row in front of the counts.
pub const EXPORT_LEAD: [&'static str; 7] = [
    "year",
    "rds_key",
    "lic_type",
    "name",
    "street",
    "city",
    "state",
];

/// A row of the export.
pub struct ExportRow {
    pub year: i64,
    pub rds_key: String,
    pub lic_type: String,
    pub name: String,
    pub street: String,
    pub city: String,
    pub state: String,
    pub counts: [i64; 22],
    pub name_source: String,
}

/// What a row of the export holds.
pub struct ExportText {
    pub year: int,
    pub rds_key: Seq<char>,
    pub lic_type: Seq<char>,
    pub name: Seq<char>,
    pub street: Seq<char>,
    pub city: Seq<char>,
    pub state: Seq<char>,
    pub counts: Seq<i64>,
    pub name_source: Seq<char>,
}

impl View for ExportRow {
    type V = ExportText;

    open spec fn view(&self) -> ExportText {
        ExportText {
            year: self.year as int,
            rds_key: self.rds_key@,
            lic_type: self.lic_type@,
            name: self.name@,
            street: self.street@,
            city: self.city@,
            state: self.state@,
            counts: self.counts@,
            name_source: self.name_source@,
        }
    }
}

pub open spec fn export_texts(rows: Seq<ExportRow>) -> Seq<ExportText> {
    Seq::new(rows.len(), |i: int| rows[i]@)
}

/// The names of the columns of an exported row: what identifies it, the counts
/// and where its name comes from.
pub open spec fn export_columns() -> Seq<Seq<char>> {
    Seq::new(
        30,
        |i: int|
            if i < 7 {
                EXPORT_LEAD@[i]@
            } else if i < 29 {
                count_col(i - 7)
            } else {
                "name_source"@
            },
    )
}

/// The values of an exported row as JSON.
pub open spec fn row_parts(r: ExportText) -> Seq<Seq<char>> {
    Seq::new(
        30,
        |i: int|
            if i == 0 {
                decimal_int(r.year)
            } else if i == 1 {
                json_string(r.rds_key)
            } else if i == 2 {
                json_string(r.lic_type)
            } else if i == 3 {
                json_string(r.name)
            } else if i == 4 {
                json_string(r.street)
            } else if i == 5 {
                json_string(r.city)
            } else if i == 6 {
                json_string(r.state)
            } else if i < 29 {
                decimal_int(r.counts[i - 7] as int)
            } else {
                json_string(r.name_source)
            },
    )
}

/// A row as a JSON array.
pub open spec fn row_json(r: ExportText) -> Seq<char> {
    "["@ + join(row_parts(r), ","@) + "]"@
}

pub open spec fn row_jsons(rows: Seq<ExportText>) -> Seq<Seq<char>> {
    Seq::new(rows.len(), |i: int| row_json(rows[i]))
}

/// The rows of a year as a JSON array.
pub open spec fn year_json(rows: Seq<ExportText>) -> Seq<char> {
    "["@ + join(row_jsons(rows), ","@) + "]"@
}

/// The name of the file that holds the rows of a year.
pub open spec fn file_name(year: int) -> Seq<char> {
    "afmer-"@ + decimal_int(year) + ".json.gz"@
}

/// A year of the export and its number of rows.
pub struct YearRows {
    pub year: i64,
    pub rows: usize,
}

/// A year as an entry of the index.
pub open spec fn year_entry(y: YearRows) -> Seq<char> {
    "\n    {\"year\": "@ + decimal_int(y.year as int) + ", \"rows\": "@ + decimal(y.rows as nat)
        + ", \"file\": \""@ + file_name(y.year as int) + "\"}"@
}

pub open spec fn year_entries(years: Seq<YearRows>) -> Seq<Seq<char>> {
    Seq::new(years.len(), |i: int| year_entry(years[i]))
}

/// The number of rows of all years.
pub open spec fn row_sum(years: Seq<YearRows>) -> nat
    decreases years.len(),
{
    if years.len() == 0 {
        0
    } else {
        row_sum(years.drop_last()) + years.last().rows as nat
    }
}

/// The labels as the inside of a JSON object.
pub open spec fn labels_json(labels: Seq<LabelText>) -> Seq<char> {
    join(
        Seq::new(labels.len(), |i: int| json_string(labels[i].code) + ": "@ + labels[i].json),
        ", "@,
    )
}

/// The index of the export.
pub open spec fn meta_text(
    states: Seq<Seq<char>>,
    years: Seq<YearRows>,
    links: Seq<(Seq<char>, Seq<char>)>,
    names: Seq<(Seq<char>, Seq<char>)>,
    labels: Seq<LabelText>,
) -> Seq<char> {
    "{\n  \"columns\": ["@ + join(json_strings(export_columns()), ","@)
        + "],\n  \"count_columns\": ["@ + join(
        json_strings(Seq::new(22, |i: int| count_col(i))),
        ","@,
    ) + "],\n  \"states\": ["@ + join(json_strings(states), ","@) + "],\n  \"years\": ["@ + join(
        year_entries(years),
        ","@,
    ) + "\n  ],\n  \"total_rows\": "@ + decimal(row_sum(years)) + ",\n  \"groups\": ["@
        + groups_json(links, names) + "],\n  \"labels\": {"@ + labels_json(labels) + "}\n}\n"@
}

/// The names of the columns of an exported row.
pub fn column_names() -> (r: Vec<String>)
    ensures
        texts(r@) == export_columns(),
{
    let mut out: Vec<String> = Vec::new();
    let mut i: usize = 0;
    while i < 7
        invariant
            i <= 7,
            texts(out@) == export_columns().take(i as int),
        decreases 7 - i,
    {
        push_text(&mut out, EXPORT_LEAD[i].to_owned());
        i += 1;
        assert(texts(out@) == export_columns().take(i as int));
    }
    let mut j: usize = 0;
    while j < 22
        invariant
            j <= 22,
            texts(out@) == export_columns().take(7 + j as int),
        decreases 22 - j,
    {
        push_text(&mut out, COUNT_COLS[j].to_owned());
        j += 1;
        assert(texts(out@) == export_columns().take(7 + j as int));
    }
    push_text(&mut out, "name_source".to_owned());
    assert(texts(out@) == export_columns());
    out
}

fn push_quoted(out: &mut Vec<String>, s: &String)
    ensures
        texts(final(out)@) == texts(old(out)@).push(json_string(s@)),
{
    let mut t = String::new();
    json_str(&mut t, s.as_str());
    assert(t@ == json_string(s@));
    push_text(out, t);
}

/// A row as a JSON array: the year, six texts, the counts and one more text.
fn row_text(r: &ExportRow) -> (t: String)
    ensures
        t@ == row_json(r@),
{
    let ghost all = row_parts(r@);
    let mut parts: Vec<String> = Vec::new();
    push_text(&mut parts, decimal_of_signed(r.year));
    push_quoted(&mut parts, &r.rds_key);
    push_quoted(&mut parts, &r.lic_type);
    push_quoted(&mut parts, &r.name);
    push_quoted(&mut parts, &r.street);
    push_quoted(&mut parts, &r.city);
    push_quoted(&mut parts, &r.state);
    assert(texts(parts@) =~= all.take(7));
    let mut j: usize = 0;
    while j < 22
        invariant
            j <= 22,
            all == row_parts(r@),
            texts(parts@) == all.take(7 + j as int),
        decreases 22 - j,
    {
        push_text(&mut parts, decimal_of_signed(r.counts[j]));
        j += 1;
        assert(texts(parts@) == all.take(7 + j as int));
    }
    push_quoted(&mut parts, &r.name_source);
    assert(texts(parts@) == all);
    let mut out = "[".to_owned();
    out.append(join_all(&parts, ",").as_str());
    out.append("]");
    out
}

/// The rows of a year as a JSON array.
pub fn year_text(rows: &Vec<ExportRow>) -> (t: String)
    ensures
        t@ == year_json(export_texts(rows@)),
{
    let ghost all = row_jsons(export_texts(rows@));
    let mut parts: Vec<String> = Vec::new();
    let mut i: usize = 0;
    while i < rows.len()
        invariant
            i <= rows@.len(),
            all == row_jsons(export_texts(rows@)),
            texts(parts@) == all.take(i as int),
        decreases rows@.len() - i,
    {
        push_text(&mut parts, row_text(&rows[i]));
        i += 1;
        assert(texts(parts@) == all.take(i as int));
    }
    assert(all.take(i as int) == all);
    let mut out = "[".to_owned();
    out.append(join_all(&parts, ",").as_str());
    out.append("]");
    out
}

/// The name of the file that holds the rows of a year, such as
/// `afmer-2023.json.gz`.
pub fn file_name_of(year: i64) -> (r: String)
    ensures
        r@ == file_name(year as int),
{
    let mut out = "afmer-".to_owned();
    out.append(decimal_of_signed(year).as_str());
    out.append(".json.gz");
    out
}

fn entry_text(y: &YearRows) -> (r: String)
    ensures
        r@ == year_entry(*y),
{
    let mut out = "\n    {\"year\": ".to_owned();
    out.append(decimal_of_signed(y.year).as_str());
    out.append(", \"rows\": ");
    out.append(decimal_of(y.rows as u64).as_str());
    out.append(", \"file\": \"");
    out.append(file_name_of(y.year).as_str());
    out.append("\"}");
    out
}

proof fn lemma_row_sum(years: Seq<YearRows>, k: int)
    requires
        0 <= k <= years.len(),
    ensures
        row_sum(years.take(k)) <= row_sum(years),
    decreases years.len(),
{
    if k == years.len() {
        assert(years.take(k) == years);
    } else {
        lemma_row_sum(years.drop_last(), k);
        assert(years.drop_last().take(k) == years.take(k));
    }
}

/// The number of rows of all years.
pub fn total_rows(years: &Vec<YearRows>) -> (r: usize)
    requires
        row_sum(years@) <= usize::MAX,
    ensures
        r == row_sum(years@),
{
    let mut total: usize = 0;
    let mut i: usize = 0;
    while i < years.len()
        invariant
            i <= years@.len(),
            row_sum(years@) <= usize::MAX,
            total == row_sum(years@.take(i as int)),
        decreases years@.len() - i,
    {
        proof {
            let now = years@.take(i + 1);
            assert(now.drop_last() == years@.take(i as int));
            lemma_row_sum(years@, i + 1);
        }
        total += years[i].rows;
        i += 1;
    }
    assert(years@.take(i as int) == years@);
    total
}

/// The labels as the inside of a JSON object.
pub fn labels_json_body(labels: &Vec<Label>) -> (r: String)
    ensures
        r@ == labels_json(label_texts(labels@)),
{
    let ghost ls = label_texts(labels@);
    let ghost all = Seq::new(ls.len(), |i: int| json_string(ls[i].code) + ": "@ + ls[i].json);
    let mut parts: Vec<String> = Vec::new();
    let mut i: usize = 0;
    while i < labels.len()
        invariant
            i <= labels@.len(),
            ls == label_texts(labels@),
            all == Seq::new(ls.len(), |i: int| json_string(ls[i].code) + ": "@ + ls[i].json),
            texts(parts@) == all.take(i as int),
        decreases labels@.len() - i,
    {
        let mut part = String::new();
        json_str(&mut part, labels[i].code.as_str());
        part.append(": ");
        part.append(labels[i].json.as_str());
        assert(part@ == all[i as int]);
        push_text(&mut parts, part);
        i += 1;
        assert(texts(parts@) == all.take(i as int));
    }
    assert(all.take(i as int) == all);
    join_all(&parts, ", ")
}

/// The index of the export: the columns, the states, the years with their files,
/// the linked groups and the labels.
pub fn meta_json(
    states: &Vec<String>,
    years: &Vec<YearRows>,
    links: &Vec<Link>,
    names: &Vec<GroupName>,
    labels: &Vec<Label>,
) -> (r: String)
    requires
        row_sum(years@) <= usize::MAX,
    ensures
        r@ == meta_text(
            texts(states@),
            years@,
            link_texts(links@),
            name_texts(names@),
            label_texts(labels@),
        ),
{
    let ghost all = year_entries(years@);
    let mut entries: Vec<String> = Vec::new();
    let mut i: usize = 0;
    while i < years.len()
        invariant
            i <= years@.len(),
            all == year_entries(years@),
            texts(entries@) == all.take(i as int),
        decreases years@.len() - i,
    {
        push_text(&mut entries, entry_text(&years[i]));
        i += 1;
        assert(texts(entries@) == all.take(i as int));
    }
    assert(all.take(i as int) == all);
    let mut meta = "{\n  \"columns\": [".to_owned();
    meta.append(json_list(&column_names()).as_str());
    meta.append("],\n  \"count_columns\": [");
    meta.append(json_list(&count_names()).as_str());
    meta.append("],\n  \"states\": [");
    meta.append(json_list(states).as_str());
    meta.append("],\n  \"years\": [");
    meta.append(join_all(&entries, ",").as_str());
    meta.append("\n  ],\n  \"total_rows\": ");
    meta.append(decimal_of(total_rows(years) as u64).as_str());
    meta.append(",\n  \"groups\": [");
    meta.append(groups_json_body(links, names).as_str());
    meta.append("],\n  \"labels\": {");
    meta.append(labels_json_body(labels).as_str());
    meta.append("}\n}\n");
    meta
}

/// `std::io::Error`, why a stream cannot be written.
#[verifier::external_type_specification]
#[verifier::external_body]
pub struct ExIoError(std::io::Error);

/// The stream that `flate2::write::GzEncoder` writes for some bytes at the best
/// level.
pub uninterp spec fn gzip_stream(data: Seq<u8>) -> Seq<u8>;

/// `flate2::write::GzEncoder` at `Compression::best` over a vector: `write_all`
/// takes the bytes and `finish` gives the stream. Both fail only where the writer
/// below fails, which a vector does not, or where bytes follow the end of the
/// stream. The header holds neither a time nor the name of a system, so the
/// stream is a matter of the bytes alone.
#[verifier::external_body]
fn gzip(data: &[u8]) -> (r: Result<Vec<u8>, std::io::Error>)
    ensures
        r is Ok,
        r matches Ok(stream) ==> stream@ == gzip_stream(data@),
{
    let mut gz = flate2::write::GzEncoder::new(Vec::new(), flate2::Compression::best());
    std::io::Write::write_all(&mut gz, data)?;
    gz.finish()
}

/// The file that holds the rows of a year.
pub fn year_file(rows: &Vec<ExportRow>) -> (r: Result<Vec<u8>, std::io::Error>)
    ensures
        r is Ok,
        r matches Ok(bytes) ==> bytes@ == gzip_stream(
            vstd::utf8::encode_utf8(year_json(export_texts(rows@))),
        ),
{
    let json = year_text(rows);
    gzip(json.as_str().as_bytes())
}

} // verus!
