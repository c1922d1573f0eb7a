//! What a reader of the index gets back.

use crate::columns::count_col;
use crate::export::{
    export_columns, file_name, labels_json, meta_text, row_json, row_jsons, row_parts, row_sum,
    year_entries, year_entry, year_json, ExportText, YearRows,
};
use crate::groups::{group_json, group_name, grouped, groups_json, json_strings, GroupKeys};
use crate::json::JsonText;
use crate::json_grammar::{all_json_space, is_json};
use crate::json_reading::{
    law_json_is_readable, lemma_joined_object_reads, lemma_list_reads, lemma_member_reads,
    lemma_member_spaced, lemma_members_more, lemma_members_one, lemma_number_reads,
    lemma_object_reads, lemma_spaced, lemma_text_reads, member_reads_as, members_read_as, reads_as,
};
use crate::jsonout::{json_char, json_chars, json_string};
use crate::labels::{labels_are_json, LabelText};
use crate::number::{decimal, decimal_int, lemma_decimal_digits};
use crate::text::join;
use vstd::prelude::*;

verus! {

/// A list of strings.
pub open spec fn text_list(v: Seq<Seq<char>>) -> JsonText {
    JsonText::List(Seq::new(v.len(), |i: int| JsonText::Text(v[i])))
}

/// A year of the index: its number, how many rows it has and its file.
pub open spec fn year_value(y: YearRows) -> JsonText {
    JsonText::Object(
        seq![
            ("year"@, JsonText::Number(decimal_int(y.year as int))),
            ("rows"@, JsonText::Number(decimal(y.rows as nat))),
            ("file"@, JsonText::Text(file_name(y.year as int))),
        ],
    )
}

/// A group of the index: its id, its name and its license keys.
pub open spec fn group_value(g: GroupKeys, names: Seq<(Seq<char>, Seq<char>)>) -> JsonText {
    JsonText::Object(
        seq![
            ("id"@, JsonText::Text(g.id)),
            ("name"@, JsonText::Text(group_name(names, g.id))),
            ("keys"@, text_list(g.keys)),
        ],
    )
}

/// The labels of the index, each with the value of its stored text.
pub open spec fn labels_object(labels: Seq<LabelText>, values: Seq<JsonText>) -> JsonText {
    JsonText::Object(Seq::new(labels.len(), |i: int| (labels[i].code, values[i])))
}

/// What the index holds.
pub open spec fn meta_value(
    states: Seq<Seq<char>>,
    years: Seq<YearRows>,
    links: Seq<(Seq<char>, Seq<char>)>,
    names: Seq<(Seq<char>, Seq<char>)>,
    labels: Seq<LabelText>,
    values: Seq<JsonText>,
) -> JsonText {
    let groups = grouped(links);
    JsonText::Object(
        seq![
            ("columns"@, text_list(export_columns())),
            ("count_columns"@, text_list(Seq::new(22, |i: int| count_col(i)))),
            ("states"@, text_list(states)),
            ("years"@, JsonText::List(Seq::new(years.len(), |i: int| year_value(years[i])))),
            ("total_rows"@, JsonText::Number(decimal(row_sum(years)))),
            (
                "groups"@,
                JsonText::List(Seq::new(groups.len(), |i: int| group_value(groups[i], names))),
            ),
            ("labels"@, labels_object(labels, values)),
        ],
    )
}

/// Whether a text stands inside a JSON string as it is.
spec fn is_plain(s: Seq<char>) -> bool {
    forall|i: int|
        0 <= i < s.len() ==> (#[trigger] s[i]) as u32 >= 0x20 && s[i] != '"' && s[i] != '\\'
}

proof fn lemma_plain(s: Seq<char>)
    requires
        is_plain(s),
    ensures
        json_chars(s) == s,
    decreases s.len(),
{
    if s.len() > 0 {
        lemma_plain(s.drop_last());
        assert(s.last() == s[s.len() - 1]);
        assert(json_char(s.last()) == seq![s.last()]);
        assert(s == s.drop_last() + seq![s.last()]);
    }
}

/// A member up to its value: white space, the key, a colon, a blank and what
/// opens the value.
spec fn lead(gap: Seq<char>, key: Seq<char>, open: Seq<char>) -> Seq<char> {
    gap + json_string(key) + seq![':', ' '] + open
}

/// Whether a text is members, a closing brace and what follows it.
spec fn closes(s: Seq<char>, xs: Seq<(Seq<char>, JsonText)>, after: Seq<char>) -> bool {
    exists|ms: Seq<char>| #[trigger] members_read_as(ms, xs) && ms + seq!['}'] + after == s
}

proof fn lemma_lead(
    gap: Seq<char>,
    key: Seq<char>,
    open: Seq<char>,
    x: Seq<char>,
    close: Seq<char>,
    j: JsonText,
)
    requires
        all_json_space(gap),
        reads_as(open + x + close, j),
    ensures
        member_reads_as(lead(gap, key, open) + x + close, key, j),
{
    let none = Seq::<char>::empty();
    let v = open + x + close;
    lemma_spaced(seq![' '], v, none, j);
    let spaced = seq![' '] + v + none;
    lemma_member_reads(gap, key, spaced, j);
    assert(gap + json_string(key) + seq![':'] + spaced == lead(gap, key, open) + x + close);
}

/// The last member of an object, with the text between its value and the end.
proof fn lemma_last_member(
    gap: Seq<char>,
    key: Seq<char>,
    open: Seq<char>,
    x: Seq<char>,
    close: Seq<char>,
    space: Seq<char>,
    after: Seq<char>,
    between: Seq<char>,
    j: JsonText,
)
    requires
        all_json_space(gap),
        all_json_space(space),
        reads_as(open + x + close, j),
        between == close + space + seq!['}'] + after,
    ensures
        closes(lead(gap, key, open) + (x + between), seq![(key, j)], after),
{
    let none = Seq::<char>::empty();
    let m = lead(gap, key, open) + x + close;
    lemma_lead(gap, key, open, x, close, j);
    lemma_member_spaced(none, m, space, key, j);
    let ms = none + m + space;
    lemma_members_one(ms, key, j);
    assert(ms + seq!['}'] + after == lead(gap, key, open) + (x + between));
}

/// A member in front of others, with the text between its value and theirs.
proof fn lemma_next_member(
    gap: Seq<char>,
    key: Seq<char>,
    open: Seq<char>,
    x: Seq<char>,
    close: Seq<char>,
    between: Seq<char>,
    next: Seq<char>,
    rest: Seq<char>,
    after: Seq<char>,
    j: JsonText,
    xs: Seq<(Seq<char>, JsonText)>,
)
    requires
        all_json_space(gap),
        reads_as(open + x + close, j),
        between == close + seq![','] + next,
        closes(next + rest, xs, after),
    ensures
        closes(lead(gap, key, open) + (x + (between + rest)), seq![(key, j)] + xs, after),
{
    let ms = choose|ms: Seq<char>| #[trigger]
        members_read_as(ms, xs) && ms + seq!['}'] + after == next + rest;
    let m = lead(gap, key, open) + x + close;
    lemma_lead(gap, key, open, x, close, j);
    lemma_members_more(m, key, j, ms, xs);
    let all = m + seq![','] + ms;
    let end = ms + seq!['}'] + after;
    assert(all + seq!['}'] + after == m + seq![','] + end);
    let front = lead(gap, key, open) + x;
    assert(m + seq![','] + (next + rest) == front + (between + rest));
    assert(front + (between + rest) == lead(gap, key, open) + (x + (between + rest)));
}

proof fn lemma_closed_object(
    before: Seq<char>,
    s: Seq<char>,
    xs: Seq<(Seq<char>, JsonText)>,
    after: Seq<char>,
)
    requires
        all_json_space(before),
        all_json_space(after),
        closes(s, xs, after),
    ensures
        reads_as(before + seq!['{'] + s, JsonText::Object(xs)),
{
    let ms = choose|ms: Seq<char>| #[trigger]
        members_read_as(ms, xs) && ms + seq!['}'] + after == s;
    lemma_object_reads(ms, xs);
    let object = seq!['{'] + ms + seq!['}'];
    lemma_spaced(before, object, after, JsonText::Object(xs));
    assert(before + object + after == before + seq!['{'] + s);
}

proof fn lemma_right(a: Seq<char>, b: Seq<char>, c: Seq<char>)
    ensures
        (a + b) + c == a + (b + c),
{
    assert((a + b) + c == a + (b + c));
}

proof fn lemma_commas()
    ensures
        ","@ == seq![','] + Seq::<char>::empty(),
        ", "@ == seq![','] + seq![' '],
        "["@ == seq!['['],
        "]"@ == seq![']'],
{
    reveal_strlit(",");
    reveal_strlit(", ");
    reveal_strlit("[");
    reveal_strlit("]");
    assert(","@ == seq![','] + Seq::<char>::empty());
    assert(", "@ == seq![','] + seq![' ']);
    assert("["@ == seq!['[']);
    assert("]"@ == seq![']']);
}

proof fn lemma_text_list(v: Seq<Seq<char>>)
    ensures
        reads_as(seq!['['] + join(json_strings(v), ","@) + seq![']'], text_list(v)),
{
    lemma_commas();
    let none = Seq::<char>::empty();
    let parts = json_strings(v);
    let vs = Seq::new(v.len(), |i: int| JsonText::Text(v[i]));
    assert forall|i: int| 0 <= i < parts.len() implies reads_as(#[trigger] parts[i], vs[i]) by {
        lemma_text_reads(v[i]);
    }
    lemma_list_reads(parts, vs, none, none);
    let s = seq!['['] + join(parts, ","@);
    assert(s + none == s);
}

proof fn lemma_file_name(year: int)
    ensures
        json_string(file_name(year)) == seq!['"'] + file_name(year) + seq!['"'],
{
    let size = if year < 0 {
        (-year) as nat
    } else {
        year as nat
    };
    lemma_decimal_digits(size);
    reveal_strlit("afmer-");
    reveal_strlit(".json.gz");
    assert(is_plain("afmer-"@));
    assert(is_plain(".json.gz"@));
    assert(is_plain(decimal_int(year)));
    assert(is_plain(file_name(year)));
    lemma_plain(file_name(year));
}

proof fn lemma_year_keys()
    ensures
        "\n    {\"year\": "@ == seq!['\n', ' ', ' ', ' ', ' '] + seq!['{'] + lead(
            Seq::empty(),
            "year"@,
            Seq::empty(),
        ),
        ", \"rows\": "@ == seq![','] + lead(seq![' '], "rows"@, Seq::empty()),
        ", \"file\": \""@ == seq![','] + lead(seq![' '], "file"@, seq!['"']),
        "\"}"@ == seq!['"'] + seq!['}'],
{
    reveal_strlit("\n    {\"year\": ");
    reveal_strlit("year");
    assert(is_plain("year"@));
    lemma_plain("year"@);
    assert("\n    {\"year\": "@ == seq!['\n', ' ', ' ', ' ', ' '] + seq!['{'] + lead(
        Seq::empty(),
        "year"@,
        Seq::empty(),
    ));
    reveal_strlit(", \"rows\": ");
    reveal_strlit("rows");
    assert(is_plain("rows"@));
    lemma_plain("rows"@);
    assert(", \"rows\": "@ == seq![','] + lead(seq![' '], "rows"@, Seq::empty()));
    reveal_strlit(", \"file\": \"");
    reveal_strlit("file");
    assert(is_plain("file"@));
    lemma_plain("file"@);
    assert(", \"file\": \""@ == seq![','] + lead(seq![' '], "file"@, seq!['"']));
    reveal_strlit("\"}");
    assert("\"}"@ == seq!['"'] + seq!['}']);
}

/// A year of the index is a JSON document that stands for the year.
pub proof fn law_year_entry_reads_back(y: YearRows)
    ensures
        reads_as(year_entry(y), year_value(y)),
{
    let none = Seq::<char>::empty();
    let quote = seq!['"'];
    let (year, rows, file) = (
        decimal_int(y.year as int),
        decimal(y.rows as nat),
        file_name(y.year as int),
    );
    let j1 = JsonText::Number(year);
    let j2 = JsonText::Number(rows);
    let j3 = JsonText::Text(file);
    lemma_year_keys();
    let between = "\"}"@;
    lemma_file_name(y.year as int);
    lemma_text_reads(file);
    assert(between == quote + none + seq!['}'] + none);
    lemma_last_member(seq![' '], "file"@, quote, file, quote, none, none, between, j3);
    let r3 = file + between;
    lemma_number_reads(y.rows as int);
    assert(none + rows + none == rows);
    let (l2, l3) = (", \"rows\": "@, ", \"file\": \""@);
    let next3 = lead(seq![' '], "file"@, quote);
    assert(l3 == none + seq![','] + next3);
    lemma_next_member(
        seq![' '],
        "rows"@,
        none,
        rows,
        none,
        l3,
        next3,
        r3,
        none,
        j2,
        seq![("file"@, j3)],
    );
    let r2 = rows + (l3 + r3);
    lemma_number_reads(y.year as int);
    assert(none + year + none == year);
    let next2 = lead(seq![' '], "rows"@, none);
    assert(l2 == none + seq![','] + next2);
    let tail = seq![("rows"@, j2)] + seq![("file"@, j3)];
    lemma_next_member(none, "year"@, none, year, none, l2, next2, r2, none, j1, tail);
    let r1 = year + (l2 + r2);
    let next1 = lead(none, "year"@, none);
    let before = seq!['\n', ' ', ' ', ' ', ' '];
    let all = seq![("year"@, j1)] + tail;
    lemma_closed_object(before, next1 + r1, all, none);
    assert(all == seq![("year"@, j1), ("rows"@, j2), ("file"@, j3)]);
    let l1 = "\n    {\"year\": "@;
    lemma_right(before + seq!['{'], next1, r1);
    lemma_right(l1 + year + l2 + rows + l3, file, between);
    lemma_right(l1 + year + l2 + rows, l3, r3);
    lemma_right(l1 + year + l2, rows, l3 + r3);
    lemma_right(l1 + year, l2, r2);
    lemma_right(l1, year, l2 + r2);
}

proof fn lemma_group_keys()
    ensures
        "{\"id\": "@ == seq!['{'] + lead(Seq::empty(), "id"@, Seq::empty()),
        ", \"name\": "@ == seq![','] + lead(seq![' '], "name"@, Seq::empty()),
        ", \"keys\": ["@ == seq![','] + lead(seq![' '], "keys"@, seq!['[']),
        "]}"@ == seq![']'] + seq!['}'],
{
    reveal_strlit("{\"id\": ");
    reveal_strlit("id");
    assert(is_plain("id"@));
    lemma_plain("id"@);
    assert("{\"id\": "@ == seq!['{'] + lead(Seq::empty(), "id"@, Seq::empty()));
    reveal_strlit(", \"name\": ");
    reveal_strlit("name");
    assert(is_plain("name"@));
    lemma_plain("name"@);
    assert(", \"name\": "@ == seq![','] + lead(seq![' '], "name"@, Seq::empty()));
    reveal_strlit(", \"keys\": [");
    reveal_strlit("keys");
    assert(is_plain("keys"@));
    lemma_plain("keys"@);
    assert(", \"keys\": ["@ == seq![','] + lead(seq![' '], "keys"@, seq!['[']));
    reveal_strlit("]}");
    assert("]}"@ == seq![']'] + seq!['}']);
}

/// A group of the index is a JSON document that stands for the group.
pub proof fn law_group_reads_back(g: GroupKeys, names: Seq<(Seq<char>, Seq<char>)>)
    ensures
        reads_as(group_json(g, names), group_value(g, names)),
{
    let none = Seq::<char>::empty();
    let called = group_name(names, g.id);
    let (id, name) = (json_string(g.id), json_string(called));
    let keys = join(json_strings(g.keys), ","@);
    let j1 = JsonText::Text(g.id);
    let j2 = JsonText::Text(called);
    let j3 = text_list(g.keys);
    lemma_group_keys();
    let between = "]}"@;
    lemma_text_list(g.keys);
    assert(between == seq![']'] + none + seq!['}'] + none);
    lemma_last_member(seq![' '], "keys"@, seq!['['], keys, seq![']'], none, none, between, j3);
    let r3 = keys + between;
    lemma_text_reads(called);
    assert(none + name + none == name);
    let (l2, l3) = (", \"name\": "@, ", \"keys\": ["@);
    let next3 = lead(seq![' '], "keys"@, seq!['[']);
    assert(l3 == none + seq![','] + next3);
    lemma_next_member(
        seq![' '],
        "name"@,
        none,
        name,
        none,
        l3,
        next3,
        r3,
        none,
        j2,
        seq![("keys"@, j3)],
    );
    let r2 = name + (l3 + r3);
    lemma_text_reads(g.id);
    assert(none + id + none == id);
    let next2 = lead(seq![' '], "name"@, none);
    assert(l2 == none + seq![','] + next2);
    let tail = seq![("name"@, j2)] + seq![("keys"@, j3)];
    lemma_next_member(none, "id"@, none, id, none, l2, next2, r2, none, j1, tail);
    let r1 = id + (l2 + r2);
    let next1 = lead(none, "id"@, none);
    let all = seq![("id"@, j1)] + tail;
    lemma_closed_object(none, next1 + r1, all, none);
    assert(all == seq![("id"@, j1), ("name"@, j2), ("keys"@, j3)]);
    let l1 = "{\"id\": "@;
    assert(none + seq!['{'] == seq!['{']);
    lemma_right(seq!['{'], next1, r1);
    lemma_right(l1 + id + l2 + name + l3, keys, between);
    lemma_right(l1 + id + l2 + name, l3, r3);
    lemma_right(l1 + id + l2, name, l3 + r3);
    lemma_right(l1 + id, l2, r2);
    lemma_right(l1, id, l2 + r2);
}

proof fn lemma_years_list(years: Seq<YearRows>)
    ensures
        reads_as(
            seq!['['] + join(year_entries(years), ","@) + seq!['\n', ' ', ' ', ']'],
            JsonText::List(Seq::new(years.len(), |i: int| year_value(years[i]))),
        ),
{
    lemma_commas();
    let space = seq!['\n', ' ', ' '];
    let parts = year_entries(years);
    let vs = Seq::new(years.len(), |i: int| year_value(years[i]));
    assert forall|i: int| 0 <= i < parts.len() implies reads_as(#[trigger] parts[i], vs[i]) by {
        law_year_entry_reads_back(years[i]);
    }
    lemma_list_reads(parts, vs, Seq::empty(), space);
    let s = seq!['['] + join(parts, ","@);
    assert(space + seq![']'] == seq!['\n', ' ', ' ', ']']);
    lemma_right(s, space, seq![']']);
}

proof fn lemma_groups_list(
    links: Seq<(Seq<char>, Seq<char>)>,
    names: Seq<(Seq<char>, Seq<char>)>,
)
    ensures
        reads_as(
            seq!['['] + groups_json(links, names) + seq![']'],
            JsonText::List(
                Seq::new(grouped(links).len(), |i: int| group_value(grouped(links)[i], names)),
            ),
        ),
{
    lemma_commas();
    let none = Seq::<char>::empty();
    let groups = grouped(links);
    let parts = Seq::new(groups.len(), |i: int| group_json(groups[i], names));
    let vs = Seq::new(grouped(links).len(), |i: int| group_value(grouped(links)[i], names));
    assert forall|i: int| 0 <= i < parts.len() implies reads_as(#[trigger] parts[i], vs[i]) by {
        law_group_reads_back(groups[i], names);
    }
    lemma_list_reads(parts, vs, seq![' '], none);
    let s = seq!['['] + join(parts, ", "@);
    assert(s + none == s);
}

proof fn lemma_labels_object(labels: Seq<LabelText>, values: Seq<JsonText>)
    requires
        labels.len() == values.len(),
        forall|i: int|
            0 <= i < labels.len() ==> reads_as((#[trigger] labels[i]).json, values[i]),
    ensures
        reads_as(seq!['{'] + labels_json(labels) + seq!['}'], labels_object(labels, values)),
{
    lemma_commas();
    let none = Seq::<char>::empty();
    let parts = Seq::new(
        labels.len(),
        |i: int| json_string(labels[i].code) + ": "@ + labels[i].json,
    );
    let xs = Seq::new(labels.len(), |i: int| (labels[i].code, values[i]));
    assert forall|i: int| 0 <= i < parts.len() implies member_reads_as(
        #[trigger] parts[i],
        xs[i].0,
        xs[i].1,
    ) by {
        let (code, json) = (labels[i].code, labels[i].json);
        assert(none + json + none == json);
        lemma_lead(none, code, none, json, none, values[i]);
        reveal_strlit(": ");
        assert(": "@ == seq![':', ' ']);
        assert(lead(none, code, none) == json_string(code) + ": "@);
        assert(lead(none, code, none) + json + none == parts[i]);
    }
    lemma_joined_object_reads(parts, xs, seq![' ']);
}

spec fn meta_lead(key: Seq<char>, open: Seq<char>) -> Seq<char> {
    lead(seq!['\n', ' ', ' '], key, open)
}

proof fn lemma_meta_keys()
    ensures
        "{\n  \"columns\": ["@ == seq!['{'] + meta_lead("columns"@, seq!['[']),
        "],\n  \"count_columns\": ["@ == seq![']'] + seq![','] + meta_lead("count_columns"@, seq!['[']),
        "],\n  \"states\": ["@ == seq![']'] + seq![','] + meta_lead("states"@, seq!['[']),
        "],\n  \"years\": ["@ == seq![']'] + seq![','] + meta_lead("years"@, seq!['[']),
        "\n  ],\n  \"total_rows\": "@ == seq!['\n', ' ', ' ', ']'] + seq![','] + meta_lead("total_rows"@, Seq::empty()),
        ",\n  \"groups\": ["@ == Seq::empty() + seq![','] + meta_lead("groups"@, seq!['[']),
        "],\n  \"labels\": {"@ == seq![']'] + seq![','] + meta_lead("labels"@, seq!['{']),
        "}\n}\n"@ == seq!['}'] + seq!['\n'] + seq!['}'] + seq!['\n'],
{
    reveal_strlit("{\n  \"columns\": [");
    reveal_strlit("columns");
    assert(is_plain("columns"@));
    lemma_plain("columns"@);
    assert("{\n  \"columns\": ["@ == seq!['{'] + meta_lead("columns"@, seq!['[']));
    reveal_strlit("],\n  \"count_columns\": [");
    reveal_strlit("count_columns");
    assert(is_plain("count_columns"@));
    lemma_plain("count_columns"@);
    assert("],\n  \"count_columns\": ["@ == seq![']'] + seq![','] + meta_lead("count_columns"@, seq!['[']));
    reveal_strlit("],\n  \"states\": [");
    reveal_strlit("states");
    assert(is_plain("states"@));
    lemma_plain("states"@);
    assert("],\n  \"states\": ["@ == seq![']'] + seq![','] + meta_lead("states"@, seq!['[']));
    reveal_strlit("],\n  \"years\": [");
    reveal_strlit("years");
    assert(is_plain("years"@));
    lemma_plain("years"@);
    assert("],\n  \"years\": ["@ == seq![']'] + seq![','] + meta_lead("years"@, seq!['[']));
    reveal_strlit("\n  ],\n  \"total_rows\": ");
    reveal_strlit("total_rows");
    assert(is_plain("total_rows"@));
    lemma_plain("total_rows"@);
    assert("\n  ],\n  \"total_rows\": "@ == seq!['\n', ' ', ' ', ']'] + seq![','] + meta_lead("total_rows"@, Seq::empty()));
    reveal_strlit(",\n  \"groups\": [");
    reveal_strlit("groups");
    assert(is_plain("groups"@));
    lemma_plain("groups"@);
    assert(",\n  \"groups\": ["@ == Seq::empty() + seq![','] + meta_lead("groups"@, seq!['[']));
    reveal_strlit("],\n  \"labels\": {");
    reveal_strlit("labels");
    assert(is_plain("labels"@));
    lemma_plain("labels"@);
    assert("],\n  \"labels\": {"@ == seq![']'] + seq![','] + meta_lead("labels"@, seq!['{']));
    reveal_strlit("}\n}\n");
    assert("}\n}\n"@ == seq!['}'] + seq!['\n'] + seq!['}'] + seq!['\n']);
}

proof fn lemma_meta_step(
    key: Seq<char>,
    open: Seq<char>,
    x: Seq<char>,
    close: Seq<char>,
    between: Seq<char>,
    next: Seq<char>,
    rest: Seq<char>,
    j: JsonText,
    xs: Seq<(Seq<char>, JsonText)>,
)
    requires
        reads_as(open + x + close, j),
        between == close + seq![','] + next,
        closes(next + rest, xs, seq!['\n']),
    ensures
        closes(meta_lead(key, open) + (x + (between + rest)), seq![(key, j)] + xs, seq!['\n']),
{
    let gap = seq!['\n', ' ', ' '];
    lemma_next_member(gap, key, open, x, close, between, next, rest, seq!['\n'], j, xs);
}

/// The index is a JSON document that stands for the columns, the states, the
/// years with their files, the number of rows, the groups and the labels,
/// wherever the stored text of each label stands for the label's value.
pub proof fn law_meta_reads_back(
    states: Seq<Seq<char>>,
    years: Seq<YearRows>,
    links: Seq<(Seq<char>, Seq<char>)>,
    names: Seq<(Seq<char>, Seq<char>)>,
    labels: Seq<LabelText>,
    values: Seq<JsonText>,
)
    requires
        labels.len() == values.len(),
        forall|i: int|
            0 <= i < labels.len() ==> reads_as((#[trigger] labels[i]).json, values[i]),
    ensures
        reads_as(
            meta_text(states, years, links, names, labels),
            meta_value(states, years, links, names, labels, values),
        ),
{
    let none = Seq::<char>::empty();
    let gap = seq!['\n', ' ', ' '];
    let (sq, end) = (seq!['['], seq![']']);
    let counts = Seq::new(22, |i: int| count_col(i));
    let groups = grouped(links);
    let x0 = join(json_strings(export_columns()), ","@);
    let x1 = join(json_strings(counts), ","@);
    let x2 = join(json_strings(states), ","@);
    let x3 = join(year_entries(years), ","@);
    let x4 = decimal(row_sum(years));
    let x5 = groups_json(links, names);
    let x6 = labels_json(labels);
    let l0 = "{\n  \"columns\": ["@;
    let l1 = "],\n  \"count_columns\": ["@;
    let l2 = "],\n  \"states\": ["@;
    let l3 = "],\n  \"years\": ["@;
    let l4 = "\n  ],\n  \"total_rows\": "@;
    let l5 = ",\n  \"groups\": ["@;
    let l6 = "],\n  \"labels\": {"@;
    let l7 = "}\n}\n"@;
    let j0 = text_list(export_columns());
    let j1 = text_list(counts);
    let j2 = text_list(states);
    let j3 = JsonText::List(Seq::new(years.len(), |i: int| year_value(years[i])));
    let j4 = JsonText::Number(x4);
    let j5 = JsonText::List(Seq::new(groups.len(), |i: int| group_value(groups[i], names)));
    let j6 = labels_object(labels, values);
    lemma_meta_keys();
    lemma_labels_object(labels, values);
    lemma_last_member(
        gap,
        "labels"@,
        seq!['{'],
        x6,
        seq!['}'],
        seq!['\n'],
        seq!['\n'],
        l7,
        j6,
    );
    let r6 = x6 + l7;
    let m6 = seq![("labels"@, j6)];
    lemma_groups_list(links, names);
    assert(j5 == JsonText::List(
        Seq::new(grouped(links).len(), |i: int| group_value(grouped(links)[i], names)),
    ));
    lemma_meta_step("groups"@, sq, x5, end, l6, meta_lead("labels"@, seq!['{']), r6, j5, m6);
    let r5 = x5 + (l6 + r6);
    let m5 = seq![("groups"@, j5)] + m6;
    lemma_number_reads(row_sum(years) as int);
    assert(none + x4 + none == x4);
    lemma_meta_step("total_rows"@, none, x4, none, l5, meta_lead("groups"@, sq), r5, j4, m5);
    let r4 = x4 + (l5 + r5);
    let m4 = seq![("total_rows"@, j4)] + m5;
    lemma_years_list(years);
    lemma_meta_step(
        "years"@,
        sq,
        x3,
        seq!['\n', ' ', ' ', ']'],
        l4,
        meta_lead("total_rows"@, none),
        r4,
        j3,
        m4,
    );
    let r3 = x3 + (l4 + r4);
    let m3 = seq![("years"@, j3)] + m4;
    lemma_text_list(states);
    lemma_meta_step("states"@, sq, x2, end, l3, meta_lead("years"@, sq), r3, j2, m3);
    let r2 = x2 + (l3 + r3);
    let m2 = seq![("states"@, j2)] + m3;
    lemma_text_list(counts);
    lemma_meta_step("count_columns"@, sq, x1, end, l2, meta_lead("states"@, sq), r2, j1, m2);
    let r1 = x1 + (l2 + r2);
    let m1 = seq![("count_columns"@, j1)] + m2;
    lemma_text_list(export_columns());
    lemma_meta_step("columns"@, sq, x0, end, l1, meta_lead("count_columns"@, sq), r1, j0, m1);
    let r0 = x0 + (l1 + r1);
    let m0 = seq![("columns"@, j0)] + m1;
    let first = meta_lead("columns"@, sq);
    lemma_closed_object(none, first + r0, m0, seq!['\n']);
    assert(none + seq!['{'] == seq!['{']);
    lemma_right(seq!['{'], first, r0);
    assert(m0 == seq![
        ("columns"@, j0),
        ("count_columns"@, j1),
        ("states"@, j2),
        ("years"@, j3),
        ("total_rows"@, j4),
        ("groups"@, j5),
        ("labels"@, j6),
    ]);
    let p1 = l0 + x0;
    let p2 = p1 + l1 + x1;
    let p3 = p2 + l2 + x2;
    let p4 = p3 + l3 + x3;
    let p5 = p4 + l4 + x4;
    let p6 = p5 + l5 + x5;
    lemma_right(p6 + l6, x6, l7);
    lemma_right(p6, l6, r6);
    lemma_right(p5 + l5, x5, l6 + r6);
    lemma_right(p5, l5, r5);
    lemma_right(p4 + l4, x4, l5 + r5);
    lemma_right(p4, l4, r4);
    lemma_right(p3 + l3, x3, l4 + r4);
    lemma_right(p3, l3, r3);
    lemma_right(p2 + l2, x2, l3 + r3);
    lemma_right(p2, l2, r2);
    lemma_right(p1 + l1, x1, l2 + r2);
    lemma_right(p1, l1, r1);
    lemma_right(l0, x0, l1 + r1);
}

/// The index is a JSON document wherever the stored texts of the labels are.
pub proof fn law_meta_is_json(
    states: Seq<Seq<char>>,
    years: Seq<YearRows>,
    links: Seq<(Seq<char>, Seq<char>)>,
    names: Seq<(Seq<char>, Seq<char>)>,
    labels: Seq<LabelText>,
)
    requires
        labels_are_json(labels),
    ensures
        is_json(meta_text(states, years, links, names, labels)),
{
    let values = Seq::new(
        labels.len(),
        |i: int| choose|j: JsonText| reads_as(labels[i].json, j),
    );
    assert forall|i: int| 0 <= i < labels.len() implies reads_as(
        (#[trigger] labels[i]).json,
        values[i],
    ) by {
        law_json_is_readable(labels[i].json);
    }
    law_meta_reads_back(states, years, links, names, labels, values);
    law_json_is_readable(meta_text(states, years, links, names, labels));
}

/// What an exported row holds.
pub open spec fn row_value(r: ExportText) -> JsonText {
    JsonText::List(
        Seq::new(
            30,
            |i: int|
                if i == 0 {
                    JsonText::Number(decimal_int(r.year))
                } else if i == 1 {
                    JsonText::Text(r.rds_key)
                } else if i == 2 {
                    JsonText::Text(r.lic_type)
                } else if i == 3 {
                    JsonText::Text(r.name)
                } else if i == 4 {
                    JsonText::Text(r.street)
                } else if i == 5 {
                    JsonText::Text(r.city)
                } else if i == 6 {
                    JsonText::Text(r.state)
                } else if i < 29 {
                    JsonText::Number(decimal_int(r.counts[i - 7] as int))
                } else {
                    JsonText::Text(r.name_source)
                },
        ),
    )
}

proof fn lemma_row_reads(r: ExportText)
    ensures
        reads_as(row_json(r), row_value(r)),
{
    lemma_commas();
    let none = Seq::<char>::empty();
    let parts = row_parts(r);
    let vs = row_value(r)->List_0;
    assert forall|i: int| 0 <= i < parts.len() implies reads_as(#[trigger] parts[i], vs[i]) by {
        lemma_number_reads(r.year);
        lemma_text_reads(r.rds_key);
        lemma_text_reads(r.lic_type);
        lemma_text_reads(r.name);
        lemma_text_reads(r.street);
        lemma_text_reads(r.city);
        lemma_text_reads(r.state);
        lemma_text_reads(r.name_source);
        if 7 <= i < 29 {
            lemma_number_reads(r.counts[i - 7] as int);
        }
    }
    lemma_list_reads(parts, vs, none, none);
    let s = seq!['['] + join(parts, ","@);
    assert(s + none == s);
}

/// The JSON text of a year is a JSON document that stands for its rows.
pub proof fn law_year_is_json(rows: Seq<ExportText>)
    ensures
        reads_as(
            year_json(rows),
            JsonText::List(Seq::new(rows.len(), |i: int| row_value(rows[i]))),
        ),
        is_json(year_json(rows)),
{
    lemma_commas();
    let none = Seq::<char>::empty();
    let parts = row_jsons(rows);
    let vs = Seq::new(rows.len(), |i: int| row_value(rows[i]));
    assert forall|i: int| 0 <= i < parts.len() implies reads_as(#[trigger] parts[i], vs[i]) by {
        lemma_row_reads(rows[i]);
    }
    lemma_list_reads(parts, vs, none, none);
    let s = seq!['['] + join(parts, ","@);
    assert(s + none == s);
    law_json_is_readable(year_json(rows));
}

} // verus!
