//! What a reader of the export gets back.

use crate::export::{
    export_columns, row_json, row_jsons, row_parts, year_json, ExportText,
};
use crate::jsonout::{json_string, law_json_string_reads_back, read_json_string};
use crate::number::{decimal, decimal_int, lemma_decimal_digits, value};
use crate::text::{all_digits, is_digit, join, lemma_join_front};
use vstd::prelude::*;

verus! {

/// A number or a string of a JSON array.
pub enum Scalar {
    Number(int),
    Text(Seq<char>),
}

/// How many characters at the front belong to a number.
pub open spec fn number_len(s: Seq<char>) -> int
    decreases s.len(),
{
    if s.len() > 0 && (is_digit(s[0]) || s[0] == '-') {
        1 + number_len(s.skip(1))
    } else {
        0
    }
}

/// The number that a text stands for: digits behind an optional minus sign.
pub open spec fn number_value(s: Seq<char>) -> Option<int> {
    if s.len() > 0 && all_digits(s) {
        Some(value(s) as int)
    } else if s.len() > 1 && s[0] == '-' && all_digits(s.skip(1)) {
        Some(-(value(s.skip(1)) as int))
    } else {
        None
    }
}

/// The number or string at the front, and what follows it.
pub open spec fn read_scalar(s: Seq<char>) -> Option<(Scalar, Seq<char>)> {
    if s.len() > 0 && s[0] == '"' {
        match read_json_string(s) {
            Some((text, rest)) => Some((Scalar::Text(text), rest)),
            None => None,
        }
    } else {
        match number_value(s.take(number_len(s))) {
            Some(n) => Some((Scalar::Number(n), s.skip(number_len(s)))),
            None => None,
        }
    }
}

/// The numbers and strings of an array up to its closing bracket, and what
/// follows the bracket.
pub open spec fn read_scalars(s: Seq<char>) -> Option<(Seq<Scalar>, Seq<char>)>
    decreases s.len(),
{
    match read_scalar(s) {
        Some((v, rest)) => if rest.len() == 0 || rest.len() >= s.len() {
            None
        } else if rest[0] == ']' {
            Some((seq![v], rest.skip(1)))
        } else if rest[0] == ',' {
            match read_scalars(rest.skip(1)) {
                Some((vs, end)) => Some((seq![v] + vs, end)),
                None => None,
            }
        } else {
            None
        },
        None => None,
    }
}

/// The array of numbers and strings at the front, and what follows it.
pub open spec fn read_row(s: Seq<char>) -> Option<(Seq<Scalar>, Seq<char>)> {
    if s.len() > 0 && s[0] == '[' {
        read_scalars(s.skip(1))
    } else {
        None
    }
}

/// The arrays of an array up to its closing bracket, and what follows it.
pub open spec fn read_rows(s: Seq<char>) -> Option<(Seq<Seq<Scalar>>, Seq<char>)>
    decreases s.len(),
{
    match read_row(s) {
        Some((row, rest)) => if rest.len() == 0 || rest.len() >= s.len() {
            None
        } else if rest[0] == ']' {
            Some((seq![row], rest.skip(1)))
        } else if rest[0] == ',' {
            match read_rows(rest.skip(1)) {
                Some((rows, end)) => Some((seq![row] + rows, end)),
                None => None,
            }
        } else {
            None
        },
        None => None,
    }
}

/// The rows of the JSON text of a year.
pub open spec fn read_year(s: Seq<char>) -> Option<Seq<Seq<Scalar>>> {
    if s.len() == 2 && s[0] == '[' && s[1] == ']' {
        Some(Seq::empty())
    } else if s.len() > 0 && s[0] == '[' {
        match read_rows(s.skip(1)) {
            Some((rows, rest)) => if rest.len() == 0 {
                Some(rows)
            } else {
                None
            },
            None => None,
        }
    } else {
        None
    }
}

/// The values of a row of the export.
pub open spec fn row_scalars(r: ExportText) -> Seq<Scalar> {
    Seq::new(
        30,
        |i: int|
            if i == 0 {
                Scalar::Number(r.year)
            } else if i == 1 {
                Scalar::Text(r.rds_key)
            } else if i == 2 {
                Scalar::Text(r.lic_type)
            } else if i == 3 {
                Scalar::Text(r.name)
            } else if i == 4 {
                Scalar::Text(r.street)
            } else if i == 5 {
                Scalar::Text(r.city)
            } else if i == 6 {
                Scalar::Text(r.state)
            } else if i < 29 {
                Scalar::Number(r.counts[i - 7] as int)
            } else {
                Scalar::Text(r.name_source)
            },
    )
}

/// Whether a text is that of a value.
spec fn is_text_of(part: Seq<char>, v: Scalar) -> bool {
    match v {
        Scalar::Number(n) => part == decimal_int(n),
        Scalar::Text(s) => part == json_string(s),
    }
}

proof fn lemma_number_len(a: Seq<char>, rest: Seq<char>)
    requires
        forall|i: int| 0 <= i < a.len() ==> is_digit(#[trigger] a[i]) || a[i] == '-',
        rest.len() > 0,
        !is_digit(rest[0]),
        rest[0] != '-',
    ensures
        number_len(a + rest) == a.len(),
    decreases a.len(),
{
    if a.len() == 0 {
        assert(a + rest == rest);
    } else {
        assert((a + rest).skip(1) == a.skip(1) + rest);
        lemma_number_len(a.skip(1), rest);
        assert(is_digit(a[0]) || a[0] == '-');
    }
}

proof fn lemma_scalar_reads_back(part: Seq<char>, v: Scalar, rest: Seq<char>)
    requires
        is_text_of(part, v),
        rest.len() > 0,
        rest[0] == ',' || rest[0] == ']',
    ensures
        read_scalar(part + rest) == Some((v, rest)),
        part.len() > 0,
{
    let s = part + rest;
    match v {
        Scalar::Text(text) => {
            law_json_string_reads_back(text, rest);
            assert(s[0] == '"');
        },
        Scalar::Number(n) => {
            let digits = decimal(if n < 0 { (-n) as nat } else { n as nat });
            lemma_decimal_digits(if n < 0 { (-n) as nat } else { n as nat });
            if n < 0 {
                assert(part.skip(1) == digits);
                assert forall|i: int| 0 <= i < part.len() implies is_digit(#[trigger] part[i])
                    || part[i] == '-' by {
                    if i > 0 {
                        assert(part[i] == digits[i - 1]);
                    }
                }
                assert(!is_digit(part[0]));
            } else {
                assert(part == digits);
                assert(is_digit(part[0]));
            }
            lemma_number_len(part, rest);
            assert(s.take(part.len() as int) == part);
            assert(s.skip(part.len() as int) == rest);
            assert(s[0] == part[0]);
        },
    }
}

proof fn lemma_scalars_read_back(parts: Seq<Seq<char>>, vs: Seq<Scalar>, rest: Seq<char>)
    requires
        parts.len() == vs.len(),
        parts.len() > 0,
        forall|i: int| 0 <= i < parts.len() ==> is_text_of(#[trigger] parts[i], vs[i]),
    ensures
        read_scalars(join(parts, seq![',']) + seq![']'] + rest) == Some((vs, rest)),
    decreases parts.len(),
{
    let s = join(parts, seq![',']) + seq![']'] + rest;
    assert(is_text_of(parts[0], vs[0]));
    if parts.len() == 1 {
        let end = seq![']'] + rest;
        assert(s == parts[0] + end);
        lemma_scalar_reads_back(parts[0], vs[0], end);
        assert(end.skip(1) == rest);
        assert(seq![vs[0]] == vs);
    } else {
        lemma_join_front(parts, seq![',']);
        let tail = join(parts.skip(1), seq![',']) + seq![']'] + rest;
        let next = seq![','] + tail;
        assert(s == parts[0] + next);
        lemma_scalar_reads_back(parts[0], vs[0], next);
        assert(next.skip(1) == tail);
        assert forall|i: int| 0 <= i < parts.skip(1).len() implies is_text_of(
            #[trigger] parts.skip(1)[i],
            vs.skip(1)[i],
        ) by {
            assert(is_text_of(parts[i + 1], vs[i + 1]));
        }
        lemma_scalars_read_back(parts.skip(1), vs.skip(1), rest);
        assert(seq![vs[0]] + vs.skip(1) == vs);
    }
}

proof fn lemma_punctuation()
    ensures
        "["@ == seq!['['],
        "]"@ == seq![']'],
        ","@ == seq![','],
{
    reveal_strlit("[");
    reveal_strlit("]");
    reveal_strlit(",");
    assert("["@ == seq!['[']);
    assert("]"@ == seq![']']);
    assert(","@ == seq![',']);
}

/// An exported row reads back as its values, whatever follows it, and has one
/// value for each column.
pub proof fn law_row_reads_back(r: ExportText, rest: Seq<char>)
    ensures
        read_row(row_json(r) + rest) == Some((row_scalars(r), rest)),
        row_scalars(r).len() == export_columns().len(),
{
    lemma_punctuation();
    let parts = row_parts(r);
    let vs = row_scalars(r);
    assert forall|i: int| 0 <= i < parts.len() implies is_text_of(#[trigger] parts[i], vs[i]) by {
    }
    lemma_scalars_read_back(parts, vs, rest);
    let s = row_json(r) + rest;
    assert(s.skip(1) == join(parts, seq![',']) + seq![']'] + rest);
    assert(s[0] == '[');
}

pub open spec fn rows_scalars(rows: Seq<ExportText>) -> Seq<Seq<Scalar>> {
    Seq::new(rows.len(), |i: int| row_scalars(rows[i]))
}

/// Whether a text reads back as a row, whatever follows it.
spec fn is_text_of_row(part: Seq<char>, row: Seq<Scalar>) -> bool {
    &&& part.len() > 0
    &&& forall|rest: Seq<char>| #[trigger] read_row(part + rest) == Some((row, rest))
}

proof fn lemma_rows_read_back(parts: Seq<Seq<char>>, rows: Seq<Seq<Scalar>>, rest: Seq<char>)
    requires
        parts.len() == rows.len(),
        parts.len() > 0,
        forall|i: int| 0 <= i < parts.len() ==> is_text_of_row(#[trigger] parts[i], rows[i]),
    ensures
        read_rows(join(parts, seq![',']) + seq![']'] + rest) == Some((rows, rest)),
    decreases parts.len(),
{
    let s = join(parts, seq![',']) + seq![']'] + rest;
    assert(is_text_of_row(parts[0], rows[0]));
    if parts.len() == 1 {
        let end = seq![']'] + rest;
        assert(s == parts[0] + end);
        assert(read_row(parts[0] + end) == Some((rows[0], end)));
        assert(end.skip(1) == rest);
        assert(rows == seq![rows[0]]);
    } else {
        lemma_join_front(parts, seq![',']);
        let (ps, rs) = (parts.skip(1), rows.skip(1));
        let tail = join(ps, seq![',']) + seq![']'] + rest;
        let next = seq![','] + tail;
        assert(s == parts[0] + next);
        assert(read_row(parts[0] + next) == Some((rows[0], next)));
        assert(next.skip(1) == tail);
        assert forall|i: int| 0 <= i < ps.len() implies is_text_of_row(
            #[trigger] ps[i],
            rs[i],
        ) by {
            assert(is_text_of_row(parts[i + 1], rows[i + 1]));
        }
        lemma_rows_read_back(ps, rs, rest);
        assert(rows == seq![rows[0]] + rs);
    }
}

proof fn lemma_row_not_empty(r: ExportText)
    ensures
        row_json(r).len() > 2,
        row_json(r)[0] == '[',
{
    lemma_punctuation();
    let parts = row_parts(r);
    lemma_join_front(parts, ","@);
    lemma_decimal_digits(if r.year < 0 { (-r.year) as nat } else { r.year as nat });
}

/// The JSON text of a year reads back as the values of its rows, in order.
pub proof fn law_year_reads_back(rows: Seq<ExportText>)
    ensures
        read_year(year_json(rows)) == Some(rows_scalars(rows)),
{
    lemma_punctuation();
    let s = year_json(rows);
    if rows.len() == 0 {
        assert(s == seq!['[', ']']);
        assert(rows_scalars(rows) == Seq::<Seq<Scalar>>::empty());
    } else {
        let rest = Seq::<char>::empty();
        let (parts, vs) = (row_jsons(rows), rows_scalars(rows));
        assert forall|i: int| 0 <= i < parts.len() implies is_text_of_row(
            #[trigger] parts[i],
            vs[i],
        ) by {
            lemma_row_not_empty(rows[i]);
            assert forall|end: Seq<char>| #[trigger] read_row(parts[i] + end) == Some(
                (vs[i], end),
            ) by {
                law_row_reads_back(rows[i], end);
            }
        }
        lemma_rows_read_back(parts, vs, rest);
        let inner = join(row_jsons(rows), seq![',']);
        assert(s.skip(1) == inner + seq![']'] + rest);
        assert(s.len() > 2) by {
            lemma_row_not_empty(rows[0]);
            if rows.len() > 1 {
                lemma_join_front(row_jsons(rows), seq![',']);
            }
        }
    }
}

} // verus!
