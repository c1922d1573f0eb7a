//! Parsed JSON documents, read through `serde_json`.

use crate::json_grammar::is_json;
use crate::text::all_digits;
use vstd::prelude::*;

verus! {

/// What a JSON value holds: a number by its text, the members of an object in
/// the order in which they are walked.
pub enum JsonText {
    Null,
    Bool(bool),
    Number(Seq<char>),
    Text(Seq<char>),
    List(Seq<JsonText>),
    Object(Seq<(Seq<char>, JsonText)>),
}

/// `serde_json::Value`, a parsed JSON value.
#[verifier::external_type_specification]
#[verifier::external_body]
pub struct ExValue(serde_json::Value);

/// `serde_json::Error`, why a text is no JSON document.
#[verifier::external_type_specification]
#[verifier::external_body]
pub struct ExJsonError(serde_json::Error);

/// What a `serde_json::Value` holds.
pub uninterp spec fn json_value(v: serde_json::Value) -> JsonText;

/// The document that `serde_json::from_str` reads from a text, none where the
/// text is no JSON document.
pub uninterp spec fn json_document(text: Seq<char>) -> Option<JsonText>;

/// The text that `serde_json::to_string` writes for a value.
pub uninterp spec fn compact_json(v: JsonText) -> Seq<char>;

/// The value of the first member with a key.
pub open spec fn member_of(members: Seq<(Seq<char>, JsonText)>, key: Seq<char>) -> Option<JsonText>
    decreases members.len(),
{
    if members.len() == 0 {
        None
    } else if members[0].0 == key {
        Some(members[0].1)
    } else {
        member_of(members.skip(1), key)
    }
}

/// The member with a key; only objects have members.
pub open spec fn json_member(v: JsonText, key: Seq<char>) -> Option<JsonText> {
    match v {
        JsonText::Object(members) => member_of(members, key),
        _ => None,
    }
}

/// The text of a string.
pub open spec fn json_text(v: JsonText) -> Option<Seq<char>> {
    match v {
        JsonText::Text(s) => Some(s),
        _ => None,
    }
}

/// What a row of values holds.
pub open spec fn json_values(vs: Seq<serde_json::Value>) -> Seq<JsonText> {
    Seq::new(vs.len(), |i: int| json_value(vs[i]))
}

/// `serde_json::Value::as_str` gives the text of a string and nothing for any
/// other value.
pub assume_specification[ serde_json::Value::as_str ](v: &serde_json::Value) -> (r: Option<&str>)
    ensures
        match r {
            Some(s) => json_text(json_value(*v)) == Some(s@),
            None => json_text(json_value(*v)) is None,
        },
;

/// `serde_json::Value::as_array` gives the elements of an array and nothing for
/// any other value.
pub assume_specification[ serde_json::Value::as_array ](v: &serde_json::Value) -> (r: Option<
    &Vec<serde_json::Value>,
>)
    ensures
        match r {
            Some(a) => json_value(*v) == JsonText::List(json_values(a@)),
            None => !(json_value(*v) is List),
        },
;

/// `serde_json::Value::is_object` tells whether a value is an object.
pub assume_specification[ serde_json::Value::is_object ](v: &serde_json::Value) -> (r: bool)
    ensures
        r == (json_value(*v) is Object),
;

/// `serde_json::Value::get` with a string gives the member of an object with
/// that key; a value that is no object has no members.
#[verifier::external_body]
pub(crate) fn member<'a>(v: &'a serde_json::Value, key: &str) -> (r: Option<&'a serde_json::Value>)
    ensures
        match r {
            Some(m) => json_member(json_value(*v), key@) == Some(json_value(*m)),
            None => json_member(json_value(*v), key@) is None,
        },
{
    v.get(key)
}

/// `serde_json::Value::as_object` gives the members of an object, here as pairs
/// in the order in which the map is walked, and nothing for any other value.
#[verifier::external_body]
pub(crate) fn members(v: &serde_json::Value) -> (r: Option<Vec<(&String, &serde_json::Value)>>)
    ensures
        match r {
            Some(ms) => json_value(*v) == JsonText::Object(
                Seq::new(ms@.len(), |i: int| (ms@[i].0@, json_value(*ms@[i].1))),
            ),
            None => !(json_value(*v) is Object),
        },
{
    v.as_object().map(|o| o.iter().collect())
}

/// `serde_json::from_str` reads a text as one JSON value.
#[verifier::external_body]
pub(crate) fn parse_document(text: &str) -> (r: Result<serde_json::Value, serde_json::Error>)
    ensures
        match r {
            Ok(v) => json_document(text@) == Some(json_value(v)),
            Err(_) => json_document(text@) is None,
        },
{
    serde_json::from_str(text)
}

/// Whether the text of a number is that of a whole number: digits behind an
/// optional minus sign.
pub open spec fn is_whole(text: Seq<char>) -> bool {
    let digits = if text.len() > 0 && text[0] == '-' {
        text.skip(1)
    } else {
        text
    };
    digits.len() > 0 && all_digits(digits)
}

/// Whether a value nests arrays and objects at most `depth` deep, and all its
/// numbers are whole.
pub open spec fn is_exact(v: JsonText, depth: nat) -> bool
    decreases depth,
{
    match v {
        JsonText::Null => true,
        JsonText::Bool(_) => true,
        JsonText::Text(_) => true,
        JsonText::Number(text) => is_whole(text),
        JsonText::List(vs) => depth > 0 && forall|i: int|
            0 <= i < vs.len() ==> is_exact(#[trigger] vs[i], (depth - 1) as nat),
        JsonText::Object(members) => depth > 0 && forall|i: int|
            0 <= i < members.len() ==> is_exact((#[trigger] members[i]).1, (depth - 1) as nat),
    }
}

/// `serde_json::to_string` writes a value without white space between its
/// parts. It fails only for a type whose own serialization fails and for maps
/// whose keys are no strings, so never for a parsed value. What it writes is a
/// JSON document, and reads back as the value where all numbers are whole and arrays and objects nest at
/// most 127 deep, the limit of the reader. Of how other values read back nothing
/// is said: a fraction may come back as its neighbour.
#[verifier::external_body]
pub(crate) fn compact(v: &serde_json::Value) -> (r: Result<String, serde_json::Error>)
    ensures
        r is Ok,
        r matches Ok(s) ==> s@ == compact_json(json_value(*v)),
        r matches Ok(s) ==> is_json(s@),
        r matches Ok(s) ==> (is_exact(json_value(*v), 127) ==> json_document(s@) == Some(
            json_value(*v),
        )),
{
    serde_json::to_string(v)
}

} // verus!
