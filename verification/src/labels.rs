//! Friendly names for column and activity codes.
//!
//! A labels file is a JSON object from codes to labels, or an object with such
//! an object under `labels`. A label is a string, the name, or an object with a
//! `name` among whatever else it holds. Codes that begin with an underscore are
//! comments.

use crate::json::{
    compact, compact_json, is_exact, json_document, json_member, json_text, json_value, member,
    members, parse_document, JsonText,
};
use crate::json_grammar::is_json;
use crate::links::member_text;
use crate::text::chars_of;
use vstd::prelude::*;

verus! {

/// A code with its friendly name and the whole of its label as JSON.
pub struct Label {
    pub code: String,
    pub name: String,
    pub json: String,
}

/// What a label holds.
pub struct LabelText {
    pub code: Seq<char>,
    pub name: Seq<char>,
    pub json: Seq<char>,
}

impl View for Label {
    type V = LabelText;

    open spec fn view(&self) -> LabelText {
        LabelText { code: self.code@, name: self.name@, json: self.json@ }
    }
}

pub open spec fn label_texts(v: Seq<Label>) -> Seq<LabelText> {
    Seq::new(v.len(), |i: int| v[i]@)
}

/// Why a labels file is refused.
pub enum LabelsError {
    /// The text is no JSON document.
    Json(serde_json::Error),
    /// The labels are no JSON object.
    NotAnObject,
}

/// The name that a label gives a code; a label without a name leaves the code.
pub open spec fn label_name(code: Seq<char>, label: JsonText) -> Seq<char> {
    match json_text(label) {
        Some(name) => name,
        None => match member_text(label, "name"@) {
            Some(name) => name,
            None => code,
        },
    }
}

pub open spec fn is_comment(code: Seq<char>) -> bool {
    code.len() > 0 && code[0] == '_'
}

/// The labels of the members of an object, in their order.
pub open spec fn labels_text(ms: Seq<(Seq<char>, JsonText)>) -> Seq<LabelText>
    decreases ms.len(),
{
    if ms.len() == 0 {
        Seq::empty()
    } else {
        let before = labels_text(ms.drop_last());
        let (code, label) = ms.last();
        if is_comment(code) {
            before
        } else {
            before.push(
                LabelText { code, name: label_name(code, label), json: compact_json(label) },
            )
        }
    }
}

/// The value that holds the labels of a document.
pub open spec fn labels_value(root: JsonText) -> JsonText {
    match json_member(root, "labels"@) {
        Some(v) => v,
        None => root,
    }
}

/// What a labels file gives: its labels, or that it holds none.
pub open spec fn labels_match(root: JsonText, r: Result<Vec<Label>, LabelsError>) -> bool {
    match labels_value(root) {
        JsonText::Object(ms) => r matches Ok(labels) && label_texts(labels@) == labels_text(ms),
        _ => r matches Err(e) && e is NotAnObject,
    }
}

/// Whether the text of each label reads back as the label. Left out are labels
/// that hold a fraction or nest more than 127 deep.
pub open spec fn labels_survive(root: JsonText) -> bool {
    match labels_value(root) {
        JsonText::Object(ms) => forall|i: int|
            0 <= i < ms.len() && !is_comment((#[trigger] ms[i]).0) && is_exact(ms[i].1, 127)
                ==> json_document(compact_json(ms[i].1)) == Some(ms[i].1),
        _ => true,
    }
}

/// Whether the text of each label is a JSON document.
pub open spec fn labels_are_json(labels: Seq<LabelText>) -> bool {
    forall|i: int| 0 <= i < labels.len() ==> is_json((#[trigger] labels[i]).json)
}

fn name_of(code: &String, label: &serde_json::Value) -> (r: String)
    ensures
        r@ == label_name(code@, json_value(*label)),
{
    if let Some(name) = label.as_str() {
        return name.to_owned();
    }
    if let Some(m) = member(label, "name") {
        if let Some(name) = m.as_str() {
            return name.to_owned();
        }
    }
    code.clone()
}

/// Reads the labels of a parsed labels file. Everything that a label holds is
/// kept.
pub fn labels_of(root: &serde_json::Value) -> (r: Result<Vec<Label>, LabelsError>)
    ensures
        labels_match(json_value(*root), r),
        r is Ok ==> labels_survive(json_value(*root)),
        r matches Ok(labels) ==> labels_are_json(label_texts(labels@)),
{
    let labels = match member(root, "labels") {
        Some(v) => v,
        None => root,
    };
    let ms = match members(labels) {
        Some(ms) => ms,
        None => return Err(LabelsError::NotAnObject),
    };
    let ghost all = Seq::new(ms@.len(), |i: int| (ms@[i].0@, json_value(*ms@[i].1)));
    let mut out: Vec<Label> = Vec::new();
    let mut i: usize = 0;
    assert(label_texts(out@) == Seq::<LabelText>::empty());
    while i < ms.len()
        invariant
            i <= ms@.len(),
            all == Seq::new(ms@.len(), |i: int| (ms@[i].0@, json_value(*ms@[i].1))),
            labels_value(json_value(*root)) == JsonText::Object(all),
            label_texts(out@) == labels_text(all.take(i as int)),
            labels_are_json(label_texts(out@)),
            forall|k: int|
                0 <= k < i && !is_comment((#[trigger] all[k]).0) && is_exact(all[k].1, 127)
                    ==> json_document(compact_json(all[k].1)) == Some(all[k].1),
        decreases ms@.len() - i,
    {
        let ghost now = all.take(i + 1);
        assert(now.drop_last() == all.take(i as int));
        assert(now.last() == all[i as int]);
        let code = ms[i].0;
        let label = ms[i].1;
        let chars = chars_of(code.as_str());
        if !(chars.len() > 0 && chars[0] == '_') {
            let ghost before = label_texts(out@);
            let json = match compact(label) {
                Ok(json) => json,
                Err(e) => return Err(LabelsError::Json(e)),
            };
            let entry = Label { code: code.clone(), name: name_of(code, label), json };
            let ghost text = entry@;
            out.push(entry);
            assert(label_texts(out@) == before.push(text));
        }
        i += 1;
    }
    assert(all.take(i as int) == all);
    Ok(out)
}

/// Reads a labels file.
pub fn read_labels(raw: &str) -> (r: Result<Vec<Label>, LabelsError>)
    ensures
        match json_document(raw@) {
            Some(root) => labels_match(root, r) && (r is Ok ==> labels_survive(root)),
            None => r matches Err(e) && e is Json,
        },
        r matches Ok(labels) ==> labels_are_json(label_texts(labels@)),
{
    match parse_document(raw) {
        Ok(root) => labels_of(&root),
        Err(e) => Err(LabelsError::Json(e)),
    }
}

/// Every code that is no comment gets a label, and no other code gets one.
pub proof fn law_every_code_is_labelled(ms: Seq<(Seq<char>, JsonText)>, code: Seq<char>)
    ensures
        (exists|j: int| 0 <= j < labels_text(ms).len() && (#[trigger] labels_text(ms)[j]).code == code)
            <==> !is_comment(code) && exists|i: int| 0 <= i < ms.len() && (#[trigger] ms[i]).0 == code,
    decreases ms.len(),
{
    if ms.len() > 0 {
        let front = ms.drop_last();
        let before = labels_text(front);
        let now = labels_text(ms);
        law_every_code_is_labelled(front, code);
        if exists|j: int| 0 <= j < now.len() && (#[trigger] now[j]).code == code {
            let j = choose|j: int| 0 <= j < now.len() && (#[trigger] now[j]).code == code;
            if j < before.len() {
                assert(before[j].code == code);
                let i = choose|i: int| 0 <= i < front.len() && (#[trigger] front[i]).0 == code;
                assert(ms[i].0 == code);
            } else {
                assert(ms[ms.len() - 1].0 == code);
            }
        }
        if !is_comment(code) && exists|i: int| 0 <= i < ms.len() && (#[trigger] ms[i]).0 == code {
            let i = choose|i: int| 0 <= i < ms.len() && (#[trigger] ms[i]).0 == code;
            if i < front.len() {
                assert(front[i].0 == code);
                let j = choose|j: int| 0 <= j < before.len() && (#[trigger] before[j]).code == code;
                assert(now[j] == before[j]);
            } else {
                assert(now[now.len() - 1].code == code);
            }
        }
    }
}

} // verus!
