//! What links and labels files say, member by member.

use crate::groups::group_name;
use crate::json::{compact_json, json_member, JsonText};
use crate::labels::{labels_text, labels_value, LabelText};
use crate::links::{group_of, groups_text, groups_value, key_texts, GroupText, LinksText};
use vstd::prelude::*;

verus! {

/// The keys of an array are its strings that are not empty, in order; anything else
/// in it is passed over.
pub proof fn law_keys_are_the_strings(vs: Seq<JsonText>, v: JsonText)
    ensures
        key_texts(Seq::empty()).len() == 0,
        ({
            let now = key_texts(vs.push(v));
            match v {
                JsonText::Text(s) => if s.len() > 0 {
                    now == key_texts(vs).push(s)
                } else {
                    now == key_texts(vs)
                },
                _ => now == key_texts(vs),
            }
        }),
{
    assert(vs.push(v).drop_last() == vs);
}

/// The strings of an array, none of them empty, are its keys.
pub proof fn law_array_lists_its_keys(keys: Seq<Seq<char>>)
    requires
        forall|i: int| 0 <= i < keys.len() ==> (#[trigger] keys[i]).len() > 0,
    ensures
        key_texts(Seq::new(keys.len(), |i: int| JsonText::Text(keys[i]))) == keys,
    decreases keys.len(),
{
    let vs = Seq::new(keys.len(), |i: int| JsonText::Text(keys[i]));
    if keys.len() > 0 {
        let front = keys.drop_last();
        assert forall|i: int| 0 <= i < front.len() implies (#[trigger] front[i]).len() > 0 by {
            assert(keys[i].len() > 0);
        }
        law_array_lists_its_keys(front);
        assert(vs.drop_last() == Seq::new(front.len(), |i: int| JsonText::Text(front[i])));
        assert(keys[keys.len() - 1].len() > 0);
        assert(front.push(keys.last()) == keys);
    }
}

/// A group that is an array has the keys of the array, no name and no id. One that
/// is an object has the keys of the array under `keys`, the string under `name` and
/// the string under `id` unless that is empty. Nothing else is a group.
pub proof fn law_groups_are_arrays_or_objects(v: JsonText, vs: Seq<JsonText>)
    ensures
        v == JsonText::List(vs) ==> group_of(v) == Some(
            GroupText { keys: key_texts(vs), name: None, id: None },
        ),
        v is Object ==> (group_of(v) matches Some(g) && {
            &&& json_member(v, "keys"@) == Some(JsonText::List(vs)) ==> g.keys == key_texts(vs)
            &&& !(json_member(v, "keys"@) matches Some(m) && m is List) ==> g.keys.len() == 0
            &&& g.name == match json_member(v, "name"@) {
                Some(JsonText::Text(s)) => Some(s),
                _ => None,
            }
            &&& g.id == match json_member(v, "id"@) {
                Some(JsonText::Text(s)) => if s.len() > 0 {
                    Some(s)
                } else {
                    None
                },
                _ => None,
            }
        }),
        !(v is List) && !(v is Object) ==> group_of(v) is None,
{
}

/// A further group with keys links each of them, in order, to its id, or to the
/// first of the keys where it has none, and names that group where it has a name. A
/// group without keys adds nothing, and a value that is no group spoils the list.
pub proof fn law_group_links_its_keys(vs: Seq<JsonText>, v: JsonText, t: LinksText, i: int)
    requires
        groups_text(vs) == Some(t),
    ensures
        groups_text(Seq::empty()) matches Some(e) && e.links.len() == 0 && e.names.len() == 0,
        group_of(v) is None ==> groups_text(vs.push(v)) is None,
        group_of(v) matches Some(g) ==> (groups_text(vs.push(v)) matches Some(now) && {
            let id = match g.id {
                Some(id) => id,
                None => g.keys[0],
            };
            &&& g.keys.len() == 0 ==> now == t
            &&& g.keys.len() > 0 ==> {
                &&& now.links.len() == t.links.len() + g.keys.len()
                &&& 0 <= i < t.links.len() ==> now.links[i] == t.links[i]
                &&& 0 <= i < g.keys.len() ==> now.links[t.links.len() + i] == (g.keys[i], id)
                &&& g.name is None ==> now.names == t.names
                &&& g.name matches Some(name) ==> now.names == t.names.push((id, name))
            }
        }),
{
    assert(vs.push(v).drop_last() == vs);
}

/// The groups stand under `groups`, or are the whole document where it has no such
/// member. The labels stand under `labels` in the same way.
pub proof fn law_lists_stand_under_their_name(root: JsonText)
    ensures
        json_member(root, "groups"@) matches Some(v) ==> groups_value(root) == v,
        json_member(root, "groups"@) is None ==> groups_value(root) == root,
        json_member(root, "labels"@) matches Some(v) ==> labels_value(root) == v,
        json_member(root, "labels"@) is None ==> labels_value(root) == root,
{
}

/// A further code gets a label with the whole of its value, unless it begins with an
/// underscore. Its name is the value where that is a string, else the string under
/// `name`, else the code.
pub proof fn law_labels_name_their_code(
    ms: Seq<(Seq<char>, JsonText)>,
    code: Seq<char>,
    label: JsonText,
)
    ensures
        labels_text(Seq::empty()).len() == 0,
        ({
            let now = labels_text(ms.push((code, label)));
            let before = labels_text(ms);
            let hidden = code.len() > 0 && code[0] == '_';
            let name = match label {
                JsonText::Text(s) => s,
                _ => match json_member(label, "name"@) {
                    Some(JsonText::Text(s)) => s,
                    _ => code,
                },
            };
            &&& hidden ==> now == before
            &&& !hidden ==> now == before.push(LabelText { code, name, json: compact_json(label) })
        }),
{
    assert(ms.push((code, label)).drop_last() == ms);
}

/// A group is called by the last name that it was given, and by its id where it was
/// given none.
pub proof fn law_groups_are_called_by_their_last_name(
    names: Seq<(Seq<char>, Seq<char>)>,
    id: Seq<char>,
    i: int,
)
    requires
        -1 <= i < names.len(),
        i >= 0 ==> names[i].0 == id,
        forall|j: int| i < j < names.len() ==> (#[trigger] names[j]).0 != id,
    ensures
        group_name(names, id) == if i >= 0 {
            names[i].1
        } else {
            id
        },
    decreases names.len(),
{
    if names.len() > 0 && i < names.len() - 1 {
        assert(names[names.len() - 1].0 != id);
        let front = names.drop_last();
        assert forall|j: int| i < j < front.len() implies (#[trigger] front[j]).0 != id by {
            assert(names[j].0 != id);
        }
        law_groups_are_called_by_their_last_name(front, id, i);
    }
}

} // verus!
