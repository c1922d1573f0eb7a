//! Curated links between the RDS keys of one manufacturer.
//!
//! A links file is a JSON document, possibly with comments: an array of groups,
//! or an object with such an array under `groups`. A group is an array of keys,
//! of which the first is canonical, or an object with `keys`, an optional `name`
//! and an optional `id`. The `id` stands for the group only: it does not become
//! one of its keys.

use crate::json::{
    json_document, json_member, json_text, json_value, json_values, member, parse_document, JsonText,
};
use crate::jsonc::{plain_json, strip_jsonc};
use vstd::prelude::*;

verus! {

/// A key and the group that it belongs to.
pub struct Link {
    pub rds_key: String,
    pub group_id: String,
}

/// The name of a group.
pub struct GroupName {
    pub group_id: String,
    pub name: String,
}

/// The contents of a links file, in the order in which they are stored.
pub struct Links {
    pub links: Vec<Link>,
    pub names: Vec<GroupName>,
}

/// What the contents of a links file hold: keys with their groups, and groups
/// with their names.
pub struct LinksText {
    pub links: Seq<(Seq<char>, Seq<char>)>,
    pub names: Seq<(Seq<char>, Seq<char>)>,
}

impl View for Links {
    type V = LinksText;

    open spec fn view(&self) -> LinksText {
        LinksText { links: link_texts(self.links@), names: name_texts(self.names@) }
    }
}

pub open spec fn link_texts(v: Seq<Link>) -> Seq<(Seq<char>, Seq<char>)> {
    Seq::new(v.len(), |i: int| (v[i].rds_key@, v[i].group_id@))
}

pub open spec fn name_texts(v: Seq<GroupName>) -> Seq<(Seq<char>, Seq<char>)> {
    Seq::new(v.len(), |i: int| (v[i].group_id@, v[i].name@))
}

/// Why a links file is refused.
pub enum LinksError {
    /// The text is no JSON document.
    Json(serde_json::Error),
    /// The document is no array of groups.
    NotAnArray,
    /// A group is neither an array of keys nor an object.
    BadGroup,
}

/// A group of a links file.
pub struct GroupText {
    pub keys: Seq<Seq<char>>,
    pub name: Option<Seq<char>>,
    pub id: Option<Seq<char>>,
}

/// The strings of an array that are not empty, in order; nothing else counts as
/// a key.
pub open spec fn key_texts(vs: Seq<JsonText>) -> Seq<Seq<char>>
    decreases vs.len(),
{
    if vs.len() == 0 {
        Seq::empty()
    } else {
        let before = key_texts(vs.drop_last());
        match vs.last() {
            JsonText::Text(s) if s.len() > 0 => before.push(s),
            _ => before,
        }
    }
}

/// The keys that a value lists.
pub open spec fn listed_keys(v: JsonText) -> Seq<Seq<char>> {
    match v {
        JsonText::List(vs) => key_texts(vs),
        _ => Seq::empty(),
    }
}

pub open spec fn member_text(v: JsonText, key: Seq<char>) -> Option<Seq<char>> {
    match json_member(v, key) {
        Some(m) => json_text(m),
        None => None,
    }
}

/// The group that a value describes.
pub open spec fn group_of(v: JsonText) -> Option<GroupText> {
    match v {
        JsonText::List(_) => Some(GroupText { keys: listed_keys(v), name: None, id: None }),
        JsonText::Object(_) => Some(
            GroupText {
                keys: match json_member(v, "keys"@) {
                    Some(keys) => listed_keys(keys),
                    None => Seq::empty(),
                },
                name: member_text(v, "name"@),
                id: match member_text(v, "id"@) {
                    Some(id) if id.len() > 0 => Some(id),
                    _ => None,
                },
            },
        ),
        _ => None,
    }
}

/// The canonical key of a group: its id, else the first of its keys.
pub open spec fn canonical_id(g: GroupText) -> Seq<char> {
    match g.id {
        Some(id) => id,
        None => g.keys[0],
    }
}

/// The contents after a further group; a group without keys adds nothing.
pub open spec fn with_group(t: LinksText, g: GroupText) -> LinksText {
    if g.keys.len() == 0 {
        t
    } else {
        LinksText {
            links: t.links + Seq::new(g.keys.len(), |i: int| (g.keys[i], canonical_id(g))),
            names: match g.name {
                Some(name) => t.names.push((canonical_id(g), name)),
                None => t.names,
            },
        }
    }
}

/// The contents of a list of groups, none where one of them is no group.
pub open spec fn groups_text(vs: Seq<JsonText>) -> Option<LinksText>
    decreases vs.len(),
{
    if vs.len() == 0 {
        Some(LinksText { links: Seq::empty(), names: Seq::empty() })
    } else {
        match (groups_text(vs.drop_last()), group_of(vs.last())) {
            (Some(t), Some(g)) => Some(with_group(t, g)),
            _ => None,
        }
    }
}

/// The value that lists the groups of a document.
pub open spec fn groups_value(root: JsonText) -> JsonText {
    match json_member(root, "groups"@) {
        Some(v) => v,
        None => root,
    }
}

/// What a links file gives: its contents, or which way it is refused.
pub open spec fn links_match(root: JsonText, r: Result<Links, LinksError>) -> bool {
    match groups_value(root) {
        JsonText::List(vs) => match groups_text(vs) {
            Some(t) => r matches Ok(links) && links@ == t,
            None => r matches Err(e) && e is BadGroup,
        },
        _ => r matches Err(e) && e is NotAnArray,
    }
}

fn keys_of(v: &serde_json::Value) -> (r: Vec<String>)
    ensures
        crate::text::texts(r@) == listed_keys(json_value(*v)),
{
    let mut out: Vec<String> = Vec::new();
    assert(crate::text::texts(out@) == Seq::<Seq<char>>::empty());
    if let Some(vs) = v.as_array() {
        let ghost all = json_values(vs@);
        let mut i: usize = 0;
        while i < vs.len()
            invariant
                i <= vs@.len(),
                all == json_values(vs@),
                crate::text::texts(out@) == key_texts(all.take(i as int)),
            decreases vs@.len() - i,
        {
            let ghost now = all.take(i + 1);
            assert(now.drop_last() == all.take(i as int));
            assert(now.last() == json_value(vs@[i as int]));
            if let Some(s) = vs[i].as_str() {
                if !s.is_empty() {
                    crate::text::push_text(&mut out, s.to_owned());
                }
            }
            i += 1;
        }
        assert(all.take(i as int) == all);
    }
    out
}

fn text_member(v: &serde_json::Value, key: &str) -> (r: Option<String>)
    ensures
        match r {
            Some(s) => member_text(json_value(*v), key@) == Some(s@),
            None => member_text(json_value(*v), key@) is None,
        },
{
    match member(v, key) {
        Some(m) => match m.as_str() {
            Some(s) => Some(s.to_owned()),
            None => None,
        },
        None => None,
    }
}

/// Adds the keys of a group to the links.
fn push_links(links: &mut Vec<Link>, keys: &Vec<String>, id: &String)
    ensures
        link_texts(final(links)@) == link_texts(old(links)@) + Seq::new(
            keys@.len(),
            |i: int| (keys@[i]@, id@),
        ),
{
    let ghost before = link_texts(links@);
    let ghost added = Seq::new(keys@.len(), |i: int| (keys@[i]@, id@));
    let mut k: usize = 0;
    assert(before + added.take(0) == before);
    while k < keys.len()
        invariant
            k <= keys@.len(),
            added == Seq::new(keys@.len(), |i: int| (keys@[i]@, id@)),
            link_texts(links@) == before + added.take(k as int),
        decreases keys@.len() - k,
    {
        let ghost done = link_texts(links@);
        links.push(Link { rds_key: keys[k].clone(), group_id: id.clone() });
        assert(link_texts(links@) == done.push(added[k as int]));
        assert(added.take(k + 1) == added.take(k as int).push(added[k as int]));
        k += 1;
        assert(link_texts(links@) == before + added.take(k as int));
    }
    assert(added.take(k as int) == added);
}

/// Reads the groups of a parsed links file.
pub fn links_of(root: &serde_json::Value) -> (r: Result<Links, LinksError>)
    ensures
        links_match(json_value(*root), r),
{
    let groups = match member(root, "groups") {
        Some(v) => v,
        None => root,
    };
    let vs = match groups.as_array() {
        Some(vs) => vs,
        None => return Err(LinksError::NotAnArray),
    };
    let ghost all = json_values(vs@);
    let mut links: Vec<Link> = Vec::new();
    let mut names: Vec<GroupName> = Vec::new();
    let mut i: usize = 0;
    assert(link_texts(links@) == Seq::<(Seq<char>, Seq<char>)>::empty());
    assert(name_texts(names@) == Seq::<(Seq<char>, Seq<char>)>::empty());
    while i < vs.len()
        invariant
            i <= vs@.len(),
            all == json_values(vs@),
            groups_value(json_value(*root)) == JsonText::List(all),
            groups_text(all.take(i as int)) == Some(
                (LinksText { links: link_texts(links@), names: name_texts(names@) }),
            ),
        decreases vs@.len() - i,
    {
        let ghost now = all.take(i + 1);
        assert(now.drop_last() == all.take(i as int));
        let g = &vs[i];
        let ghost gv = json_value(*g);
        assert(now.last() == gv);
        let keys: Vec<String>;
        let name: Option<String>;
        let id: Option<String>;
        if g.as_array().is_some() {
            keys = keys_of(g);
            name = None;
            id = None;
        } else if g.is_object() {
            keys = match member(g, "keys") {
                Some(k) => keys_of(k),
                None => Vec::new(),
            };
            name = text_member(g, "name");
            id = match text_member(g, "id") {
                Some(s) => if s.as_str().is_empty() {
                    None
                } else {
                    Some(s)
                },
                None => None,
            };
        } else {
            proof {
                lemma_bad_group(all, i as int);
            }
            return Err(LinksError::BadGroup);
        }
        let ghost group = group_of(gv)->0;
        assert(crate::text::texts(keys@) =~= group.keys);
        if keys.len() > 0 {
            let group_id = match id {
                Some(s) => s,
                None => keys[0].clone(),
            };
            assert(group.keys[0] == keys@[0]@);
            assert(group_id@ == canonical_id(group));
            let ghost done = name_texts(names@);
            push_links(&mut links, &keys, &group_id);
            assert(Seq::new(keys@.len(), |j: int| (keys@[j]@, group_id@)) =~= Seq::new(
                group.keys.len(),
                |j: int| (group.keys[j], canonical_id(group)),
            )) by {
                assert forall|j: int| 0 <= j < keys@.len() implies keys@[j]@ == group.keys[j] by {
                    assert(crate::text::texts(keys@)[j] == keys@[j]@);
                }
            }
            if let Some(name) = name {
                let ghost text = name@;
                names.push(GroupName { group_id, name });
                assert(name_texts(names@) == done.push((canonical_id(group), text)));
            }
        }
        i += 1;
    }
    assert(all.take(i as int) == all);
    Ok(Links { links, names })
}

proof fn lemma_bad_group(vs: Seq<JsonText>, i: int)
    requires
        0 <= i < vs.len(),
        group_of(vs[i]) is None,
    ensures
        groups_text(vs) is None,
    decreases vs.len(),
{
    if i < vs.len() - 1 {
        lemma_bad_group(vs.drop_last(), i);
    }
}

/// Reads a links file. Comments and trailing commas are removed first.
pub fn read_links(raw: &str) -> (r: Result<Links, LinksError>)
    ensures
        match json_document(plain_json(raw@)) {
            Some(root) => links_match(root, r),
            None => r matches Err(e) && e is Json,
        },
{
    let text = strip_jsonc(raw);
    match parse_document(text.as_str()) {
        Ok(root) => links_of(&root),
        Err(e) => Err(LinksError::Json(e)),
    }
}

/// The groups of the keys once the links are stored, one after the other, into
/// an empty table in which a key has one group.
pub open spec fn link_table(links: Seq<(Seq<char>, Seq<char>)>) -> Map<Seq<char>, Seq<char>>
    decreases links.len(),
{
    if links.len() == 0 {
        Map::empty()
    } else {
        link_table(links.drop_last()).insert(links.last().0, links.last().1)
    }
}

proof fn lemma_table_append(
    a: Seq<(Seq<char>, Seq<char>)>,
    keys: Seq<Seq<char>>,
    id: Seq<char>,
    k: Seq<char>,
)
    ensures
        ({
            let b = Seq::new(keys.len(), |i: int| (keys[i], id));
            let t = link_table(a + b);
            &&& keys.contains(k) ==> t.contains_key(k) && t[k] == id
            &&& !keys.contains(k) ==> t.contains_key(k) == link_table(a).contains_key(k)
            &&& !keys.contains(k) && t.contains_key(k) ==> t[k] == link_table(a)[k]
        }),
    decreases keys.len(),
{
    let b = Seq::new(keys.len(), |i: int| (keys[i], id));
    if keys.len() == 0 {
        assert(a + b == a);
    } else {
        let front = keys.drop_last();
        let fb = Seq::new(front.len(), |i: int| (front[i], id));
        lemma_table_append(a, front, id, k);
        assert(b.drop_last() == fb);
        assert((a + b).drop_last() == a + fb);
        assert((a + b).last() == (keys.last(), id));
        if keys.contains(k) && k != keys.last() {
            let i = choose|i: int| 0 <= i < keys.len() && keys[i] == k;
            assert(front[i] == k);
        }
        if front.contains(k) {
            let i = choose|i: int| 0 <= i < front.len() && front[i] == k;
            assert(keys[i] == k);
        }
    }
}

/// Whether a group lists a key.
pub open spec fn lists(v: JsonText, k: Seq<char>) -> bool {
    match group_of(v) {
        Some(g) => g.keys.contains(k),
        None => false,
    }
}

/// Every key that some group lists rolls up to the canonical key of the last
/// group that lists it, and no other key is linked: the id of a group does not
/// become one of its keys.
pub proof fn law_member_keys_roll_up(vs: Seq<JsonText>, k: Seq<char>)
    requires
        groups_text(vs) is Some,
    ensures
        ({
            let t = link_table(groups_text(vs)->0.links);
            &&& t.contains_key(k) <==> exists|i: int| 0 <= i < vs.len() && lists(#[trigger] vs[i], k)
            &&& forall|i: int|
                0 <= i < vs.len() && lists(#[trigger] vs[i], k) && (forall|j: int|
                    i < j < vs.len() ==> !lists(#[trigger] vs[j], k)) ==> t[k] == canonical_id(
                    group_of(vs[i])->0,
                )
        }),
    decreases vs.len(),
{
    if vs.len() > 0 {
        let front = vs.drop_last();
        law_member_keys_roll_up(front, k);
        let before = groups_text(front)->0;
        let g = group_of(vs.last())->0;
        let t = link_table(groups_text(vs)->0.links);
        if g.keys.len() > 0 {
            lemma_table_append(before.links, g.keys, canonical_id(g), k);
        }
        if lists(vs.last(), k) {
            let i = vs.len() - 1;
            assert(lists(vs[i], k));
        }
        assert(t.contains_key(k) <==> exists|i: int|
            0 <= i < vs.len() && lists(#[trigger] vs[i], k)) by {
            if exists|i: int| 0 <= i < front.len() && lists(#[trigger] front[i], k) {
                let i = choose|i: int| 0 <= i < front.len() && lists(#[trigger] front[i], k);
                assert(lists(vs[i], k));
            }
            if exists|i: int| 0 <= i < vs.len() && lists(#[trigger] vs[i], k) {
                let i = choose|i: int| 0 <= i < vs.len() && lists(#[trigger] vs[i], k);
                if i < vs.len() - 1 {
                    assert(lists(front[i], k));
                }
            }
        }
        assert forall|i: int|
            0 <= i < vs.len() && lists(#[trigger] vs[i], k) && (forall|j: int|
                i < j < vs.len() ==> !lists(#[trigger] vs[j], k)) implies t[k] == canonical_id(
            group_of(vs[i])->0,
        ) by {
            if i < vs.len() - 1 {
                assert(!lists(vs[vs.len() - 1], k));
                assert(lists(front[i], k));
                assert forall|j: int| i < j < front.len() implies !lists(#[trigger] front[j], k) by {
                    assert(!lists(vs[j], k));
                }
            }
        }
    }
}

/// A list of groups gives the same, links or error, whether it is the whole
/// document or stands under `groups`.
pub proof fn law_wrapped_groups_load_alike(
    list: JsonText,
    wrapped: JsonText,
    r: Result<Links, LinksError>,
)
    requires
        list is List,
        json_member(wrapped, "groups"@) == Some(list),
    ensures
        groups_value(wrapped) == groups_value(list),
        links_match(wrapped, r) == links_match(list, r),
{
}

} // verus!
