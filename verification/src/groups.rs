//! Linked keys, gathered into groups for the export.

use crate::jsonout::{json_str, json_string};
use crate::links::{link_texts, name_texts, GroupName, Link};
use crate::text::{
    is_before, join, join_all, law_text_order_is_total, law_text_order_is_transitive, push_text,
    text_before, texts,
};
use vstd::prelude::*;

verus! {

/// A group of linked keys.
pub struct Group {
    pub id: String,
    pub keys: Vec<String>,
}

/// What a group holds.
pub struct GroupKeys {
    pub id: Seq<char>,
    pub keys: Seq<Seq<char>>,
}

impl View for Group {
    type V = GroupKeys;

    open spec fn view(&self) -> GroupKeys {
        GroupKeys { id: self.id@, keys: texts(self.keys@) }
    }
}

pub open spec fn group_texts(v: Seq<Group>) -> Seq<GroupKeys> {
    Seq::new(v.len(), |i: int| v[i]@)
}

/// The position of the first group whose id does not come before `id`.
pub open spec fn place(groups: Seq<GroupKeys>, id: Seq<char>) -> int
    decreases groups.len(),
{
    if groups.len() == 0 || !text_before(groups[0].id, id) {
        0
    } else {
        1 + place(groups.skip(1), id)
    }
}

/// The groups after a further key.
pub open spec fn with_key(groups: Seq<GroupKeys>, id: Seq<char>, key: Seq<char>) -> Seq<GroupKeys> {
    let at = place(groups, id);
    if at < groups.len() && groups[at].id == id {
        groups.update(at, GroupKeys { id, keys: groups[at].keys.push(key) })
    } else {
        groups.insert(at, GroupKeys { id, keys: seq![key] })
    }
}

/// The groups of the linked keys, by id; the keys of a group in the order of
/// their links.
pub open spec fn grouped(links: Seq<(Seq<char>, Seq<char>)>) -> Seq<GroupKeys>
    decreases links.len(),
{
    if links.len() == 0 {
        Seq::empty()
    } else {
        let (key, id) = links.last();
        with_key(grouped(links.drop_last()), id, key)
    }
}

/// The keys that are linked to a group, in the order of their links.
pub open spec fn keys_in(links: Seq<(Seq<char>, Seq<char>)>, id: Seq<char>) -> Seq<Seq<char>>
    decreases links.len(),
{
    if links.len() == 0 {
        Seq::empty()
    } else {
        let before = keys_in(links.drop_last(), id);
        if links.last().1 == id {
            before.push(links.last().0)
        } else {
            before
        }
    }
}

/// The latest name of a group; a group without a name is called by its id.
pub open spec fn group_name(names: Seq<(Seq<char>, Seq<char>)>, id: Seq<char>) -> Seq<char>
    decreases names.len(),
{
    if names.len() == 0 {
        id
    } else if names.last().0 == id {
        names.last().1
    } else {
        group_name(names.drop_last(), id)
    }
}

pub open spec fn json_strings(v: Seq<Seq<char>>) -> Seq<Seq<char>> {
    Seq::new(v.len(), |i: int| json_string(v[i]))
}

/// A group as a JSON object.
pub open spec fn group_json(g: GroupKeys, names: Seq<(Seq<char>, Seq<char>)>) -> Seq<char> {
    "{\"id\": "@ + json_string(g.id) + ", \"name\": "@ + json_string(group_name(names, g.id))
        + ", \"keys\": ["@ + join(json_strings(g.keys), ","@) + "]}"@
}

/// The groups as the inside of a JSON array.
pub open spec fn groups_json(
    links: Seq<(Seq<char>, Seq<char>)>,
    names: Seq<(Seq<char>, Seq<char>)>,
) -> Seq<char> {
    let groups = grouped(links);
    join(Seq::new(groups.len(), |i: int| group_json(groups[i], names)), ", "@)
}

proof fn lemma_place(groups: Seq<GroupKeys>, id: Seq<char>)
    ensures
        0 <= place(groups, id) <= groups.len(),
        forall|i: int| 0 <= i < place(groups, id) ==> text_before((#[trigger] groups[i]).id, id),
        place(groups, id) < groups.len() ==> !text_before(groups[place(groups, id)].id, id),
    decreases groups.len(),
{
    if groups.len() > 0 && text_before(groups[0].id, id) {
        lemma_place(groups.skip(1), id);
        assert forall|i: int| 0 <= i < place(groups, id) implies text_before(
            (#[trigger] groups[i]).id,
            id,
        ) by {
            if i > 0 {
                assert(groups[i] == groups.skip(1)[i - 1]);
            }
        }
    }
}

proof fn lemma_place_is(groups: Seq<GroupKeys>, id: Seq<char>, at: int)
    requires
        0 <= at <= groups.len(),
        forall|i: int| 0 <= i < at ==> text_before((#[trigger] groups[i]).id, id),
        at < groups.len() ==> !text_before(groups[at].id, id),
    ensures
        place(groups, id) == at,
{
    lemma_place(groups, id);
    let p = place(groups, id);
    if p < at {
        assert(text_before(groups[p].id, id));
    } else if at < p {
        assert(text_before(groups[at].id, id));
    }
}

/// The linked keys, gathered by group.
pub fn groups_of(links: &Vec<Link>) -> (r: Vec<Group>)
    ensures
        group_texts(r@) == grouped(link_texts(links@)),
{
    let ghost all = link_texts(links@);
    let mut out: Vec<Group> = Vec::new();
    let mut i: usize = 0;
    assert(group_texts(out@) == Seq::<GroupKeys>::empty());
    while i < links.len()
        invariant
            i <= links@.len(),
            all == link_texts(links@),
            group_texts(out@) == grouped(all.take(i as int)),
        decreases links@.len() - i,
    {
        let ghost before = group_texts(out@);
        let ghost now = all.take(i + 1);
        assert(now.drop_last() == all.take(i as int));
        let link = &links[i];
        assert(now.last() == (link.rds_key@, link.group_id@));
        let mut at: usize = 0;
        while at < out.len() && is_before(out[at].id.as_str(), link.group_id.as_str())
            invariant
                at <= out@.len(),
                before == group_texts(out@),
                forall|k: int|
                    0 <= k < at ==> text_before((#[trigger] before[k]).id, link.group_id@),
            decreases out@.len() - at,
        {
            assert(before[at as int] == out@[at as int]@);
            at += 1;
        }
        proof {
            if at < out@.len() {
                assert(before[at as int] == out@[at as int]@);
            }
            lemma_place_is(before, link.group_id@, at as int);
        }
        if at < out.len() && out[at].id == link.group_id {
            push_text(&mut out[at].keys, link.rds_key.clone());
            assert(group_texts(out@) == with_key(before, link.group_id@, link.rds_key@));
        } else {
            let mut keys: Vec<String> = Vec::new();
            keys.push(link.rds_key.clone());
            assert(texts(keys@) == seq![link.rds_key@]);
            out.insert(at, Group { id: link.group_id.clone(), keys });
            assert(group_texts(out@) == with_key(before, link.group_id@, link.rds_key@));
        }
        i += 1;
    }
    assert(all.take(i as int) == all);
    out
}

fn name_of(names: &Vec<GroupName>, id: &String) -> (r: String)
    ensures
        r@ == group_name(name_texts(names@), id@),
{
    let ghost all = name_texts(names@);
    let mut n: usize = names.len();
    assert(all.take(n as int) == all);
    while n > 0
        invariant
            n <= names@.len(),
            all == name_texts(names@),
            group_name(all, id@) == group_name(all.take(n as int), id@),
        decreases n,
    {
        let ghost now = all.take(n as int);
        assert(now.drop_last() == all.take(n - 1));
        assert(now.last() == (names@[n - 1].group_id@, names@[n - 1].name@));
        if names[n - 1].group_id == *id {
            return names[n - 1].name.clone();
        }
        n -= 1;
    }
    id.clone()
}

/// The texts as JSON strings with commas between them.
pub fn json_list(parts: &Vec<String>) -> (r: String)
    ensures
        r@ == join(json_strings(texts(parts@)), ","@),
{
    let ghost all = json_strings(texts(parts@));
    let mut quoted: Vec<String> = Vec::new();
    let mut i: usize = 0;
    while i < parts.len()
        invariant
            i <= parts@.len(),
            all == json_strings(texts(parts@)),
            texts(quoted@) == all.take(i as int),
        decreases parts@.len() - i,
    {
        let mut s = String::new();
        json_str(&mut s, parts[i].as_str());
        assert(s@ == json_string(parts@[i as int]@));
        push_text(&mut quoted, s);
        i += 1;
        assert(texts(quoted@) == all.take(i as int));
    }
    assert(all.take(i as int) == all);
    join_all(&quoted, ",")
}

fn group_text(g: &Group, names: &Vec<GroupName>) -> (r: String)
    ensures
        r@ == group_json(g@, name_texts(names@)),
{
    let mut o = "{\"id\": ".to_owned();
    json_str(&mut o, g.id.as_str());
    o.append(", \"name\": ");
    json_str(&mut o, name_of(names, &g.id).as_str());
    o.append(", \"keys\": [");
    o.append(json_list(&g.keys).as_str());
    o.append("]}");
    o
}

/// The groups as the inside of a JSON array, so that each has its id, a name and
/// its keys.
pub fn groups_json_body(links: &Vec<Link>, names: &Vec<GroupName>) -> (r: String)
    ensures
        r@ == groups_json(link_texts(links@), name_texts(names@)),
{
    let groups = groups_of(links);
    let ghost texts_of = grouped(link_texts(links@));
    let ghost all = Seq::new(
        texts_of.len(),
        |i: int| group_json(texts_of[i], name_texts(names@)),
    );
    let mut parts: Vec<String> = Vec::new();
    let mut i: usize = 0;
    while i < groups.len()
        invariant
            i <= groups@.len(),
            group_texts(groups@) == texts_of,
            all == Seq::new(
                texts_of.len(),
                |i: int| group_json(texts_of[i], name_texts(names@)),
            ),
            texts(parts@) == all.take(i as int),
        decreases groups@.len() - i,
    {
        assert(texts_of[i as int] == groups@[i as int]@);
        push_text(&mut parts, group_text(&groups[i], names));
        i += 1;
        assert(texts(parts@) == all.take(i as int));
    }
    assert(all.take(i as int) == all);
    join_all(&parts, ", ")
}

/// Whether the groups are those of the links: sorted by id, each id once, each
/// with all the keys that are linked to it, and no id without a key.
pub open spec fn is_grouping(
    groups: Seq<GroupKeys>,
    links: Seq<(Seq<char>, Seq<char>)>,
) -> bool {
    &&& forall|i: int, j: int|
        0 <= i < j < groups.len() ==> text_before(
            (#[trigger] groups[i]).id,
            (#[trigger] groups[j]).id,
        )
    &&& forall|i: int|
        0 <= i < groups.len() ==> (#[trigger] groups[i]).keys == keys_in(links, groups[i].id)
            && groups[i].keys.len() > 0
    &&& forall|id: Seq<char>|
        (#[trigger] keys_in(links, id)).len() > 0 ==> exists|i: int|
            0 <= i < groups.len() && (#[trigger] groups[i]).id == id
}

/// The groups of the export are sorted by id, each holds all the keys that are
/// linked to it, in order, and every linked key is in one.
pub proof fn law_groups_collect_keys(links: Seq<(Seq<char>, Seq<char>)>)
    ensures
        is_grouping(grouped(links), links),
    decreases links.len(),
{
    if links.len() > 0 {
        let front = links.drop_last();
        law_groups_collect_keys(front);
        lemma_with_key(grouped(front), links);
    }
}

proof fn lemma_with_key(groups: Seq<GroupKeys>, links: Seq<(Seq<char>, Seq<char>)>)
    requires
        links.len() > 0,
        is_grouping(groups, links.drop_last()),
    ensures
        is_grouping(with_key(groups, links.last().1, links.last().0), links),
{
    let front = links.drop_last();
    let (key, id) = links.last();
    let at = place(groups, id);
    let now = with_key(groups, id, key);
    lemma_place(groups, id);
    if at < groups.len() && groups[at].id == id {
        assert forall|i: int, j: int| 0 <= i < j < now.len() implies text_before(
            (#[trigger] now[i]).id,
            (#[trigger] now[j]).id,
        ) by {
            assert(now[i].id == groups[i].id);
            assert(now[j].id == groups[j].id);
        }
        assert forall|i: int| 0 <= i < now.len() implies (#[trigger] now[i]).keys == keys_in(
            links,
            now[i].id,
        ) && now[i].keys.len() > 0 by {
            if i != at {
                assert(now[i] == groups[i]);
                if i < at {
                    assert(text_before(groups[i].id, groups[at].id));
                } else {
                    assert(text_before(groups[at].id, groups[i].id));
                }
                law_text_order_is_total(groups[i].id, id);
                law_text_order_is_total(id, id);
            }
        }
        assert forall|other: Seq<char>|
            (#[trigger] keys_in(links, other)).len() > 0 implies exists|i: int|
            0 <= i < now.len() && (#[trigger] now[i]).id == other by {
            if other == id {
                assert(now[at].id == id);
            } else {
                assert(keys_in(front, other).len() > 0);
                let i = choose|i: int| 0 <= i < groups.len() && (#[trigger] groups[i]).id == other;
                assert(now[i].id == other);
            }
        }
    } else {
        assert forall|i: int| at <= i < groups.len() implies text_before(
            id,
            (#[trigger] groups[i]).id,
        ) by {
            law_text_order_is_total(groups[at].id, id);
            if i > at {
                assert(text_before(groups[at].id, groups[i].id));
                law_text_order_is_transitive(id, groups[at].id, groups[i].id);
            }
        }
        assert forall|i: int, j: int| 0 <= i < j < now.len() implies text_before(
            (#[trigger] now[i]).id,
            (#[trigger] now[j]).id,
        ) by {
            if i == at {
                assert(now[j] == groups[j - 1]);
            } else if j == at {
                assert(now[i] == groups[i]);
            } else {
                let ii = if i < at { i } else { i - 1 };
                let jj = if j < at { j } else { j - 1 };
                assert(now[i] == groups[ii]);
                assert(now[j] == groups[jj]);
            }
        }
        assert(keys_in(front, id).len() == 0) by {
            if keys_in(front, id).len() > 0 {
                let i = choose|i: int| 0 <= i < groups.len() && (#[trigger] groups[i]).id == id;
                law_text_order_is_total(id, id);
                if i < at {
                    assert(text_before(groups[i].id, id));
                } else {
                    assert(text_before(id, groups[i].id));
                }
            }
        }
        assert(keys_in(links, id) == seq![key]);
        assert forall|i: int| 0 <= i < now.len() implies (#[trigger] now[i]).keys == keys_in(
            links,
            now[i].id,
        ) && now[i].keys.len() > 0 by {
            if i != at {
                let ii = if i < at { i } else { i - 1 };
                assert(now[i] == groups[ii]);
                law_text_order_is_total(id, id);
                if i < at {
                    assert(text_before(groups[ii].id, id));
                } else {
                    assert(text_before(id, groups[ii].id));
                }
            }
        }
        assert forall|other: Seq<char>|
            (#[trigger] keys_in(links, other)).len() > 0 implies exists|i: int|
            0 <= i < now.len() && (#[trigger] now[i]).id == other by {
            if other == id {
                assert(now[at].id == id);
            } else {
                assert(keys_in(front, other).len() > 0);
                let i = choose|i: int| 0 <= i < groups.len() && (#[trigger] groups[i]).id == other;
                let ii = if i < at { i } else { i + 1 };
                assert(now[ii] == groups[i]);
            }
        }
    }
}

} // verus!
