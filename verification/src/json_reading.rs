//! What a JSON text says.

use crate::json::JsonText;
use crate::json_grammar::{
    all_json_space, are_elements, are_members, element_text, elements_text, is_element, is_escape,
    is_inside, is_json, is_json_space, is_member, is_numeral, is_written, member_json, members_text,
    numeral_text, written_text, Element, Elements, Member, Members, Numeral, Written,
};
use crate::jsonout::{
    hex_char, hex_value, json_char, json_chars, json_string, law_json_string_reads_back, lemma_hex,
    lemma_json_chars_front, read_chars, read_json_string,
};
use crate::number::{decimal, decimal_int, lemma_decimal_digits};
use crate::text::{join, lemma_join_front};
use vstd::prelude::*;

verus! {

/// Whether the inside of a string literal stands for a text. One with half of a
/// surrogate pair is no text, and stands for any.
pub open spec fn inside_means(inside: Seq<char>, text: Seq<char>) -> bool {
    match read_chars(inside + seq!['"']) {
        Some((read, _)) => text == read,
        None => true,
    }
}

/// Whether a value as it is written stands for `j`: a number for its text, the
/// members of an object in the order in which they are written.
pub open spec fn means(v: Written, j: JsonText) -> bool
    decreases v,
{
    match v {
        Written::True => j == JsonText::Bool(true),
        Written::False => j == JsonText::Bool(false),
        Written::Null => j == JsonText::Null,
        Written::Number(n) => j == JsonText::Number(numeral_text(n)),
        Written::Text(inside) => j matches JsonText::Text(text) && inside_means(inside, text),
        Written::EmptyList(_) => j == JsonText::List(Seq::empty()),
        Written::List(es) => j matches JsonText::List(vs) && elements_mean(*es, vs),
        Written::EmptyObject(_) => j == JsonText::Object(Seq::empty()),
        Written::Object(ms) => j matches JsonText::Object(xs) && members_mean(*ms, xs),
    }
}

pub open spec fn element_means(e: Element, j: JsonText) -> bool
    decreases e,
{
    means(e.value, j)
}

pub open spec fn elements_mean(es: Elements, vs: Seq<JsonText>) -> bool
    decreases es,
{
    match es {
        Elements::One(e) => vs.len() == 1 && element_means(*e, vs[0]),
        Elements::More(e, rest) => vs.len() > 1 && element_means(*e, vs[0]) && elements_mean(
            *rest,
            vs.skip(1),
        ),
    }
}

pub open spec fn member_means(m: Member, key: Seq<char>, j: JsonText) -> bool
    decreases m,
{
    inside_means(m.key, key) && element_means(m.value, j)
}

pub open spec fn members_mean(ms: Members, xs: Seq<(Seq<char>, JsonText)>) -> bool
    decreases ms,
{
    match ms {
        Members::One(m) => xs.len() == 1 && member_means(*m, xs[0].0, xs[0].1),
        Members::More(m, rest) => xs.len() > 1 && member_means(*m, xs[0].0, xs[0].1)
            && members_mean(*rest, xs.skip(1)),
    }
}

/// Whether a text is a JSON document that stands for `j`.
pub open spec fn reads_as(s: Seq<char>, j: JsonText) -> bool {
    exists|e: Element| #[trigger] is_element(e) && element_text(e) == s && element_means(e, j)
}

/// Whether a text is a member of an object with a key and the value `j`.
pub open spec fn member_reads_as(s: Seq<char>, key: Seq<char>, j: JsonText) -> bool {
    exists|m: Member| #[trigger] is_member(m) && member_json(m) == s && member_means(m, key, j)
}

/// Whether a text is members of an object, at least one.
pub open spec fn members_read_as(s: Seq<char>, xs: Seq<(Seq<char>, JsonText)>) -> bool {
    exists|ms: Members| #[trigger] are_members(ms) && members_text(ms) == s && members_mean(ms, xs)
}

/// Whether a text is elements of an array, at least one.
pub open spec fn elements_read_as(s: Seq<char>, vs: Seq<JsonText>) -> bool {
    exists|es: Elements| #[trigger]
        are_elements(es) && elements_text(es) == s && elements_mean(es, vs)
}

proof fn lemma_value_reads(v: Written, j: JsonText)
    requires
        is_written(v),
        means(v, j),
    ensures
        reads_as(written_text(v), j),
{
    let none = Seq::<char>::empty();
    let e = Element { before: none, value: v, after: none };
    assert(none + written_text(v) + none == written_text(v));
    assert(is_element(e));
    assert(element_text(e) == written_text(v));
    assert(element_means(e, j));
}

proof fn lemma_space_append(a: Seq<char>, b: Seq<char>)
    requires
        all_json_space(a),
        all_json_space(b),
    ensures
        all_json_space(a + b),
{
    assert forall|i: int| 0 <= i < (a + b).len() implies is_json_space(#[trigger] (a + b)[i]) by {
        if i < a.len() {
            assert((a + b)[i] == a[i]);
        } else {
            assert((a + b)[i] == b[i - a.len()]);
        }
    }
}

proof fn lemma_inside_value(inside: Seq<char>) -> (text: Seq<char>)
    ensures
        inside_means(inside, text),
{
    match read_chars(inside + seq!['"']) {
        Some((read, _)) => read,
        None => inside,
    }
}

proof fn lemma_value(v: Written) -> (j: JsonText)
    ensures
        means(v, j),
    decreases v,
{
    match v {
        Written::True => JsonText::Bool(true),
        Written::False => JsonText::Bool(false),
        Written::Null => JsonText::Null,
        Written::Number(n) => JsonText::Number(numeral_text(n)),
        Written::Text(inside) => {
            let text = lemma_inside_value(inside);
            JsonText::Text(text)
        },
        Written::EmptyList(_) => JsonText::List(Seq::empty()),
        Written::List(es) => {
            let vs = lemma_elements_value(*es);
            JsonText::List(vs)
        },
        Written::EmptyObject(_) => JsonText::Object(Seq::empty()),
        Written::Object(ms) => {
            let xs = lemma_members_value(*ms);
            JsonText::Object(xs)
        },
    }
}

proof fn lemma_elements_value(es: Elements) -> (vs: Seq<JsonText>)
    ensures
        elements_mean(es, vs),
        vs.len() > 0,
    decreases es,
{
    match es {
        Elements::One(e) => {
            let first = lemma_element_value(*e);
            seq![first]
        },
        Elements::More(e, rest) => {
            let vs = lemma_elements_value(*rest);
            let first = lemma_element_value(*e);
            let all = seq![first] + vs;
            assert(all.skip(1) == vs);
            all
        },
    }
}

proof fn lemma_element_value(e: Element) -> (j: JsonText)
    ensures
        element_means(e, j),
    decreases e,
{
    lemma_value(e.value)
}

proof fn lemma_member_value(m: Member) -> (x: (Seq<char>, JsonText))
    ensures
        member_means(m, x.0, x.1),
    decreases m,
{
    let key = lemma_inside_value(m.key);
    let j = lemma_element_value(m.value);
    (key, j)
}

proof fn lemma_members_value(ms: Members) -> (xs: Seq<(Seq<char>, JsonText)>)
    ensures
        members_mean(ms, xs),
        xs.len() > 0,
    decreases ms,
{
    match ms {
        Members::One(m) => {
            let first = lemma_member_value(*m);
            seq![first]
        },
        Members::More(m, rest) => {
            let xs = lemma_members_value(*rest);
            let first = lemma_member_value(*m);
            let all = seq![first] + xs;
            assert(all.skip(1) == xs);
            all
        },
    }
}

/// A JSON document is a text that stands for something.
pub proof fn law_json_is_readable(s: Seq<char>)
    ensures
        is_json(s) <==> exists|j: JsonText| reads_as(s, j),
{
    if is_json(s) {
        let e = choose|e: Element| is_element(e) && element_text(e) == s;
        let j = lemma_element_value(e);
        assert(reads_as(s, j));
    }
}

/// White space around a document does not change what it says.
pub proof fn lemma_spaced(before: Seq<char>, s: Seq<char>, after: Seq<char>, j: JsonText)
    requires
        all_json_space(before),
        all_json_space(after),
        reads_as(s, j),
    ensures
        reads_as(before + s + after, j),
{
    let e = choose|e: Element| #[trigger]
        is_element(e) && element_text(e) == s && element_means(e, j);
    let wide = Element { before: before + e.before, value: e.value, after: e.after + after };
    lemma_space_append(before, e.before);
    lemma_space_append(e.after, after);
    assert(is_element(wide));
    assert(element_text(wide) == before + s + after);
    assert(element_means(wide, j));
}

proof fn lemma_inside_append(a: Seq<char>, b: Seq<char>)
    requires
        is_inside(a),
        is_inside(b),
    ensures
        is_inside(a + b),
    decreases a.len(),
{
    if a.len() == 0 {
        assert(a + b == b);
    } else if a[0] == '\\' {
        lemma_inside_append(a.skip(2), b);
        assert((a + b).skip(2) == a.skip(2) + b);
        if !is_escape(a[1]) {
            assert((a + b)[5] == a[5]);
        }
    } else {
        lemma_inside_append(a.skip(1), b);
        assert((a + b).skip(1) == a.skip(1) + b);
    }
}

proof fn lemma_json_char_inside(c: char)
    ensures
        is_inside(json_char(c)),
{
    let s = json_char(c);
    reveal_with_fuel(is_inside, 6);
    if s[0] == '\\' && s.len() == 6 {
        lemma_hex(c as int / 16);
        lemma_hex(c as int % 16);
        assert(hex_value('0') is Some);
        let d = s.skip(2);
        assert(d[0] == '0' && d.skip(1)[0] == '0');
        assert(d.skip(1).skip(1)[0] == hex_char(c as int / 16));
        assert(d.skip(1).skip(1).skip(1)[0] == hex_char(c as int % 16));
        assert(d.skip(1).skip(1).skip(1).skip(1).len() == 0);
    } else if s[0] == '\\' {
        assert(s.skip(2).len() == 0);
    } else {
        assert(s.skip(1).len() == 0);
    }
}

proof fn lemma_json_chars_inside(s: Seq<char>)
    ensures
        is_inside(json_chars(s)),
        inside_means(json_chars(s), s),
    decreases s.len(),
{
    let none = Seq::<char>::empty();
    if s.len() > 0 {
        lemma_json_chars_front(s);
        lemma_json_chars_inside(s.skip(1));
        lemma_json_char_inside(s[0]);
        lemma_inside_append(json_char(s[0]), json_chars(s.skip(1)));
    }
    law_json_string_reads_back(s, none);
    let t = json_string(s) + none;
    assert(t.skip(1) == json_chars(s) + seq!['"']);
    assert(read_json_string(t) == Some((s, none)));
}

/// A JSON string stands for its text.
pub proof fn lemma_text_reads(s: Seq<char>)
    ensures
        reads_as(json_string(s), JsonText::Text(s)),
{
    lemma_json_chars_inside(s);
    let v = Written::Text(json_chars(s));
    lemma_value_reads(v, JsonText::Text(s));
    assert(written_text(v) == json_string(s));
}

proof fn lemma_no_leading_zero(n: nat)
    ensures
        decimal(n).len() > 1 ==> decimal(n)[0] != '0',
        n > 0 ==> decimal(n)[0] != '0',
    decreases n,
{
    if n >= 10 {
        lemma_no_leading_zero(n / 10);
        lemma_decimal_digits(n / 10);
        assert(decimal(n)[0] == decimal(n / 10)[0]);
    }
}

/// A number in decimal stands for its text.
pub proof fn lemma_number_reads(n: int)
    ensures
        reads_as(decimal_int(n), JsonText::Number(decimal_int(n))),
{
    let none = Seq::<char>::empty();
    let size = if n < 0 {
        (-n) as nat
    } else {
        n as nat
    };
    let num = Numeral {
        minus: n < 0,
        whole: decimal(size),
        fraction: none,
        letter: 'e',
        exponent: none,
    };
    lemma_decimal_digits(size);
    lemma_no_leading_zero(size);
    assert(is_numeral(num));
    assert(numeral_text(num) =~= decimal_int(n));
    lemma_value_reads(Written::Number(num), JsonText::Number(decimal_int(n)));
}

proof fn lemma_elements_one(s: Seq<char>, j: JsonText)
    requires
        reads_as(s, j),
    ensures
        elements_read_as(s, seq![j]),
{
    let e = choose|e: Element| #[trigger]
        is_element(e) && element_text(e) == s && element_means(e, j);
    let es = Elements::One(Box::new(e));
    assert(are_elements(es));
    assert(elements_mean(es, seq![j]));
}

proof fn lemma_elements_more(s: Seq<char>, j: JsonText, rest: Seq<char>, vs: Seq<JsonText>)
    requires
        reads_as(s, j),
        elements_read_as(rest, vs),
    ensures
        elements_read_as(s + seq![','] + rest, seq![j] + vs),
{
    let e = choose|e: Element| #[trigger]
        is_element(e) && element_text(e) == s && element_means(e, j);
    let more = choose|es: Elements| #[trigger]
        are_elements(es) && elements_text(es) == rest && elements_mean(es, vs);
    let es = Elements::More(Box::new(e), Box::new(more));
    assert(vs.len() > 0);
    assert((seq![j] + vs).skip(1) == vs);
    assert(are_elements(es));
    assert(elements_mean(es, seq![j] + vs));
}

/// Documents with commas and white space between them are the elements of an
/// array.
proof fn lemma_elements_join(
    lead: Seq<char>,
    parts: Seq<Seq<char>>,
    vs: Seq<JsonText>,
    gap: Seq<char>,
    tail: Seq<char>,
)
    requires
        parts.len() == vs.len(),
        parts.len() > 0,
        all_json_space(lead),
        all_json_space(gap),
        all_json_space(tail),
        forall|i: int| 0 <= i < parts.len() ==> reads_as(#[trigger] parts[i], vs[i]),
    ensures
        elements_read_as(lead + join(parts, seq![','] + gap) + tail, vs),
    decreases parts.len(),
{
    let none = Seq::<char>::empty();
    let sep = seq![','] + gap;
    assert(reads_as(parts[0], vs[0]));
    if parts.len() == 1 {
        lemma_spaced(lead, parts[0], tail, vs[0]);
        lemma_elements_one(lead + parts[0] + tail, vs[0]);
        assert(vs == seq![vs[0]]);
    } else {
        let (ps, ws) = (parts.skip(1), vs.skip(1));
        assert forall|i: int| 0 <= i < ps.len() implies reads_as(#[trigger] ps[i], ws[i]) by {
            assert(reads_as(parts[i + 1], vs[i + 1]));
        }
        lemma_elements_join(gap, ps, ws, gap, tail);
        lemma_spaced(lead, parts[0], none, vs[0]);
        let rest = gap + join(ps, sep) + tail;
        lemma_elements_more(lead + parts[0] + none, vs[0], rest, ws);
        lemma_join_front(parts, sep);
        assert(lead + join(parts, sep) + tail == lead + parts[0] + none + seq![','] + rest);
        assert(vs == seq![vs[0]] + ws);
    }
}

/// Documents with commas and white space between them, in brackets, are an
/// array of what they stand for.
pub proof fn lemma_list_reads(
    parts: Seq<Seq<char>>,
    vs: Seq<JsonText>,
    gap: Seq<char>,
    tail: Seq<char>,
)
    requires
        parts.len() == vs.len(),
        all_json_space(gap),
        all_json_space(tail),
        forall|i: int| 0 <= i < parts.len() ==> reads_as(#[trigger] parts[i], vs[i]),
    ensures
        reads_as(
            seq!['['] + join(parts, seq![','] + gap) + tail + seq![']'],
            JsonText::List(vs),
        ),
{
    let none = Seq::<char>::empty();
    let inner = join(parts, seq![','] + gap) + tail;
    if parts.len() == 0 {
        let v = Written::EmptyList(tail);
        assert(vs == Seq::<JsonText>::empty());
        lemma_value_reads(v, JsonText::List(vs));
        assert(inner == tail);
        assert(written_text(v) == seq!['['] + tail + seq![']']);
    } else {
        lemma_elements_join(none, parts, vs, gap, tail);
        assert(none + join(parts, seq![','] + gap) + tail == inner);
        let es = choose|es: Elements| #[trigger]
            are_elements(es) && elements_text(es) == inner && elements_mean(es, vs);
        let v = Written::List(Box::new(es));
        lemma_value_reads(v, JsonText::List(vs));
        assert(written_text(v) == seq!['['] + inner + seq![']']);
    }
    assert(seq!['['] + join(parts, seq![','] + gap) + tail + seq![']'] == seq!['['] + inner + seq![
        ']',
    ]);
}

/// White space, a key as a JSON string, a colon and a document are a member.
pub proof fn lemma_member_reads(before: Seq<char>, key: Seq<char>, s: Seq<char>, j: JsonText)
    requires
        all_json_space(before),
        reads_as(s, j),
    ensures
        member_reads_as(before + json_string(key) + seq![':'] + s, key, j),
{
    lemma_json_chars_inside(key);
    let e = choose|e: Element| #[trigger]
        is_element(e) && element_text(e) == s && element_means(e, j);
    let m = Member { before, key: json_chars(key), after: Seq::empty(), value: e };
    assert(is_member(m));
    assert(member_json(m) == before + json_string(key) + seq![':'] + s);
    assert(member_means(m, key, j));
}

/// White space around a member does not change what it says.
pub proof fn lemma_member_spaced(
    before: Seq<char>,
    s: Seq<char>,
    after: Seq<char>,
    key: Seq<char>,
    j: JsonText,
)
    requires
        all_json_space(before),
        all_json_space(after),
        member_reads_as(s, key, j),
    ensures
        member_reads_as(before + s + after, key, j),
{
    let m = choose|m: Member| #[trigger]
        is_member(m) && member_json(m) == s && member_means(m, key, j);
    let value = Element {
        before: m.value.before,
        value: m.value.value,
        after: m.value.after + after,
    };
    let wide = Member { before: before + m.before, key: m.key, after: m.after, value };
    lemma_space_append(before, m.before);
    lemma_space_append(m.value.after, after);
    assert(is_element(value));
    assert(is_member(wide));
    assert(element_text(value) == element_text(m.value) + after);
    assert(member_json(wide) == before + s + after);
    assert(element_means(value, j));
    assert(member_means(wide, key, j));
}

/// One member is the members of an object.
pub proof fn lemma_members_one(s: Seq<char>, key: Seq<char>, j: JsonText)
    requires
        member_reads_as(s, key, j),
    ensures
        members_read_as(s, seq![(key, j)]),
{
    let m = choose|m: Member| #[trigger]
        is_member(m) && member_json(m) == s && member_means(m, key, j);
    let ms = Members::One(Box::new(m));
    assert(are_members(ms));
    assert(members_mean(ms, seq![(key, j)]));
}

/// A member, a comma and further members are the members of an object.
pub proof fn lemma_members_more(
    s: Seq<char>,
    key: Seq<char>,
    j: JsonText,
    rest: Seq<char>,
    xs: Seq<(Seq<char>, JsonText)>,
)
    requires
        member_reads_as(s, key, j),
        members_read_as(rest, xs),
    ensures
        members_read_as(s + seq![','] + rest, seq![(key, j)] + xs),
{
    let m = choose|m: Member| #[trigger]
        is_member(m) && member_json(m) == s && member_means(m, key, j);
    let more = choose|ms: Members| #[trigger]
        are_members(ms) && members_text(ms) == rest && members_mean(ms, xs);
    let ms = Members::More(Box::new(m), Box::new(more));
    assert(xs.len() > 0);
    assert((seq![(key, j)] + xs).skip(1) == xs);
    assert(are_members(ms));
    assert(members_mean(ms, seq![(key, j)] + xs));
}

/// Members in braces are an object.
pub proof fn lemma_object_reads(s: Seq<char>, xs: Seq<(Seq<char>, JsonText)>)
    requires
        members_read_as(s, xs),
    ensures
        reads_as(seq!['{'] + s + seq!['}'], JsonText::Object(xs)),
{
    let ms = choose|ms: Members| #[trigger]
        are_members(ms) && members_text(ms) == s && members_mean(ms, xs);
    let v = Written::Object(Box::new(ms));
    lemma_value_reads(v, JsonText::Object(xs));
    assert(written_text(v) == seq!['{'] + s + seq!['}']);
}

proof fn lemma_members_join(
    lead: Seq<char>,
    parts: Seq<Seq<char>>,
    xs: Seq<(Seq<char>, JsonText)>,
    gap: Seq<char>,
)
    requires
        parts.len() == xs.len(),
        parts.len() > 0,
        all_json_space(lead),
        all_json_space(gap),
        forall|i: int|
            0 <= i < parts.len() ==> member_reads_as(#[trigger] parts[i], xs[i].0, xs[i].1),
    ensures
        members_read_as(lead + join(parts, seq![','] + gap), xs),
    decreases parts.len(),
{
    let none = Seq::<char>::empty();
    let sep = seq![','] + gap;
    assert(member_reads_as(parts[0], xs[0].0, xs[0].1));
    lemma_member_spaced(lead, parts[0], none, xs[0].0, xs[0].1);
    assert(lead + parts[0] + none == lead + parts[0]);
    if parts.len() == 1 {
        lemma_members_one(lead + parts[0], xs[0].0, xs[0].1);
        assert(xs == seq![(xs[0].0, xs[0].1)]);
    } else {
        let (ps, ys) = (parts.skip(1), xs.skip(1));
        assert forall|i: int| 0 <= i < ps.len() implies member_reads_as(
            #[trigger] ps[i],
            ys[i].0,
            ys[i].1,
        ) by {
            assert(member_reads_as(parts[i + 1], xs[i + 1].0, xs[i + 1].1));
        }
        lemma_members_join(gap, ps, ys, gap);
        let rest = gap + join(ps, sep);
        lemma_members_more(lead + parts[0], xs[0].0, xs[0].1, rest, ys);
        lemma_join_front(parts, sep);
        assert(lead + join(parts, sep) == lead + parts[0] + seq![','] + rest);
        assert(xs == seq![(xs[0].0, xs[0].1)] + ys);
    }
}

/// Members with commas and white space between them, in braces, are an object.
pub proof fn lemma_joined_object_reads(
    parts: Seq<Seq<char>>,
    xs: Seq<(Seq<char>, JsonText)>,
    gap: Seq<char>,
)
    requires
        parts.len() == xs.len(),
        all_json_space(gap),
        forall|i: int|
            0 <= i < parts.len() ==> member_reads_as(#[trigger] parts[i], xs[i].0, xs[i].1),
    ensures
        reads_as(
            seq!['{'] + join(parts, seq![','] + gap) + seq!['}'],
            JsonText::Object(xs),
        ),
{
    let none = Seq::<char>::empty();
    let inner = join(parts, seq![','] + gap);
    if parts.len() == 0 {
        let v = Written::EmptyObject(none);
        assert(xs == Seq::<(Seq<char>, JsonText)>::empty());
        lemma_value_reads(v, JsonText::Object(xs));
        assert(written_text(v) == seq!['{'] + inner + seq!['}']);
    } else {
        lemma_members_join(none, parts, xs, gap);
        assert(none + inner == inner);
        lemma_object_reads(inner, xs);
    }
}

} // verus!
