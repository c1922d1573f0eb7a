//! The grammar of JSON. Plain JSON passes the removal of comments and trailing
//! commas unchanged.

use crate::jsonc::{
    comment_free, law_plain_json_is_kept, opens_trailing_comma, plain_json, skip_space,
    trailing_comma_free,
};
use crate::jsonout::hex_value;
use crate::text::{all_digits, is_ascii_space, is_digit};
use vstd::prelude::*;

verus! {

/// A JSON value as it is written.
pub enum Written {
    True,
    False,
    Null,
    Number(Numeral),
    /// The inside of a string literal.
    Text(Seq<char>),
    /// An array without elements, with the white space in its brackets.
    EmptyList(Seq<char>),
    List(Box<Elements>),
    /// An object without members, with the white space in its braces.
    EmptyObject(Seq<char>),
    Object(Box<Members>),
}

/// A number as it is written. A fraction or an exponent that is missing is
/// empty; the sign of an exponent belongs to it, the letter in front of it does
/// not.
pub struct Numeral {
    pub minus: bool,
    pub whole: Seq<char>,
    pub fraction: Seq<char>,
    pub letter: char,
    pub exponent: Seq<char>,
}

/// A value with the white space around it.
pub struct Element {
    pub before: Seq<char>,
    pub value: Written,
    pub after: Seq<char>,
}

/// The elements of an array, at least one.
pub enum Elements {
    One(Box<Element>),
    More(Box<Element>, Box<Elements>),
}

/// A member of an object: the inside of its key and the white space around the
/// key, and its value.
pub struct Member {
    pub before: Seq<char>,
    pub key: Seq<char>,
    pub after: Seq<char>,
    pub value: Element,
}

/// The members of an object, at least one.
pub enum Members {
    One(Box<Member>),
    More(Box<Member>, Box<Members>),
}

/// The white space of JSON.
pub open spec fn is_json_space(c: char) -> bool {
    c == ' ' || c == '\t' || c == '\n' || c == '\r'
}

pub open spec fn all_json_space(s: Seq<char>) -> bool {
    forall|i: int| 0 <= i < s.len() ==> is_json_space(#[trigger] s[i])
}

/// Whether a text can stand inside a string literal: characters from the blank
/// on but quotes and backslashes, and escape sequences.
pub open spec fn is_inside(s: Seq<char>) -> bool
    decreases s.len(),
{
    if s.len() == 0 {
        true
    } else if s[0] == '\\' {
        s.len() >= 2 && (is_escape(s[1]) || (s[1] == 'u' && s.len() >= 6 && hex_value(s[2]) is Some
            && hex_value(s[3]) is Some && hex_value(s[4]) is Some && hex_value(s[5]) is Some))
            && is_inside(s.skip(2))
    } else {
        s[0] != '"' && s[0] as u32 >= 0x20 && is_inside(s.skip(1))
    }
}

/// The characters that make up an escape sequence with a backslash alone.
pub open spec fn is_escape(c: char) -> bool {
    c == '"' || c == '\\' || c == '/' || c == 'b' || c == 'f' || c == 'n' || c == 'r' || c == 't'
}

/// Whether a number is written as JSON has it: no leading zeros, and digits
/// behind the point and in the exponent.
pub open spec fn is_numeral(n: Numeral) -> bool {
    &&& n.whole.len() > 0 && all_digits(n.whole)
    &&& n.whole.len() > 1 ==> n.whole[0] != '0'
    &&& all_digits(n.fraction)
    &&& n.letter == 'e' || n.letter == 'E'
    &&& n.exponent.len() > 0 ==> {
        let digits = if n.exponent[0] == '+' || n.exponent[0] == '-' {
            n.exponent.skip(1)
        } else {
            n.exponent
        };
        digits.len() > 0 && all_digits(digits)
    }
}

pub open spec fn numeral_text(n: Numeral) -> Seq<char> {
    let minus = if n.minus {
        seq!['-']
    } else {
        Seq::empty()
    };
    let fraction = if n.fraction.len() > 0 {
        seq!['.'] + n.fraction
    } else {
        Seq::empty()
    };
    let exponent = if n.exponent.len() > 0 {
        seq![n.letter] + n.exponent
    } else {
        Seq::empty()
    };
    minus + n.whole + fraction + exponent
}

pub open spec fn is_written(v: Written) -> bool
    decreases v,
{
    match v {
        Written::Number(n) => is_numeral(n),
        Written::Text(inside) => is_inside(inside),
        Written::EmptyList(space) => all_json_space(space),
        Written::List(es) => are_elements(*es),
        Written::EmptyObject(space) => all_json_space(space),
        Written::Object(ms) => are_members(*ms),
        _ => true,
    }
}

pub open spec fn is_element(e: Element) -> bool
    decreases e,
{
    all_json_space(e.before) && is_written(e.value) && all_json_space(e.after)
}

pub open spec fn are_elements(es: Elements) -> bool
    decreases es,
{
    match es {
        Elements::One(e) => is_element(*e),
        Elements::More(e, rest) => is_element(*e) && are_elements(*rest),
    }
}

pub open spec fn is_member(m: Member) -> bool
    decreases m,
{
    all_json_space(m.before) && is_inside(m.key) && all_json_space(m.after) && is_element(m.value)
}

pub open spec fn are_members(ms: Members) -> bool
    decreases ms,
{
    match ms {
        Members::One(m) => is_member(*m),
        Members::More(m, rest) => is_member(*m) && are_members(*rest),
    }
}

/// The text of a value.
pub open spec fn written_text(v: Written) -> Seq<char>
    decreases v,
{
    match v {
        Written::True => "true"@,
        Written::False => "false"@,
        Written::Null => "null"@,
        Written::Number(n) => numeral_text(n),
        Written::Text(inside) => quoted(inside),
        Written::EmptyList(space) => seq!['['] + space + seq![']'],
        Written::List(es) => seq!['['] + elements_text(*es) + seq![']'],
        Written::EmptyObject(space) => seq!['{'] + space + seq!['}'],
        Written::Object(ms) => seq!['{'] + members_text(*ms) + seq!['}'],
    }
}

pub open spec fn quoted(inside: Seq<char>) -> Seq<char> {
    seq!['"'] + inside + seq!['"']
}

pub open spec fn element_text(e: Element) -> Seq<char>
    decreases e,
{
    e.before + written_text(e.value) + e.after
}

pub open spec fn elements_text(es: Elements) -> Seq<char>
    decreases es,
{
    match es {
        Elements::One(e) => element_text(*e),
        Elements::More(e, rest) => element_text(*e) + seq![','] + elements_text(*rest),
    }
}

pub open spec fn member_json(m: Member) -> Seq<char>
    decreases m,
{
    m.before + quoted(m.key) + m.after + seq![':'] + element_text(m.value)
}

pub open spec fn members_text(ms: Members) -> Seq<char>
    decreases ms,
{
    match ms {
        Members::One(m) => member_json(*m),
        Members::More(m, rest) => member_json(*m) + seq![','] + members_text(*rest),
    }
}

/// Whether a text is a JSON document: one value with white space around it.
pub open spec fn is_json(s: Seq<char>) -> bool {
    exists|e: Element| #[trigger] is_element(e) && element_text(e) == s
}

/// Neither comments nor trailing commas outside string literals.
spec fn is_clean(s: Seq<char>, in_str: bool) -> bool {
    comment_free(s, in_str) && trailing_comma_free(s, in_str)
}

/// A character that neither opens a string literal or a comment nor is a comma.
spec fn is_plain(c: char) -> bool {
    c != '"' && c != '/' && c != ','
}

proof fn lemma_plain(a: Seq<char>, rest: Seq<char>)
    requires
        forall|i: int| 0 <= i < a.len() ==> is_plain(#[trigger] a[i]),
        is_clean(rest, false),
    ensures
        is_clean(a + rest, false),
    decreases a.len(),
{
    if a.len() == 0 {
        assert(a + rest == rest);
    } else {
        let tail = a.skip(1);
        assert forall|i: int| 0 <= i < tail.len() implies is_plain(#[trigger] tail[i]) by {
            assert(is_plain(a[i + 1]));
        }
        lemma_plain(tail, rest);
        assert((a + rest).skip(1) == tail + rest);
        assert(is_plain(a[0]));
    }
}

proof fn lemma_space(space: Seq<char>, rest: Seq<char>)
    requires
        all_json_space(space),
        is_clean(rest, false),
    ensures
        is_clean(space + rest, false),
{
    assert forall|i: int| 0 <= i < space.len() implies is_plain(#[trigger] space[i]) by {
        assert(is_json_space(space[i]));
    }
    lemma_plain(space, rest);
}

proof fn lemma_inside(inside: Seq<char>, rest: Seq<char>)
    requires
        is_inside(inside),
        is_clean(rest, false),
    ensures
        is_clean(inside + seq!['"'] + rest, true),
    decreases inside.len(),
{
    let s = inside + seq!['"'] + rest;
    if inside.len() == 0 {
        assert(s.skip(1) == rest);
    } else if inside[0] == '\\' {
        lemma_inside(inside.skip(2), rest);
        assert(s.skip(2) == inside.skip(2) + seq!['"'] + rest);
    } else {
        lemma_inside(inside.skip(1), rest);
        assert(s.skip(1) == inside.skip(1) + seq!['"'] + rest);
    }
}

proof fn lemma_quoted(inside: Seq<char>, rest: Seq<char>)
    requires
        is_inside(inside),
        is_clean(rest, false),
    ensures
        is_clean(quoted(inside) + rest, false),
{
    lemma_inside(inside, rest);
    let s = quoted(inside) + rest;
    assert(s.skip(1) == inside + seq!['"'] + rest);
}

proof fn lemma_numeral(n: Numeral, rest: Seq<char>)
    requires
        is_numeral(n),
        is_clean(rest, false),
    ensures
        is_clean(numeral_text(n) + rest, false),
        numeral_text(n).len() > 0,
        is_digit(numeral_text(n)[0]) || numeral_text(n)[0] == '-',
{
    let s = numeral_text(n);
    let head: int = if n.minus { 1 } else { 0 };
    let w = n.whole.len() as int;
    let f: int = if n.fraction.len() > 0 { n.fraction.len() as int + 1 } else { 0 };
    assert(is_digit(n.whole[0]));
    assert forall|i: int| 0 <= i < s.len() implies is_plain(#[trigger] s[i]) by {
        if i < head {
        } else if i < head + w {
            assert(s[i] == n.whole[i - head]);
        } else if i < head + w + f {
            if i > head + w {
                assert(s[i] == n.fraction[i - head - w - 1]);
            }
        } else if i > head + w + f {
            let k = i - head - w - f - 1;
            assert(s[i] == n.exponent[k]);
            if n.exponent[0] == '+' || n.exponent[0] == '-' {
                if k > 0 {
                    assert(n.exponent.skip(1)[k - 1] == n.exponent[k]);
                }
            }
        }
    }
    lemma_plain(s, rest);
}

/// The characters with which a value begins.
spec fn begins_value(c: char) -> bool {
    is_digit(c) || c == '-' || c == '"' || c == '[' || c == '{' || c == 't' || c == 'f' || c == 'n'
}

/// White space is skipped up to the character behind it.
proof fn lemma_skip_space(space: Seq<char>, rest: Seq<char>)
    requires
        all_json_space(space),
        rest.len() > 0,
        begins_value(rest[0]),
    ensures
        skip_space(space + rest) == rest,
    decreases space.len(),
{
    if space.len() == 0 {
        assert(space + rest == rest);
        assert(!is_ascii_space(rest[0]));
    } else {
        let tail = space.skip(1);
        assert(is_json_space(space[0]));
        assert forall|i: int| 0 <= i < tail.len() implies is_json_space(#[trigger] tail[i]) by {
            assert(is_json_space(space[i + 1]));
        }
        lemma_skip_space(tail, rest);
        assert((space + rest).skip(1) == tail + rest);
        assert((space + rest)[0] == space[0]);
    }
}

/// A comma in front of something that begins a value is no trailing comma.
proof fn lemma_comma(next: Seq<char>)
    requires
        is_clean(next, false),
        skip_space(next).len() > 0,
        begins_value(skip_space(next)[0]),
    ensures
        is_clean(seq![','] + next, false),
{
    let s = seq![','] + next;
    assert(s.skip(1) == next);
    assert(!opens_trailing_comma(s));
}

proof fn lemma_written(v: Written, rest: Seq<char>)
    requires
        is_written(v),
        is_clean(rest, false),
    ensures
        is_clean(written_text(v) + rest, false),
        written_text(v).len() > 0,
        begins_value(written_text(v)[0]),
    decreases v,
{
    let s = written_text(v) + rest;
    match v {
        Written::True => {
            reveal_strlit("true");
            lemma_plain("true"@, rest);
        },
        Written::False => {
            reveal_strlit("false");
            lemma_plain("false"@, rest);
        },
        Written::Null => {
            reveal_strlit("null");
            lemma_plain("null"@, rest);
        },
        Written::Number(n) => {
            lemma_numeral(n, rest);
        },
        Written::Text(inside) => {
            lemma_quoted(inside, rest);
        },
        Written::EmptyList(space) => {
            lemma_plain(seq![']'], rest);
            lemma_space(space, seq![']'] + rest);
            lemma_plain(seq!['['], space + (seq![']'] + rest));
            assert(s == seq!['['] + (space + (seq![']'] + rest)));
        },
        Written::List(es) => {
            lemma_plain(seq![']'], rest);
            lemma_elements(*es, seq![']'] + rest);
            lemma_plain(seq!['['], elements_text(*es) + (seq![']'] + rest));
            assert(s == seq!['['] + (elements_text(*es) + (seq![']'] + rest)));
        },
        Written::EmptyObject(space) => {
            lemma_plain(seq!['}'], rest);
            lemma_space(space, seq!['}'] + rest);
            lemma_plain(seq!['{'], space + (seq!['}'] + rest));
            assert(s == seq!['{'] + (space + (seq!['}'] + rest)));
        },
        Written::Object(ms) => {
            lemma_plain(seq!['}'], rest);
            lemma_members(*ms, seq!['}'] + rest);
            lemma_plain(seq!['{'], members_text(*ms) + (seq!['}'] + rest));
            assert(s == seq!['{'] + (members_text(*ms) + (seq!['}'] + rest)));
        },
    }
}

proof fn lemma_element(e: Element, rest: Seq<char>)
    requires
        is_element(e),
        is_clean(rest, false),
    ensures
        is_clean(element_text(e) + rest, false),
        skip_space(element_text(e) + rest).len() > 0,
        begins_value(skip_space(element_text(e) + rest)[0]),
    decreases e,
{
    lemma_space(e.after, rest);
    lemma_written(e.value, e.after + rest);
    let value = written_text(e.value) + (e.after + rest);
    lemma_space(e.before, value);
    lemma_skip_space(e.before, value);
    assert(element_text(e) + rest == e.before + value);
}

proof fn lemma_elements(es: Elements, rest: Seq<char>)
    requires
        are_elements(es),
        is_clean(rest, false),
    ensures
        is_clean(elements_text(es) + rest, false),
        skip_space(elements_text(es) + rest).len() > 0,
        begins_value(skip_space(elements_text(es) + rest)[0]),
    decreases es,
{
    match es {
        Elements::One(e) => {
            lemma_element(*e, rest);
        },
        Elements::More(e, more) => {
            lemma_elements(*more, rest);
            let next = elements_text(*more) + rest;
            lemma_comma(next);
            lemma_element(*e, seq![','] + next);
            assert(elements_text(es) + rest == element_text(*e) + (seq![','] + next));
        },
    }
}

proof fn lemma_member(m: Member, rest: Seq<char>)
    requires
        is_member(m),
        is_clean(rest, false),
    ensures
        is_clean(member_json(m) + rest, false),
        skip_space(member_json(m) + rest).len() > 0,
        begins_value(skip_space(member_json(m) + rest)[0]),
    decreases m,
{
    lemma_element(m.value, rest);
    let value = element_text(m.value) + rest;
    lemma_plain(seq![':'], value);
    let colon = seq![':'] + value;
    lemma_space(m.after, colon);
    lemma_quoted(m.key, m.after + colon);
    let key = quoted(m.key) + (m.after + colon);
    lemma_space(m.before, key);
    lemma_skip_space(m.before, key);
    assert(member_json(m) + rest == m.before + key);
}

proof fn lemma_members(ms: Members, rest: Seq<char>)
    requires
        are_members(ms),
        is_clean(rest, false),
    ensures
        is_clean(members_text(ms) + rest, false),
        skip_space(members_text(ms) + rest).len() > 0,
        begins_value(skip_space(members_text(ms) + rest)[0]),
    decreases ms,
{
    match ms {
        Members::One(m) => {
            lemma_member(*m, rest);
        },
        Members::More(m, more) => {
            lemma_members(*more, rest);
            let next = members_text(*more) + rest;
            lemma_comma(next);
            lemma_member(*m, seq![','] + next);
            assert(members_text(ms) + rest == member_json(*m) + (seq![','] + next));
        },
    }
}

/// A JSON document comes through the removal of comments and trailing commas
/// unchanged.
pub proof fn law_json_documents_are_kept(s: Seq<char>)
    requires
        is_json(s),
    ensures
        plain_json(s) == s,
{
    let e = choose|e: Element| #[trigger] is_element(e) && element_text(e) == s;
    let end = Seq::<char>::empty();
    lemma_element(e, end);
    assert(element_text(e) + end == s);
    law_plain_json_is_kept(s);
}

/// Where removing comments and trailing commas gives a JSON document, removing
/// them again changes nothing.
pub proof fn law_stripping_is_idempotent(s: Seq<char>)
    requires
        is_json(plain_json(s)),
    ensures
        plain_json(plain_json(s)) == plain_json(s),
{
    law_json_documents_are_kept(plain_json(s));
}

} // verus!
