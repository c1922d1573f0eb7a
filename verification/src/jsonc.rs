//! JSON with comments: a links file that is edited by hand may carry `//` and
//! `/* ... */` comments and trailing commas. Both are removed before it is
//! parsed; string literals are left alone. Comments go first, so that a comment
//! between a comma and its closing bracket still leaves a comma to drop.

use crate::text::{chars_of, first_index, is_ascii_space, lemma_first_index, lemma_first_index_is};
use vstd::prelude::*;

verus! {

/// What follows a line comment: the line ending and the rest.
pub open spec fn after_line(s: Seq<char>) -> Seq<char> {
    s.skip(first_index(s, '\n'))
}

/// What follows the first `*/`; nothing where there is none.
pub open spec fn after_block(s: Seq<char>) -> Seq<char>
    decreases s.len(),
{
    if s.len() < 2 {
        Seq::empty()
    } else if s[0] == '*' && s[1] == '/' {
        s.skip(2)
    } else {
        after_block(s.skip(1))
    }
}

/// What follows a comment is no longer than what follows its mark.
pub proof fn lemma_after_shorter(s: Seq<char>)
    ensures
        after_line(s).len() <= s.len(),
        after_block(s).len() <= s.len(),
    decreases s.len(),
{
    lemma_first_index(s, '\n');
    if s.len() > 0 {
        lemma_after_shorter(s.skip(1));
    }
}

pub open spec fn opens_line_comment(s: Seq<char>) -> bool {
    s.len() >= 2 && s[0] == '/' && s[1] == '/'
}

pub open spec fn opens_block_comment(s: Seq<char>) -> bool {
    s.len() >= 2 && s[0] == '/' && s[1] == '*'
}

/// The text without its comments; `in_str` says whether it begins inside a
/// string literal.
pub open spec fn uncommented(s: Seq<char>, in_str: bool) -> Seq<char>
    decreases s.len(),
{
    if s.len() == 0 {
        s
    } else if in_str {
        if s[0] == '\\' && s.len() >= 2 {
            seq![s[0], s[1]] + uncommented(s.skip(2), true)
        } else {
            seq![s[0]] + uncommented(s.skip(1), s[0] != '"')
        }
    } else if opens_line_comment(s) {
        proof {
            lemma_after_shorter(s.skip(2));
        }
        uncommented(after_line(s.skip(2)), false)
    } else if opens_block_comment(s) {
        proof {
            lemma_after_shorter(s.skip(2));
        }
        uncommented(after_block(s.skip(2)), false)
    } else {
        seq![s[0]] + uncommented(s.skip(1), s[0] == '"')
    }
}

pub open spec fn skip_space(s: Seq<char>) -> Seq<char>
    decreases s.len(),
{
    if s.len() > 0 && is_ascii_space(s[0]) {
        skip_space(s.skip(1))
    } else {
        s
    }
}

/// Whether the text begins with a comma that only white space parts from a
/// closing bracket.
pub open spec fn opens_trailing_comma(s: Seq<char>) -> bool {
    s.len() > 0 && s[0] == ',' && {
        let rest = skip_space(s.skip(1));
        rest.len() > 0 && (rest[0] == ']' || rest[0] == '}')
    }
}

/// The text without its trailing commas.
pub open spec fn uncomma(s: Seq<char>, in_str: bool) -> Seq<char>
    decreases s.len(),
{
    if s.len() == 0 {
        s
    } else if in_str {
        if s[0] == '\\' && s.len() >= 2 {
            seq![s[0], s[1]] + uncomma(s.skip(2), true)
        } else {
            seq![s[0]] + uncomma(s.skip(1), s[0] != '"')
        }
    } else if opens_trailing_comma(s) {
        uncomma(s.skip(1), false)
    } else {
        seq![s[0]] + uncomma(s.skip(1), s[0] == '"')
    }
}

/// A text as plain JSON: without comments, then without trailing commas.
pub open spec fn plain_json(s: Seq<char>) -> Seq<char> {
    uncomma(uncommented(s, false), false)
}

fn end_of_block(b: &Vec<char>, from: usize) -> (r: usize)
    requires
        from <= b@.len(),
    ensures
        from <= r <= b@.len(),
        b@.skip(r as int) == after_block(b@.skip(from as int)),
{
    let mut i: usize = from;
    let n: usize = b.len();
    while i < n && n - i >= 2 && !(b[i] == '*' && b[i + 1] == '/')
        invariant
            from <= i <= n,
            n == b@.len(),
            after_block(b@.skip(from as int)) == after_block(b@.skip(i as int)),
        decreases n - i,
    {
        assert(b@.skip(i as int).skip(1) == b@.skip(i + 1));
        i += 1;
    }
    let ghost rest = b@.skip(i as int);
    if n - i >= 2 {
        assert(rest.skip(2) == b@.skip(i + 2));
        i + 2
    } else {
        assert(b@.skip(n as int) == Seq::<char>::empty());
        n
    }
}

fn end_of_line(b: &Vec<char>, from: usize) -> (r: usize)
    requires
        from <= b@.len(),
    ensures
        from <= r <= b@.len(),
        b@.skip(r as int) == after_line(b@.skip(from as int)),
{
    let mut i: usize = from;
    while i < b.len() && b[i] != '\n'
        invariant
            from <= i <= b@.len(),
            forall|k: int| from <= k < i ==> b@[k] != '\n',
        decreases b@.len() - i,
    {
        i += 1;
    }
    proof {
        let rest = b@.skip(from as int);
        lemma_first_index_is(rest, '\n', i - from);
        assert(rest.skip(i - from) == b@.skip(i as int));
    }
    i
}

/// Removes `//` and `/* ... */` comments outside string literals. The line
/// ending behind a `//` comment stays; a block comment that is not closed runs
/// to the end.
pub fn strip_comments(src: &str) -> (r: String)
    ensures
        r@ == uncommented(src@, false),
{
    let b = chars_of(src);
    let n: usize = b.len();
    let mut out = String::new();
    let mut i: usize = 0;
    let mut in_str: bool = false;
    assert(b@.skip(0) == b@);
    while i < n
        invariant
            b@ == src@,
            n == b@.len(),
            i <= n,
            uncommented(src@, false) == out@ + uncommented(b@.skip(i as int), in_str),
        decreases n - i,
    {
        let c = b[i];
        let ghost rest = b@.skip(i as int);
        let ghost done = out@;
        assert(rest[0] == c);
        assert(rest.skip(1) == b@.skip(i + 1));
        if in_str {
            out.push(c);
            if c == '\\' && n - i >= 2 {
                assert(rest.skip(2) == b@.skip(i + 2));
                out.push(b[i + 1]);
                assert(out@ == done + seq![rest[0], rest[1]]);
                i += 2;
            } else {
                assert(out@ == done + seq![c]);
                in_str = c != '"';
                i += 1;
            }
        } else if c == '/' && n - i >= 2 && b[i + 1] == '/' {
            assert(rest.skip(2) == b@.skip(i + 2));
            i = end_of_line(&b, i + 2);
        } else if c == '/' && n - i >= 2 && b[i + 1] == '*' {
            assert(rest.skip(2) == b@.skip(i + 2));
            i = end_of_block(&b, i + 2);
        } else {
            out.push(c);
            assert(out@ == done + seq![c]);
            in_str = c == '"';
            i += 1;
        }
    }
    assert(out@ + uncommented(b@.skip(i as int), in_str) == out@);
    out
}

fn is_json_space(c: char) -> (r: bool)
    ensures
        r == is_ascii_space(c),
{
    c == ' ' || c == '\t' || c == '\n' || c == '\u{c}' || c == '\r'
}

fn closes_next(b: &Vec<char>, from: usize) -> (r: bool)
    requires
        from <= b@.len(),
    ensures
        r == ({
            let rest = skip_space(b@.skip(from as int));
            rest.len() > 0 && (rest[0] == ']' || rest[0] == '}')
        }),
{
    let mut j: usize = from;
    while j < b.len() && is_json_space(b[j])
        invariant
            from <= j <= b@.len(),
            skip_space(b@.skip(from as int)) == skip_space(b@.skip(j as int)),
        decreases b@.len() - j,
    {
        assert(b@.skip(j as int).skip(1) == b@.skip(j + 1));
        j += 1;
    }
    j < b.len() && (b[j] == ']' || b[j] == '}')
}

/// Removes each comma outside string literals that only white space parts from
/// a closing bracket.
pub fn drop_trailing_commas(src: &str) -> (r: String)
    ensures
        r@ == uncomma(src@, false),
{
    let b = chars_of(src);
    let n: usize = b.len();
    let mut out = String::new();
    let mut i: usize = 0;
    let mut in_str: bool = false;
    assert(b@.skip(0) == b@);
    while i < n
        invariant
            b@ == src@,
            n == b@.len(),
            i <= n,
            uncomma(src@, false) == out@ + uncomma(b@.skip(i as int), in_str),
        decreases n - i,
    {
        let c = b[i];
        let ghost rest = b@.skip(i as int);
        let ghost done = out@;
        assert(rest[0] == c);
        assert(rest.skip(1) == b@.skip(i + 1));
        if in_str {
            out.push(c);
            if c == '\\' && n - i >= 2 {
                assert(rest.skip(2) == b@.skip(i + 2));
                out.push(b[i + 1]);
                assert(out@ == done + seq![rest[0], rest[1]]);
                i += 2;
            } else {
                assert(out@ == done + seq![c]);
                in_str = c != '"';
                i += 1;
            }
        } else if c == ',' && closes_next(&b, i + 1) {
            i += 1;
        } else {
            out.push(c);
            assert(out@ == done + seq![c]);
            in_str = c == '"';
            i += 1;
        }
    }
    assert(out@ + uncomma(b@.skip(i as int), in_str) == out@);
    out
}

/// Turns JSON with comments and trailing commas into plain JSON.
pub fn strip_jsonc(src: &str) -> (r: String)
    ensures
        r@ == plain_json(src@),
{
    let text = strip_comments(src);
    drop_trailing_commas(text.as_str())
}

/// No comment opens outside string literals.
pub open spec fn comment_free(s: Seq<char>, in_str: bool) -> bool
    decreases s.len(),
{
    if s.len() == 0 {
        true
    } else if in_str {
        if s[0] == '\\' && s.len() >= 2 {
            comment_free(s.skip(2), true)
        } else {
            comment_free(s.skip(1), s[0] != '"')
        }
    } else {
        !opens_line_comment(s) && !opens_block_comment(s) && comment_free(s.skip(1), s[0] == '"')
    }
}

/// No trailing comma stands outside string literals.
pub open spec fn trailing_comma_free(s: Seq<char>, in_str: bool) -> bool
    decreases s.len(),
{
    if s.len() == 0 {
        true
    } else if in_str {
        if s[0] == '\\' && s.len() >= 2 {
            trailing_comma_free(s.skip(2), true)
        } else {
            trailing_comma_free(s.skip(1), s[0] != '"')
        }
    } else {
        !opens_trailing_comma(s) && trailing_comma_free(s.skip(1), s[0] == '"')
    }
}

/// The characters of the string literals, quotes included, of a text without
/// comments.
pub open spec fn literals(s: Seq<char>, in_str: bool) -> Seq<char>
    decreases s.len(),
{
    if s.len() == 0 {
        s
    } else if in_str {
        if s[0] == '\\' && s.len() >= 2 {
            seq![s[0], s[1]] + literals(s.skip(2), true)
        } else {
            seq![s[0]] + literals(s.skip(1), s[0] != '"')
        }
    } else if s[0] == '"' {
        seq![s[0]] + literals(s.skip(1), true)
    } else {
        literals(s.skip(1), false)
    }
}

/// As `literals`, of a text with comments: a quote in a comment opens nothing.
pub open spec fn literals_beside_comments(s: Seq<char>, in_str: bool) -> Seq<char>
    decreases s.len(),
{
    if s.len() == 0 {
        s
    } else if in_str {
        if s[0] == '\\' && s.len() >= 2 {
            seq![s[0], s[1]] + literals_beside_comments(s.skip(2), true)
        } else {
            seq![s[0]] + literals_beside_comments(s.skip(1), s[0] != '"')
        }
    } else if opens_line_comment(s) {
        proof {
            lemma_after_shorter(s.skip(2));
        }
        literals_beside_comments(after_line(s.skip(2)), false)
    } else if opens_block_comment(s) {
        proof {
            lemma_after_shorter(s.skip(2));
        }
        literals_beside_comments(after_block(s.skip(2)), false)
    } else if s[0] == '"' {
        seq![s[0]] + literals_beside_comments(s.skip(1), true)
    } else {
        literals_beside_comments(s.skip(1), false)
    }
}

proof fn lemma_uncommented_keeps(s: Seq<char>, in_str: bool)
    requires
        comment_free(s, in_str),
    ensures
        uncommented(s, in_str) == s,
    decreases s.len(),
{
    if s.len() == 0 {
    } else if in_str && s[0] == '\\' && s.len() >= 2 {
        lemma_uncommented_keeps(s.skip(2), true);
        assert(seq![s[0], s[1]] + s.skip(2) == s);
    } else {
        lemma_uncommented_keeps(s.skip(1), if in_str { s[0] != '"' } else { s[0] == '"' });
        assert(seq![s[0]] + s.skip(1) == s);
    }
}

proof fn lemma_uncomma_keeps(s: Seq<char>, in_str: bool)
    requires
        trailing_comma_free(s, in_str),
    ensures
        uncomma(s, in_str) == s,
    decreases s.len(),
{
    if s.len() == 0 {
    } else if in_str && s[0] == '\\' && s.len() >= 2 {
        lemma_uncomma_keeps(s.skip(2), true);
        assert(seq![s[0], s[1]] + s.skip(2) == s);
    } else {
        lemma_uncomma_keeps(s.skip(1), if in_str { s[0] != '"' } else { s[0] == '"' });
        assert(seq![s[0]] + s.skip(1) == s);
    }
}

/// Plain JSON comes through unchanged.
pub proof fn law_plain_json_is_kept(s: Seq<char>)
    requires
        comment_free(s, false),
        trailing_comma_free(s, false),
    ensures
        plain_json(s) == s,
{
    lemma_uncommented_keeps(s, false);
    lemma_uncomma_keeps(s, false);
}

proof fn lemma_uncommented_free(s: Seq<char>, in_str: bool)
    ensures
        comment_free(uncommented(s, in_str), in_str),
    decreases s.len(),
{
    let out = uncommented(s, in_str);
    if s.len() == 0 {
    } else if in_str {
        if s[0] == '\\' && s.len() >= 2 {
            lemma_uncommented_free(s.skip(2), true);
            assert(out.skip(2) == uncommented(s.skip(2), true));
        } else {
            lemma_uncommented_free(s.skip(1), s[0] != '"');
            assert(out.skip(1) == uncommented(s.skip(1), s[0] != '"'));
            if s[0] == '\\' {
                assert(s.skip(1).len() == 0);
            }
        }
    } else if opens_line_comment(s) {
        lemma_after_shorter(s.skip(2));
        lemma_uncommented_free(after_line(s.skip(2)), false);
    } else if opens_block_comment(s) {
        lemma_after_shorter(s.skip(2));
        lemma_uncommented_free(after_block(s.skip(2)), false);
    } else {
        let rest = uncommented(s.skip(1), s[0] == '"');
        lemma_uncommented_free(s.skip(1), s[0] == '"');
        assert(out.skip(1) == rest);
        if s[0] == '/' && rest.len() > 0 {
            assert(s.len() > 1);
            assert(s.skip(1)[0] == s[1]);
            assert(rest[0] == s[1]);
            assert(out[1] == s[1]);
        }
    }
}

/// No comment is left, so stripping comments twice is stripping them once.
pub proof fn law_no_comment_is_left(s: Seq<char>)
    ensures
        comment_free(uncommented(s, false), false),
        uncommented(uncommented(s, false), false) == uncommented(s, false),
{
    lemma_uncommented_free(s, false);
    lemma_uncommented_keeps(uncommented(s, false), false);
}

proof fn lemma_literals_uncommented(s: Seq<char>, in_str: bool)
    ensures
        literals(uncommented(s, in_str), in_str) == literals_beside_comments(s, in_str),
    decreases s.len(),
{
    let out = uncommented(s, in_str);
    if s.len() == 0 {
    } else if in_str {
        if s[0] == '\\' && s.len() >= 2 {
            lemma_literals_uncommented(s.skip(2), true);
            assert(out.skip(2) == uncommented(s.skip(2), true));
        } else {
            lemma_literals_uncommented(s.skip(1), s[0] != '"');
            assert(out.skip(1) == uncommented(s.skip(1), s[0] != '"'));
            if s[0] == '\\' {
                assert(s.skip(1).len() == 0);
            }
        }
    } else if opens_line_comment(s) {
        lemma_after_shorter(s.skip(2));
        lemma_literals_uncommented(after_line(s.skip(2)), false);
    } else if opens_block_comment(s) {
        lemma_after_shorter(s.skip(2));
        lemma_literals_uncommented(after_block(s.skip(2)), false);
    } else {
        lemma_literals_uncommented(s.skip(1), s[0] == '"');
        assert(out.skip(1) == uncommented(s.skip(1), s[0] == '"'));
    }
}

proof fn lemma_literals_uncomma(s: Seq<char>, in_str: bool)
    ensures
        literals(uncomma(s, in_str), in_str) == literals(s, in_str),
    decreases s.len(),
{
    let out = uncomma(s, in_str);
    if s.len() == 0 {
    } else if in_str {
        if s[0] == '\\' && s.len() >= 2 {
            lemma_literals_uncomma(s.skip(2), true);
            assert(out.skip(2) == uncomma(s.skip(2), true));
        } else {
            lemma_literals_uncomma(s.skip(1), s[0] != '"');
            assert(out.skip(1) == uncomma(s.skip(1), s[0] != '"'));
            if s[0] == '\\' {
                assert(s.skip(1).len() == 0);
            }
        }
    } else if opens_trailing_comma(s) {
        lemma_literals_uncomma(s.skip(1), false);
    } else {
        lemma_literals_uncomma(s.skip(1), s[0] == '"');
        assert(out.skip(1) == uncomma(s.skip(1), s[0] == '"'));
    }
}

/// The string literals come through unchanged and in order, whatever they hold:
/// a comment mark or a comma inside a literal is left alone, and so is a quote
/// inside a comment.
pub proof fn law_string_literals_are_kept(s: Seq<char>)
    ensures
        literals(plain_json(s), false) == literals_beside_comments(s, false),
{
    lemma_literals_uncommented(s, false);
    lemma_literals_uncomma(uncommented(s, false), false);
}

/// The characters other than commas.
pub open spec fn no_commas(s: Seq<char>) -> Seq<char>
    decreases s.len(),
{
    if s.len() == 0 {
        s
    } else if s[0] == ',' {
        no_commas(s.skip(1))
    } else {
        seq![s[0]] + no_commas(s.skip(1))
    }
}

proof fn lemma_only_commas(s: Seq<char>, in_str: bool)
    ensures
        no_commas(uncomma(s, in_str)) == no_commas(s),
    decreases s.len(),
{
    let out = uncomma(s, in_str);
    if s.len() == 0 {
    } else if in_str {
        if s[0] == '\\' && s.len() >= 2 {
            reveal_with_fuel(no_commas, 3);
            lemma_only_commas(s.skip(2), true);
            assert(out.skip(1).skip(1) == uncomma(s.skip(2), true));
            assert(s.skip(1).skip(1) == s.skip(2));
            assert(out.skip(1)[0] == s[1]);
            assert(s.skip(1)[0] == s[1]);
        } else {
            lemma_only_commas(s.skip(1), s[0] != '"');
            assert(out.skip(1) == uncomma(s.skip(1), s[0] != '"'));
        }
    } else if opens_trailing_comma(s) {
        lemma_only_commas(s.skip(1), false);
    } else {
        lemma_only_commas(s.skip(1), s[0] == '"');
        assert(out.skip(1) == uncomma(s.skip(1), s[0] == '"'));
    }
}

/// Dropping trailing commas removes nothing but commas.
pub proof fn law_only_commas_are_dropped(s: Seq<char>)
    ensures
        no_commas(uncomma(s, false)) == no_commas(s),
{
    lemma_only_commas(s, false);
}

/// No comma outside string literals stands right in front of a trailing comma.
pub open spec fn double_comma_free(s: Seq<char>, in_str: bool) -> bool
    decreases s.len(),
{
    if s.len() == 0 {
        true
    } else if in_str {
        if s[0] == '\\' && s.len() >= 2 {
            double_comma_free(s.skip(2), true)
        } else {
            double_comma_free(s.skip(1), s[0] != '"')
        }
    } else {
        !(s[0] == ',' && opens_trailing_comma(skip_space(s.skip(1)))) && double_comma_free(
            s.skip(1),
            s[0] == '"',
        )
    }
}

proof fn lemma_uncomma_front(t: Seq<char>)
    requires
        !opens_trailing_comma(skip_space(t)),
    ensures
        ({
            let r = skip_space(t);
            let u = skip_space(uncomma(t, false));
            (u.len() > 0 <==> r.len() > 0) && (r.len() > 0 ==> u[0] == r[0])
        }),
    decreases t.len(),
{
    if t.len() > 0 {
        let out = uncomma(t, false);
        if is_ascii_space(t[0]) {
            lemma_uncomma_front(t.skip(1));
            assert(out.skip(1) == uncomma(t.skip(1), false));
            assert(out[0] == t[0]);
        } else {
            assert(out[0] == t[0]);
        }
    }
}

proof fn lemma_uncomma_free(s: Seq<char>, in_str: bool)
    requires
        double_comma_free(s, in_str),
    ensures
        trailing_comma_free(uncomma(s, in_str), in_str),
    decreases s.len(),
{
    let out = uncomma(s, in_str);
    if s.len() == 0 {
    } else if in_str {
        if s[0] == '\\' && s.len() >= 2 {
            lemma_uncomma_free(s.skip(2), true);
            assert(out.skip(2) == uncomma(s.skip(2), true));
        } else {
            lemma_uncomma_free(s.skip(1), s[0] != '"');
            assert(out.skip(1) == uncomma(s.skip(1), s[0] != '"'));
            if s[0] == '\\' {
                assert(s.skip(1).len() == 0);
            }
        }
    } else if opens_trailing_comma(s) {
        lemma_uncomma_free(s.skip(1), false);
    } else {
        lemma_uncomma_free(s.skip(1), s[0] == '"');
        assert(out.skip(1) == uncomma(s.skip(1), s[0] == '"'));
        if s[0] == ',' {
            lemma_uncomma_front(s.skip(1));
        }
    }
}

/// No trailing comma is left, whether or not a comment stood behind it. The one
/// exception is a comma right in front of a trailing comma, as in `[1,,]`, of
/// which only the second is dropped.
pub proof fn law_no_trailing_comma_is_left(s: Seq<char>)
    requires
        double_comma_free(uncommented(s, false), false),
    ensures
        trailing_comma_free(plain_json(s), false),
{
    lemma_uncomma_free(uncommented(s, false), false);
}

/// A line comment goes up to the end of its line, which stays.
pub proof fn law_line_comment_goes(comment: Seq<char>, rest: Seq<char>)
    requires
        forall|i: int| 0 <= i < comment.len() ==> #[trigger] comment[i] != '\n',
    ensures
        uncommented(seq!['/', '/'] + comment + seq!['\n'] + rest, false) == seq!['\n']
            + uncommented(rest, false),
        uncommented(seq!['/', '/'] + comment, false) == Seq::<char>::empty(),
{
    reveal_with_fuel(uncommented, 2);
    let s = seq!['/', '/'] + comment + seq!['\n'] + rest;
    let t = s.skip(2);
    let n = comment.len() as int;
    assert(t == comment + seq!['\n'] + rest);
    lemma_first_index_is(t, '\n', n);
    assert(after_line(t) == seq!['\n'] + rest);
    assert((seq!['\n'] + rest).skip(1) == rest);
    let a = seq!['/', '/'] + comment;
    assert(a.skip(2) == comment);
    lemma_first_index_is(comment, '\n', n);
    assert(after_line(comment) == Seq::<char>::empty());
}

proof fn lemma_after_block(comment: Seq<char>, rest: Seq<char>)
    requires
        forall|i: int|
            0 <= i < comment.len() && #[trigger] comment[i] == '*' ==> i + 1 < comment.len()
                && comment[i + 1] != '/',
    ensures
        after_block(comment + seq!['*', '/'] + rest) == rest,
    decreases comment.len(),
{
    let s = comment + seq!['*', '/'] + rest;
    if comment.len() == 0 {
        assert(s.skip(2) == rest);
    } else {
        let c = comment.skip(1);
        assert(s.skip(1) == c + seq!['*', '/'] + rest);
        assert(s[0] == comment[0]);
        if comment[0] == '*' {
            assert(s[1] == comment[1]);
        }
        assert forall|i: int| 0 <= i < c.len() && #[trigger] c[i] == '*' implies i + 1 < c.len()
            && c[i + 1] != '/' by {
            assert(comment[i + 1] == '*');
        }
        lemma_after_block(c, rest);
    }
}

/// A block comment goes up to its end mark, wherever that stands.
pub proof fn law_block_comment_goes(comment: Seq<char>, rest: Seq<char>)
    requires
        forall|i: int|
            0 <= i < comment.len() && #[trigger] comment[i] == '*' ==> i + 1 < comment.len()
                && comment[i + 1] != '/',
    ensures
        uncommented(seq!['/', '*'] + comment + seq!['*', '/'] + rest, false) == uncommented(
            rest,
            false,
        ),
{
    let s = seq!['/', '*'] + comment + seq!['*', '/'] + rest;
    assert(s.skip(2) == comment + seq!['*', '/'] + rest);
    lemma_after_block(comment, rest);
}

/// Everything that opens neither a comment nor a string stays as it is.
pub proof fn law_other_characters_stay(c: char, rest: Seq<char>)
    requires
        c != '/',
        c != '"',
    ensures
        uncommented(seq![c] + rest, false) == seq![c] + uncommented(rest, false),
        c != ',' ==> uncomma(seq![c] + rest, false) == seq![c] + uncomma(rest, false),
{
    assert((seq![c] + rest).skip(1) == rest);
}

proof fn lemma_skip_space(space: Seq<char>, rest: Seq<char>)
    requires
        forall|i: int| 0 <= i < space.len() ==> is_ascii_space(#[trigger] space[i]),
        rest.len() > 0 ==> !is_ascii_space(rest[0]),
    ensures
        skip_space(space + rest) == rest,
    decreases space.len(),
{
    if space.len() == 0 {
        assert(space + rest == rest);
    } else {
        assert((space + rest).skip(1) == space.skip(1) + rest);
        lemma_skip_space(space.skip(1), rest);
        assert(is_ascii_space(space[0]));
    }
}

/// A comma goes where only white space parts it from a closing bracket, and stays in
/// front of anything else.
pub proof fn law_trailing_comma_goes(space: Seq<char>, rest: Seq<char>)
    requires
        forall|i: int|
            0 <= i < space.len() ==> #[trigger] space[i] == ' ' || space[i] == '\n' || space[i]
                == '\t' || space[i] == '\r',
        rest.len() > 0,
        !is_ascii_space(rest[0]),
    ensures
        rest[0] == ']' || rest[0] == '}' ==> uncomma(seq![','] + space + rest, false) == uncomma(
            space + rest,
            false,
        ),
        rest[0] != ']' && rest[0] != '}' ==> uncomma(seq![','] + space + rest, false) == seq![
            ',',
        ] + uncomma(space + rest, false),
{
    let s = seq![','] + space + rest;
    assert(s.skip(1) == space + rest);
    lemma_skip_space(space, rest);
}

} // verus!
