//! Text primitives: white space, words, lines, letter case and joining.

use vstd::prelude::*;

verus! {

/// `String::push` appends one character to the end of the string.
pub assume_specification[ String::push ](s: &mut String, c: char)
    ensures
        final(s)@ == old(s)@.push(c),
;

/// The characters that each string of a sequence holds.
pub open spec fn texts(v: Seq<String>) -> Seq<Seq<char>> {
    Seq::new(v.len(), |i: int| v[i]@)
}

/// The characters with the Unicode `White_Space` property.
pub open spec fn is_space(c: char) -> bool {
    let n = c as u32;
    ||| 0x9 <= n <= 0xd
    ||| n == 0x20
    ||| n == 0x85
    ||| n == 0xa0
    ||| n == 0x1680
    ||| 0x2000 <= n <= 0x200a
    ||| n == 0x2028
    ||| n == 0x2029
    ||| n == 0x202f
    ||| n == 0x205f
    ||| n == 0x3000
}

/// The white space characters of ASCII that JSON and HTML recognise.
pub open spec fn is_ascii_space(c: char) -> bool {
    c == ' ' || c == '\t' || c == '\n' || c == '\u{c}' || c == '\r'
}

pub open spec fn is_digit(c: char) -> bool {
    '0' <= c && c <= '9'
}

pub open spec fn is_letter(c: char) -> bool {
    ('a' <= c && c <= 'z') || ('A' <= c && c <= 'Z')
}

pub open spec fn all_digits(s: Seq<char>) -> bool {
    forall|i: int| 0 <= i < s.len() ==> is_digit(#[trigger] s[i])
}

pub open spec fn all_letters(s: Seq<char>) -> bool {
    forall|i: int| 0 <= i < s.len() ==> is_letter(#[trigger] s[i])
}

/// An ASCII lower case letter raised to upper case; other characters stay.
pub open spec fn upper_char(c: char) -> char {
    if 'a' <= c && c <= 'z' {
        (c as u8 - 32) as u8 as char
    } else {
        c
    }
}

/// An ASCII upper case letter lowered; other characters stay.
pub open spec fn lower_char(c: char) -> char {
    if 'A' <= c && c <= 'Z' {
        (c as u8 + 32) as u8 as char
    } else {
        c
    }
}

pub open spec fn upper(s: Seq<char>) -> Seq<char> {
    Seq::new(s.len(), |i: int| upper_char(s[i]))
}

pub open spec fn lower(s: Seq<char>) -> Seq<char> {
    Seq::new(s.len(), |i: int| lower_char(s[i]))
}

/// The maximal runs of characters that are not white space, in order.
pub open spec fn words(s: Seq<char>) -> Seq<Seq<char>>
    decreases s.len(),
{
    if s.len() == 0 {
        seq![]
    } else {
        let before = words(s.drop_last());
        if is_space(s.last()) {
            before
        } else if s.len() >= 2 && !is_space(s[s.len() - 2]) {
            before.drop_last().push(before.last().push(s.last()))
        } else {
            before.push(seq![s.last()])
        }
    }
}

/// The texts in order with the separator between neighbours.
pub open spec fn join(parts: Seq<Seq<char>>, sep: Seq<char>) -> Seq<char>
    decreases parts.len(),
{
    if parts.len() == 0 {
        seq![]
    } else if parts.len() == 1 {
        parts[0]
    } else {
        join(parts.drop_last(), sep) + sep + parts.last()
    }
}

/// The words joined by single blanks.
pub open spec fn phrase(parts: Seq<Seq<char>>) -> Seq<char> {
    join(parts, seq![' '])
}

/// Words joined by single blanks, in upper case: the form in which names and
/// streets are compared.
pub open spec fn norm_text(s: Seq<char>) -> Seq<char> {
    upper(phrase(words(s)))
}

pub open spec fn trim_start(s: Seq<char>) -> Seq<char>
    decreases s.len(),
{
    if s.len() > 0 && is_space(s[0]) {
        trim_start(s.skip(1))
    } else {
        s
    }
}

pub open spec fn trim_end(s: Seq<char>) -> Seq<char>
    decreases s.len(),
{
    if s.len() > 0 && is_space(s.last()) {
        trim_end(s.drop_last())
    } else {
        s
    }
}

/// The text without the white space at its two ends.
pub open spec fn trimmed(s: Seq<char>) -> Seq<char> {
    trim_end(trim_start(s))
}

/// The position of the first `c`, or the length where there is none.
pub open spec fn first_index(s: Seq<char>, c: char) -> int
    decreases s.len(),
{
    if s.len() == 0 || s[0] == c {
        0
    } else {
        1 + first_index(s.skip(1), c)
    }
}

/// A line without the carriage return of a `\r\n` ending.
pub open spec fn without_cr(s: Seq<char>) -> Seq<char> {
    if s.len() > 0 && s.last() == '\r' {
        s.drop_last()
    } else {
        s
    }
}

/// The lines of a text, each without its ending `\n` or `\r\n`; the ending of
/// the last line may be missing.
pub open spec fn lines(s: Seq<char>) -> Seq<Seq<char>>
    decreases s.len(),
    via lines_decreases
{
    let end = first_index(s, '\n');
    if s.len() == 0 {
        seq![]
    } else if end == s.len() {
        seq![s]
    } else {
        seq![without_cr(s.take(end))] + lines(s.skip(end + 1))
    }
}

#[via_fn]
proof fn lines_decreases(s: Seq<char>) {
    lemma_first_index(s, '\n');
}

/// Whether `part` occurs in `s`.
pub open spec fn has_part(s: Seq<char>, part: Seq<char>) -> bool {
    exists|i: int| 0 <= i && i + part.len() <= s.len() && #[trigger] s.subrange(i, i + part.len())
        == part
}

pub open spec fn starts_with(s: Seq<char>, part: Seq<char>) -> bool {
    part.len() <= s.len() && s.take(part.len() as int) == part
}

pub open spec fn ends_with(s: Seq<char>, part: Seq<char>) -> bool {
    part.len() <= s.len() && s.skip(s.len() - part.len()) == part
}

pub proof fn lemma_first_index(s: Seq<char>, c: char)
    ensures
        0 <= first_index(s, c) <= s.len(),
        forall|i: int| 0 <= i < first_index(s, c) ==> s[i] != c,
        first_index(s, c) < s.len() ==> s[first_index(s, c)] == c,
    decreases s.len(),
{
    if s.len() == 0 || s[0] == c {
    } else {
        lemma_first_index(s.skip(1), c);
        assert forall|i: int| 0 <= i < first_index(s, c) implies s[i] != c by {
            if i > 0 {
                assert(s[i] == s.skip(1)[i - 1]);
            }
        }
    }
}

/// A position with the two properties of the first index is the first index.
pub proof fn lemma_first_index_is(s: Seq<char>, c: char, k: int)
    requires
        0 <= k <= s.len(),
        forall|i: int| 0 <= i < k ==> s[i] != c,
        k < s.len() ==> s[k] == c,
    ensures
        first_index(s, c) == k,
{
    lemma_first_index(s, c);
    let f = first_index(s, c);
    if f < k {
        assert(s[f] != c);
    } else if k < f {
        assert(s[k] != c);
    }
}

/// Whether `c` is white space.
pub fn is_space_char(c: char) -> (r: bool)
    ensures
        r == is_space(c),
{
    let n: u32 = c as u32;
    (0x9 <= n && n <= 0xd) || n == 0x20 || n == 0x85 || n == 0xa0 || n == 0x1680 || (0x2000 <= n
        && n <= 0x200a) || n == 0x2028 || n == 0x2029 || n == 0x202f || n == 0x205f || n == 0x3000
}

pub fn is_digit_char(c: char) -> (r: bool)
    ensures
        r == is_digit(c),
{
    '0' <= c && c <= '9'
}

pub fn is_letter_char(c: char) -> (r: bool)
    ensures
        r == is_letter(c),
{
    ('a' <= c && c <= 'z') || ('A' <= c && c <= 'Z')
}

pub fn to_upper_char(c: char) -> (r: char)
    ensures
        r == upper_char(c),
{
    if 'a' <= c && c <= 'z' {
        (c as u8 - 32) as char
    } else {
        c
    }
}

pub fn to_lower_char(c: char) -> (r: char)
    ensures
        r == lower_char(c),
{
    if 'A' <= c && c <= 'Z' {
        (c as u8 + 32) as char
    } else {
        c
    }
}

/// Appends a string to a row of strings.
pub fn push_text(out: &mut Vec<String>, s: String)
    ensures
        texts(final(out)@) == texts(old(out)@).push(s@),
{
    let ghost before = texts(out@);
    let ghost text = s@;
    out.push(s);
    assert(texts(out@) == before.push(text));
}

/// The characters of a string.
pub fn chars_of(s: &str) -> (r: Vec<char>)
    ensures
        r@ == s@,
{
    let mut out: Vec<char> = Vec::new();
    for c in it: s.chars()
        invariant
            it.seq() == s@,
            out@ == s@.take(it.index() as int),
    {
        out.push(c);
    }
    out
}

/// The string of the characters `from..to`.
pub fn string_of(chars: &Vec<char>, from: usize, to: usize) -> (r: String)
    requires
        from <= to <= chars@.len(),
    ensures
        r@ == chars@.subrange(from as int, to as int),
{
    let mut out = String::new();
    let mut i: usize = from;
    while i < to
        invariant
            from <= i <= to <= chars@.len(),
            out@ == chars@.subrange(from as int, i as int),
        decreases to - i,
    {
        out.push(chars[i]);
        i += 1;
    }
    out
}

/// Whether two strings hold the same characters.
pub fn same(a: &str, b: &str) -> (r: bool)
    ensures
        r == (a@ == b@),
{
    let x = chars_of(a);
    chars_are(&x, b)
}

/// Whether the characters are those of `b`.
pub fn chars_are(x: &Vec<char>, b: &str) -> (r: bool)
    ensures
        r == (x@ == b@),
{
    let mut i: usize = 0;
    for c in it: b.chars()
        invariant
            it.seq() == b@,
            i == it.index(),
            i <= x@.len(),
            x@.take(i as int) == b@.take(i as int),
    {
        if i >= x.len() || x[i] != c {
            return false;
        }
        i += 1;
        assert(x@.take(i as int) == b@.take(i as int));
    }
    if i == x.len() {
        assert(x@.take(i as int) == x@);
        assert(b@.take(i as int) == b@);
        true
    } else {
        false
    }
}

pub fn is_all_digits(s: &str) -> (r: bool)
    ensures
        r == all_digits(s@),
{
    for c in it: s.chars()
        invariant
            it.seq() == s@,
            forall|j: int| 0 <= j < it.index() ==> is_digit(#[trigger] s@[j]),
    {
        if !is_digit_char(c) {
            return false;
        }
    }
    true
}

pub fn is_all_letters(s: &str) -> (r: bool)
    ensures
        r == all_letters(s@),
{
    for c in it: s.chars()
        invariant
            it.seq() == s@,
            forall|j: int| 0 <= j < it.index() ==> is_letter(#[trigger] s@[j]),
    {
        if !is_letter_char(c) {
            return false;
        }
    }
    true
}

pub fn to_upper(s: &str) -> (r: String)
    ensures
        r@ == upper(s@),
{
    let mut out = String::new();
    for c in it: s.chars()
        invariant
            it.seq() == s@,
            out@ == upper(s@).take(it.index() as int),
    {
        out.push(to_upper_char(c));
    }
    out
}

pub fn to_lower(s: &str) -> (r: String)
    ensures
        r@ == lower(s@),
{
    let mut out = String::new();
    for c in it: s.chars()
        invariant
            it.seq() == s@,
            out@ == lower(s@).take(it.index() as int),
    {
        out.push(to_lower_char(c));
    }
    out
}

/// The words of a text: the maximal runs of characters that are not white
/// space.
pub fn words_of(s: &str) -> (r: Vec<String>)
    ensures
        texts(r@) == words(s@),
{
    let mut out: Vec<String> = Vec::new();
    let mut cur = String::new();
    let mut inside: bool = false;
    for c in it: s.chars()
        invariant
            it.seq() == s@,
            inside == (it.index() > 0 && !is_space(s@[it.index() - 1])),
            inside ==> words(s@.take(it.index() as int)) == texts(out@).push(cur@),
            !inside ==> words(s@.take(it.index() as int)) == texts(out@) && cur@.len() == 0,
    {
        let ghost i = it.index() as int;
        let ghost before = s@.take(i);
        let ghost now = s@.take(i + 1);
        assert(now.drop_last() == before);
        assert(now.last() == c);
        if is_space_char(c) {
            if inside {
                let ghost prev = texts(out@).push(cur@);
                out.push(cur);
                assert(texts(out@) == prev);
                cur = String::new();
            }
            inside = false;
        } else {
            let ghost prev = cur@;
            cur.push(c);
            if inside {
                assert(texts(out@).push(prev).drop_last() == texts(out@));
            } else {
                assert(cur@ == seq![c]);
            }
            inside = true;
        }
    }
    assert(s@.take(s@.len() as int) == s@);
    if inside {
        let ghost prev = texts(out@).push(cur@);
        out.push(cur);
        assert(texts(out@) == prev);
    }
    out
}

/// The parts `from..to` joined by the separator.
pub fn join_range(parts: &Vec<String>, from: usize, to: usize, sep: &str) -> (r: String)
    requires
        from <= to <= parts@.len(),
    ensures
        r@ == join(texts(parts@).subrange(from as int, to as int), sep@),
{
    let mut out = String::new();
    let ghost all = texts(parts@);
    let mut i: usize = from;
    while i < to
        invariant
            from <= i <= to <= parts@.len(),
            all == texts(parts@),
            out@ == join(all.subrange(from as int, i as int), sep@),
        decreases to - i,
    {
        if i > from {
            out.append(sep);
        }
        out.append(parts[i].as_str());
        proof {
            let now = all.subrange(from as int, i + 1);
            assert(now.drop_last() == all.subrange(from as int, i as int));
            assert(now.last() == parts@[i as int]@);
            if i == from {
                assert(now.len() == 1);
            }
        }
        i += 1;
    }
    out
}

/// All parts joined by the separator.
pub fn join_all(parts: &Vec<String>, sep: &str) -> (r: String)
    ensures
        r@ == join(texts(parts@), sep@),
{
    let out = join_range(parts, 0, parts.len(), sep);
    assert(texts(parts@).subrange(0, parts@.len() as int) == texts(parts@));
    out
}

/// The words `from..to` joined by single blanks.
pub fn phrase_range(parts: &Vec<String>, from: usize, to: usize) -> (r: String)
    requires
        from <= to <= parts@.len(),
    ensures
        r@ == phrase(texts(parts@).subrange(from as int, to as int)),
{
    proof {
        reveal_strlit(" ");
        assert(" "@ == seq![' ']);
    }
    join_range(parts, from, to, " ")
}

/// Collapses white space to single blanks and raises to upper case.
pub fn normalize(s: &str) -> (r: String)
    ensures
        r@ == norm_text(s@),
{
    let ws = words_of(s);
    let joined = phrase_range(&ws, 0, ws.len());
    assert(texts(ws@).subrange(0, ws@.len() as int) == words(s@));
    to_upper(joined.as_str())
}

proof fn lemma_trim_start_skip(s: Seq<char>, k: int)
    requires
        0 <= k <= s.len(),
        forall|i: int| 0 <= i < k ==> is_space(s[i]),
        k < s.len() ==> !is_space(s[k]),
    ensures
        trim_start(s) == s.skip(k),
    decreases k,
{
    if k == 0 {
        assert(s.skip(0) == s);
    } else {
        assert forall|i: int| 0 <= i < k - 1 implies is_space(s.skip(1)[i]) by {
            assert(s.skip(1)[i] == s[i + 1]);
        }
        lemma_trim_start_skip(s.skip(1), k - 1);
        assert(s.skip(1).skip(k - 1) == s.skip(k));
    }
}

proof fn lemma_trim_end_take(s: Seq<char>, k: int)
    requires
        0 <= k <= s.len(),
        forall|i: int| k <= i < s.len() ==> is_space(s[i]),
        0 < k ==> !is_space(s[k - 1]),
    ensures
        trim_end(s) == s.take(k),
    decreases s.len() - k,
{
    if k == s.len() {
        assert(s.take(k) == s);
    } else {
        lemma_trim_end_take(s.drop_last(), k);
        assert(s.drop_last().take(k) == s.take(k));
    }
}

/// The text without the white space at its two ends.
pub fn trim(s: &str) -> (r: String)
    ensures
        r@ == trimmed(s@),
{
    let chars = chars_of(s);
    let mut from: usize = 0;
    while from < chars.len() && is_space_char(chars[from])
        invariant
            from <= chars@.len(),
            forall|i: int| 0 <= i < from ==> is_space(chars@[i]),
        decreases chars@.len() - from,
    {
        from += 1;
    }
    let mut to: usize = chars.len();
    while to > from && is_space_char(chars[to - 1])
        invariant
            from <= to <= chars@.len(),
            forall|i: int| to <= i < chars@.len() ==> is_space(chars@[i]),
        decreases to,
    {
        to -= 1;
    }
    proof {
        lemma_trim_start_skip(s@, from as int);
        let rest = s@.skip(from as int);
        assert forall|i: int| to - from <= i < rest.len() implies is_space(rest[i]) by {
            assert(rest[i] == s@[i + from]);
        }
        lemma_trim_end_take(rest, to - from);
        assert(rest.take(to - from) == s@.subrange(from as int, to as int));
    }
    string_of(&chars, from, to)
}

/// The lines of a text, without their endings.
pub fn lines_of(s: &str) -> (r: Vec<String>)
    ensures
        texts(r@) == lines(s@),
{
    let chars = chars_of(s);
    let mut out: Vec<String> = Vec::new();
    let mut start: usize = 0;
    proof {
        assert(s@.skip(0) == s@);
    }
    while start < chars.len()
        invariant
            chars@ == s@,
            start <= chars@.len(),
            lines(s@) == texts(out@) + lines(s@.skip(start as int)),
        decreases chars@.len() - start,
    {
        let ghost rest = s@.skip(start as int);
        let mut end: usize = start;
        while end < chars.len() && chars[end] != '\n'
            invariant
                chars@ == s@,
                start <= end <= chars@.len(),
                forall|i: int| start <= i < end ==> chars@[i] != '\n',
            decreases chars@.len() - end,
        {
            end += 1;
        }
        proof {
            lemma_first_index_is(rest, '\n', end - start);
        }
        let ghost done = texts(out@);
        if end == chars.len() {
            let line = string_of(&chars, start, end);
            assert(s@.subrange(start as int, end as int) == rest);
            out.push(line);
            assert(texts(out@) == done.push(rest));
            assert(lines(rest) == seq![rest]);
            start = end;
            assert(s@.skip(start as int) == Seq::<char>::empty());
        } else {
            let ghost line = rest.take(end - start);
            assert(s@.subrange(start as int, end as int) == line);
            let stop: usize = if end > start && chars[end - 1] == '\r' {
                end - 1
            } else {
                end
            };
            assert(s@.subrange(start as int, stop as int) == without_cr(line));
            let text = string_of(&chars, start, stop);
            out.push(text);
            assert(texts(out@) == done.push(without_cr(line)));
            assert(rest.skip(end - start + 1) == s@.skip(end + 1));
            start = end + 1;
        }
        assert(lines(s@) == texts(out@) + lines(s@.skip(start as int)));
    }
    assert(s@.skip(start as int) == Seq::<char>::empty());
    assert(texts(out@) + lines(Seq::<char>::empty()) == texts(out@));
    out
}

/// Whether `part` occurs in `s`.
pub fn contains(s: &str, part: &str) -> (r: bool)
    ensures
        r == has_part(s@, part@),
{
    let chars = chars_of(s);
    let wanted = chars_of(part);
    let m: usize = chars.len();
    let n: usize = wanted.len();
    if n > m {
        return false;
    }
    let mut i: usize = 0;
    while i <= m - n
        invariant
            chars@ == s@,
            wanted@ == part@,
            m == chars@.len(),
            n == wanted@.len(),
            i <= m - n + 1,
            n <= m,
            forall|k: int|
                0 <= k < i && k + part@.len() <= s@.len() ==> #[trigger] s@.subrange(
                    k,
                    k + part@.len(),
                ) != part@,
        decreases m + 1 - i,
    {
        let mut j: usize = 0;
        while j < n && chars[i + j] == wanted[j]
            invariant
                chars@ == s@,
                wanted@ == part@,
                m == chars@.len(),
                n == wanted@.len(),
                i + n <= m,
                j <= n,
                forall|k: int| 0 <= k < j ==> chars@[i + k] == wanted@[k],
            decreases n - j,
        {
            j += 1;
        }
        if j == n {
            assert(s@.subrange(i as int, i + part@.len()) == part@);
            return true;
        }
        assert(s@.subrange(i as int, i + part@.len())[j as int] == s@[i + j]);
        if i == m {
            return false;
        }
        i += 1;
    }
    false
}

/// What follows `part` where the text begins with it.
pub fn strip_prefix(s: &str, part: &str) -> (r: Option<String>)
    ensures
        match r {
            Some(rest) => starts_with(s@, part@) && rest@ == s@.skip(part@.len() as int),
            None => !starts_with(s@, part@),
        },
{
    let chars = chars_of(s);
    let wanted = chars_of(part);
    let m: usize = chars.len();
    let n: usize = wanted.len();
    if n <= m {
        let front = string_of(&chars, 0, n);
        assert(front@ == s@.take(n as int));
        if same(front.as_str(), part) {
            let rest = string_of(&chars, n, m);
            assert(rest@ == s@.skip(n as int));
            return Some(rest);
        }
    }
    None
}

/// What stands before `part` where the text ends with it.
pub fn strip_suffix(s: &str, part: &str) -> (r: Option<String>)
    ensures
        match r {
            Some(rest) => ends_with(s@, part@) && rest@ == s@.take(s@.len() - part@.len()),
            None => !ends_with(s@, part@),
        },
{
    let chars = chars_of(s);
    let wanted = chars_of(part);
    let m: usize = chars.len();
    let n: usize = wanted.len();
    if n <= m {
        let back = string_of(&chars, m - n, m);
        assert(back@ == s@.skip(m - n));
        if same(back.as_str(), part) {
            let rest = string_of(&chars, 0, m - n);
            assert(rest@ == s@.take(m - n));
            return Some(rest);
        }
    }
    None
}

/// The order of texts: at the first difference the smaller character, or the end
/// of the text, comes first.
pub open spec fn text_before(a: Seq<char>, b: Seq<char>) -> bool {
    exists|i: int| #[trigger] differ_first(a, b, i) && i < b.len() && (i == a.len() || a[i] < b[i])
}

/// Whether the texts agree up to position `i`.
pub open spec fn differ_first(a: Seq<char>, b: Seq<char>, i: int) -> bool {
    &&& 0 <= i <= a.len()
    &&& i <= b.len()
    &&& a.take(i) == b.take(i)
}

/// Whether a text comes before another.
pub fn is_before(a: &str, b: &str) -> (r: bool)
    ensures
        r == text_before(a@, b@),
{
    let x = chars_of(a);
    let y = chars_of(b);
    let mut i: usize = 0;
    while i < x.len() && i < y.len() && x[i] == y[i]
        invariant
            x@ == a@,
            y@ == b@,
            i <= x@.len(),
            i <= y@.len(),
            a@.take(i as int) == b@.take(i as int),
        decreases x@.len() - i,
    {
        i += 1;
        assert(a@.take(i as int) == b@.take(i as int));
    }
    assert(differ_first(a@, b@, i as int));
    proof {
        lemma_first_difference(a@, b@, i as int);
    }
    if i == y.len() {
        false
    } else {
        i == x.len() || x[i] < y[i]
    }
}

/// Where two texts first differ decides their order.
proof fn lemma_first_difference(a: Seq<char>, b: Seq<char>, i: int)
    requires
        differ_first(a, b, i),
        i == a.len() || i == b.len() || a[i] != b[i],
    ensures
        text_before(a, b) == (i < b.len() && (i == a.len() || a[i] < b[i])),
{
    if text_before(a, b) {
        let k = choose|k: int| #[trigger]
            differ_first(a, b, k) && k < b.len() && (k == a.len() || a[k] < b[k]);
        if k < i {
            assert(a.take(i)[k] == b.take(i)[k]);
        } else if k > i {
            assert(a.take(k)[i] == b.take(k)[i]);
        }
    }
}

/// Of two texts that are not the same, exactly one comes before the other.
pub proof fn law_text_order_is_total(a: Seq<char>, b: Seq<char>)
    ensures
        a == b ==> !text_before(a, b),
        a != b ==> text_before(a, b) != text_before(b, a),
{
    let i = common(a, b);
    lemma_common(a, b);
    assert(differ_first(a, b, i));
    assert(differ_first(b, a, i));
    lemma_first_difference(a, b, i);
    lemma_first_difference(b, a, i);
    if i == a.len() && i == b.len() {
        assert(a == a.take(i));
        assert(b == b.take(i));
    }
}

/// How many characters two texts have in common at their front.
spec fn common(a: Seq<char>, b: Seq<char>) -> int
    decreases a.len(),
{
    if a.len() == 0 || b.len() == 0 || a[0] != b[0] {
        0
    } else {
        1 + common(a.skip(1), b.skip(1))
    }
}

proof fn lemma_common(a: Seq<char>, b: Seq<char>)
    ensures
        differ_first(a, b, common(a, b)),
        common(a, b) == a.len() || common(a, b) == b.len() || a[common(a, b)] != b[common(a, b)],
    decreases a.len(),
{
    if a.len() > 0 && b.len() > 0 && a[0] == b[0] {
        lemma_common(a.skip(1), b.skip(1));
        let k = common(a.skip(1), b.skip(1));
        assert(a.take(k + 1) == b.take(k + 1)) by {
            assert forall|j: int| 0 <= j < k + 1 implies a[j] == b[j] by {
                if j > 0 {
                    assert(a.skip(1).take(k)[j - 1] == b.skip(1).take(k)[j - 1]);
                }
            }
        }
    } else {
        assert(a.take(0) == b.take(0));
    }
}

/// The order of texts is transitive.
pub proof fn law_text_order_is_transitive(a: Seq<char>, b: Seq<char>, c: Seq<char>)
    requires
        text_before(a, b),
        text_before(b, c),
    ensures
        text_before(a, c),
{
    let i = choose|i: int| #[trigger]
        differ_first(a, b, i) && i < b.len() && (i == a.len() || a[i] < b[i]);
    let k = choose|k: int| #[trigger]
        differ_first(b, c, k) && k < c.len() && (k == b.len() || b[k] < c[k]);
    let m = if i < k { i } else { k };
    assert(a.take(m) == c.take(m)) by {
        assert forall|j: int| 0 <= j < m implies a[j] == c[j] by {
            assert(a.take(i)[j] == b.take(i)[j]);
            assert(b.take(k)[j] == c.take(k)[j]);
        }
    }
    assert(differ_first(a, c, m));
    if i < k {
        assert(b.take(k)[i] == c.take(k)[i]);
    } else if k < i {
        assert(a.take(i)[k] == b.take(i)[k]);
    }
}

/// The first of at least two parts stands in front of the others, joined.
pub proof fn lemma_join_front(ws: Seq<Seq<char>>, sep: Seq<char>)
    requires
        ws.len() >= 2,
    ensures
        join(ws, sep) == ws[0] + (sep + join(ws.skip(1), sep)),
    decreases ws.len(),
{
    let rest = ws.skip(1);
    if ws.len() == 2 {
        assert(join(ws.drop_last(), sep) == ws[0]);
        assert(join(rest, sep) == ws[1]);
        assert(join(ws, sep) == ws[0] + sep + ws[1]);
        assert(ws[0] + sep + ws[1] == ws[0] + (sep + ws[1]));
    } else {
        let front = ws.drop_last();
        lemma_join_front(front, sep);
        assert(front.skip(1) == rest.drop_last());
        let middle = join(rest.drop_last(), sep);
        assert(join(rest, sep) == middle + sep + ws.last());
        assert(join(ws, sep) == ws[0] + (sep + middle) + sep + ws.last());
        assert(ws[0] + (sep + middle) + sep + ws.last() == ws[0] + (sep + (middle + sep
            + ws.last())));
    }
}

/// A word: at least one character, none of them white space.
pub open spec fn is_word(w: Seq<char>) -> bool {
    w.len() > 0 && forall|i: int| 0 <= i < w.len() ==> !is_space(#[trigger] w[i])
}

pub open spec fn all_words(ws: Seq<Seq<char>>) -> bool {
    forall|i: int| 0 <= i < ws.len() ==> is_word(#[trigger] ws[i])
}

/// Splitting a text gives words only: none is empty, none holds white space.
pub proof fn law_words_are_words(s: Seq<char>)
    ensures
        all_words(words(s)),
        s.len() > 0 && !is_space(s.last()) ==> words(s).len() > 0,
    decreases s.len(),
{
    if s.len() > 0 {
        law_words_are_words(s.drop_last());
    }
}

/// A word behind white space is one word more.
pub proof fn lemma_words_append_word(a: Seq<char>, w: Seq<char>)
    requires
        is_word(w),
        a.len() == 0 || is_space(a.last()),
    ensures
        words(a + w) == words(a).push(w),
    decreases w.len(),
{
    let s = a + w;
    assert(s.drop_last() == a + w.drop_last());
    assert(s.last() == w.last());
    if w.len() == 1 {
        assert(s.drop_last() == a);
        assert(w == seq![w.last()]);
    } else {
        lemma_words_append_word(a, w.drop_last());
        assert(s[s.len() - 2] == w[w.len() - 2]);
        assert(words(a).push(w.drop_last()).drop_last() == words(a));
        assert(w.drop_last().push(w.last()) == w);
    }
}

/// Splitting a phrase gives back the words it was joined from.
pub proof fn law_words_of_phrase(ws: Seq<Seq<char>>)
    requires
        all_words(ws),
    ensures
        words(phrase(ws)) == ws,
    decreases ws.len(),
{
    if ws.len() == 0 {
    } else if ws.len() == 1 {
        lemma_words_append_word(seq![], ws[0]);
        assert(Seq::<char>::empty() + ws[0] == ws[0]);
        assert(words(Seq::<char>::empty()) == Seq::<Seq<char>>::empty());
        assert(ws == seq![ws[0]]);
    } else {
        let front = ws.drop_last();
        law_words_of_phrase(front);
        let a = phrase(front) + seq![' '];
        assert(a.drop_last() == phrase(front));
        assert(is_space(' '));
        assert(words(a) == words(phrase(front)));
        lemma_words_append_word(a, ws.last());
        assert(front.push(ws.last()) == ws);
    }
}

/// Raising to upper case keeps white space where it was.
pub proof fn lemma_upper_space(c: char)
    ensures
        is_space(upper_char(c)) == is_space(c),
        upper_char(upper_char(c)) == upper_char(c),
{
}

proof fn lemma_upper_join(ws: Seq<Seq<char>>)
    ensures
        upper(phrase(ws)) == phrase(upper_words(ws)),
    decreases ws.len(),
{
    let us = upper_words(ws);
    if ws.len() == 0 {
        assert(upper(phrase(ws)) == Seq::<char>::empty());
    } else if ws.len() == 1 {
    } else {
        lemma_upper_join(ws.drop_last());
        assert(us.drop_last() == upper_words(ws.drop_last()));
        assert(upper(phrase(ws)) == upper(phrase(ws.drop_last())) + seq![' '] + upper(ws.last()));
    }
}

/// Words in upper case.
pub open spec fn upper_words(ws: Seq<Seq<char>>) -> Seq<Seq<char>> {
    ws.map_values(|w: Seq<char>| upper(w))
}

/// A normalised phrase still has the words it was joined from, in upper case.
pub proof fn lemma_words_of_norm(ws: Seq<Seq<char>>)
    requires
        all_words(ws),
    ensures
        norm_text(phrase(ws)) == phrase(upper_words(ws)),
        words(norm_text(phrase(ws))) == upper_words(ws),
{
    let us = upper_words(ws);
    law_words_of_phrase(ws);
    lemma_upper_join(ws);
    assert(all_words(us)) by {
        assert forall|i: int| 0 <= i < us.len() implies is_word(#[trigger] us[i]) by {
            assert(is_word(ws[i]));
            assert forall|j: int| 0 <= j < us[i].len() implies !is_space(#[trigger] us[i][j]) by {
                lemma_upper_space(ws[i][j]);
            }
        }
    }
    law_words_of_phrase(us);
}

/// Normalising twice is normalising once.
pub proof fn law_normalize_idempotent(s: Seq<char>)
    ensures
        norm_text(norm_text(s)) == norm_text(s),
{
    let ws = words(s);
    let us = upper_words(ws);
    law_words_are_words(s);
    law_words_of_phrase(ws);
    lemma_words_of_norm(ws);
    lemma_upper_join(us);
    assert(upper_words(us) == us) by {
        assert forall|i: int| 0 <= i < us.len() implies upper_words(us)[i] == us[i] by {
            assert forall|j: int| 0 <= j < us[i].len() implies upper_words(us)[i][j] == us[i][j] by {
                lemma_upper_space(ws[i][j]);
            }
            assert(upper_words(us)[i] == us[i]);
        }
    }
}

/// White space at the two ends of a text goes, and nothing else.
pub proof fn law_trim_removes_the_ends(a: Seq<char>, s: Seq<char>, b: Seq<char>)
    requires
        forall|i: int| 0 <= i < a.len() ==> is_space(#[trigger] a[i]),
        forall|i: int| 0 <= i < b.len() ==> is_space(#[trigger] b[i]),
        s.len() > 0,
        !is_space(s[0]),
        !is_space(s.last()),
    ensures
        trimmed(a + s + b) == s,
        trimmed(a) == Seq::<char>::empty(),
{
    let t = a + s + b;
    let k = a.len() as int;
    assert(t[k] == s[0]);
    assert forall|i: int| 0 <= i < k implies is_space(t[i]) by {
        assert(t[i] == a[i]);
    }
    lemma_trim_start_skip(t, k);
    let u = t.skip(k);
    assert(u == s + b);
    let n = s.len() as int;
    assert(u[n - 1] == s.last());
    assert forall|i: int| n <= i < u.len() implies is_space(u[i]) by {
        assert(u[i] == b[i - n]);
    }
    lemma_trim_end_take(u, n);
    assert(u.take(n) == s);
    assert forall|i: int| 0 <= i < a.len() implies is_space(a[i]) by {
    }
    lemma_trim_start_skip(a, a.len() as int);
    assert(a.skip(a.len() as int) == Seq::<char>::empty());
}

/// A text up to a line feed is a line, without a carriage return at its end, and what
/// follows is split in the same way. A text without a line feed is one line.
pub proof fn law_lines_end_at_line_feeds(line: Seq<char>, rest: Seq<char>)
    requires
        forall|i: int| 0 <= i < line.len() ==> #[trigger] line[i] != '\n',
    ensures
        line.len() > 0 && line.last() == '\r' ==> lines(line + seq!['\n'] + rest) == seq![
            line.drop_last(),
        ] + lines(rest),
        line.len() == 0 || line.last() != '\r' ==> lines(line + seq!['\n'] + rest) == seq![line]
            + lines(rest),
        line.len() > 0 ==> lines(line) == seq![line],
        lines(Seq::empty()).len() == 0,
{
    let s = line + seq!['\n'] + rest;
    let n = line.len() as int;
    assert(s[n] == '\n');
    assert forall|i: int| 0 <= i < n implies s[i] != '\n' by {
        assert(s[i] == line[i]);
    }
    lemma_first_index_is(s, '\n', n);
    assert(s.take(n) == line);
    assert(s.skip(n + 1) == rest);
    lemma_first_index_is(line, '\n', n);
}

/// White space parts words: a word behind any amount of it, at least one character
/// unless nothing stands in front, is one word more, and white space at the end adds
/// none.
pub proof fn law_white_space_parts_words(s: Seq<char>, space: Seq<char>, w: Seq<char>)
    requires
        forall|i: int| 0 <= i < space.len() ==> is_space(#[trigger] space[i]),
    ensures
        words(s + space) == words(s),
        is_word(w) && (s.len() == 0 || space.len() > 0) ==> words(s + space + w) == words(s).push(
            w,
        ),
    decreases space.len(),
{
    if space.len() == 0 {
        assert(s + space == s);
    } else {
        law_white_space_parts_words(s, space.drop_last(), w);
        assert((s + space).drop_last() == s + space.drop_last());
        assert(is_space(space[space.len() - 1]));
    }
    if is_word(w) && (s.len() == 0 || space.len() > 0) {
        if space.len() > 0 {
            assert(is_space(space[space.len() - 1]));
        }
        lemma_words_append_word(s + space, w);
    }
}

/// Raising a text to upper case raises its words.
pub proof fn law_upper_keeps_words(s: Seq<char>)
    ensures
        words(upper(s)) == upper_words(words(s)),
    decreases s.len(),
{
    if s.len() > 0 {
        let d = s.drop_last();
        law_upper_keeps_words(d);
        assert(upper(s).drop_last() == upper(d));
        lemma_upper_space(s.last());
        let c = s.last();
        let before = words(d);
        if is_space(c) {
        } else if s.len() >= 2 && !is_space(s[s.len() - 2]) {
            lemma_upper_space(s[s.len() - 2]);
            law_words_are_words(d);
            assert(d.last() == s[s.len() - 2]);
            assert(before.len() > 0);
            let now = before.drop_last().push(before.last().push(c));
            assert(upper(before.last().push(c)) == upper(before.last()).push(upper_char(c)));
            assert(upper_words(now) == upper_words(before).drop_last().push(
                upper_words(before).last().push(upper_char(c)),
            ));
        } else {
            if s.len() >= 2 {
                lemma_upper_space(s[s.len() - 2]);
            }
            assert(upper(seq![c]) == seq![upper_char(c)]);
            assert(upper_words(before.push(seq![c])) == upper_words(before).push(
                seq![upper_char(c)],
            ));
        }
    }
}

} // verus!
