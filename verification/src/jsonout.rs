//! Strings written as JSON.

use vstd::prelude::*;

verus! {

/// A hexadecimal digit in lower case.
pub open spec fn hex_char(d: int) -> char {
    if d < 10 {
        ('0' as u8 + d) as u8 as char
    } else {
        ('a' as u8 + (d - 10)) as u8 as char
    }
}

/// A character inside a JSON string: quotes, backslashes and control characters
/// are escaped.
pub open spec fn json_char(c: char) -> Seq<char> {
    if c == '"' {
        seq!['\\', '"']
    } else if c == '\\' {
        seq!['\\', '\\']
    } else if c == '\n' {
        seq!['\\', 'n']
    } else if c == '\r' {
        seq!['\\', 'r']
    } else if c == '\t' {
        seq!['\\', 't']
    } else if (c as u32) < 0x20 {
        seq!['\\', 'u', '0', '0', hex_char(c as int / 16), hex_char(c as int % 16)]
    } else {
        seq![c]
    }
}

pub open spec fn json_chars(s: Seq<char>) -> Seq<char>
    decreases s.len(),
{
    if s.len() == 0 {
        Seq::empty()
    } else {
        json_chars(s.drop_last()) + json_char(s.last())
    }
}

/// A text as a JSON string with its quotes.
pub open spec fn json_string(s: Seq<char>) -> Seq<char> {
    seq!['"'] + json_chars(s) + seq!['"']
}

fn hex_digit(d: u32) -> (r: char)
    requires
        d < 16,
    ensures
        r == hex_char(d as int),
{
    if d < 10 {
        (48 + d as u8) as char
    } else {
        (97 + (d as u8 - 10)) as char
    }
}

/// Appends a character as it stands inside a JSON string.
fn push_json_char(out: &mut String, c: char)
    ensures
        final(out)@ == old(out)@ + json_char(c),
{
    let ghost before = out@;
    if c == '"' {
        out.push('\\');
        out.push('"');
    } else if c == '\\' {
        out.push('\\');
        out.push('\\');
    } else if c == '\n' {
        out.push('\\');
        out.push('n');
    } else if c == '\r' {
        out.push('\\');
        out.push('r');
    } else if c == '\t' {
        out.push('\\');
        out.push('t');
    } else if (c as u32) < 0x20 {
        out.push('\\');
        out.push('u');
        out.push('0');
        out.push('0');
        out.push(hex_digit(c as u32 / 16));
        out.push(hex_digit(c as u32 % 16));
    } else {
        out.push(c);
    }
    assert(out@ == before + json_char(c));
}

/// Appends a text as a JSON string.
pub fn json_str(out: &mut String, s: &str)
    ensures
        final(out)@ == old(out)@ + json_string(s@),
{
    let ghost before = out@;
    out.push('"');
    for c in it: s.chars()
        invariant
            it.seq() == s@,
            out@ == before + seq!['"'] + json_chars(s@.take(it.index() as int)),
    {
        proof {
            let now = s@.take(it.index() + 1);
            assert(now.drop_last() == s@.take(it.index() as int));
            assert(now.last() == c);
        }
        push_json_char(out, c);
    }
    assert(s@.take(s@.len() as int) == s@);
    out.push('"');
    assert(out@ == before + json_string(s@));
}

/// The value of a hexadecimal digit.
pub open spec fn hex_value(c: char) -> Option<int> {
    if '0' <= c && c <= '9' {
        Some(c as int - '0' as int)
    } else if 'a' <= c && c <= 'f' {
        Some(c as int - 'a' as int + 10)
    } else if 'A' <= c && c <= 'F' {
        Some(c as int - 'A' as int + 10)
    } else {
        None
    }
}

/// The number of the four hexadecimal digits from position `at` on.
pub open spec fn code_unit(s: Seq<char>, at: int) -> Option<int> {
    match (hex_value(s[at]), hex_value(s[at + 1]), hex_value(s[at + 2]), hex_value(s[at + 3])) {
        (Some(w), Some(x), Some(y), Some(z)) => Some(w * 4096 + x * 256 + y * 16 + z),
        _ => None,
    }
}

/// The character of the escape sequence of a number at the front, and how many
/// characters it is written with. A character beyond the first plane is written
/// as a surrogate pair; half of a pair is no character.
pub open spec fn read_code(s: Seq<char>) -> Option<(char, int)> {
    match code_unit(s, 2) {
        Some(n) => if !(0xd800 <= n <= 0xdfff) {
            Some((n as char, 6))
        } else if n < 0xdc00 && s.len() >= 12 && s[6] == '\\' && s[7] == 'u' {
            match code_unit(s, 8) {
                Some(low) if 0xdc00 <= low <= 0xdfff => Some(
                    ((0x10000 + (n - 0xd800) * 0x400 + (low - 0xdc00)) as char, 12),
                ),
                _ => None,
            }
        } else {
            None
        },
        None => None,
    }
}

/// The character at the front of the inside of a JSON string, and how many
/// characters it is written with.
pub open spec fn read_char(s: Seq<char>) -> Option<(char, int)> {
    if s.len() == 0 || s[0] == '"' || (s[0] as u32) < 0x20 {
        None
    } else if s[0] != '\\' {
        Some((s[0], 1))
    } else if s.len() < 2 {
        None
    } else if s[1] == '"' || s[1] == '\\' || s[1] == '/' {
        Some((s[1], 2))
    } else if s[1] == 'b' {
        Some(('\u{8}', 2))
    } else if s[1] == 'f' {
        Some(('\u{c}', 2))
    } else if s[1] == 'n' {
        Some(('\n', 2))
    } else if s[1] == 'r' {
        Some(('\r', 2))
    } else if s[1] == 't' {
        Some(('\t', 2))
    } else if s[1] == 'u' && s.len() >= 6 {
        read_code(s)
    } else {
        None
    }
}

/// The text of the inside of a JSON string up to its closing quote, and what
/// follows the quote.
pub open spec fn read_chars(s: Seq<char>) -> Option<(Seq<char>, Seq<char>)>
    decreases s.len(),
{
    if s.len() > 0 && s[0] == '"' {
        Some((Seq::empty(), s.skip(1)))
    } else {
        match read_char(s) {
            Some((c, n)) => if 0 < n <= s.len() {
                match read_chars(s.skip(n)) {
                    Some((text, rest)) => Some((seq![c] + text, rest)),
                    None => None,
                }
            } else {
                None
            },
            None => None,
        }
    }
}

/// The text of the JSON string at the front, and what follows it.
pub open spec fn read_json_string(s: Seq<char>) -> Option<(Seq<char>, Seq<char>)> {
    if s.len() > 0 && s[0] == '"' {
        read_chars(s.skip(1))
    } else {
        None
    }
}

proof fn lemma_json_char_reads_back(c: char, rest: Seq<char>)
    ensures
        read_char(json_char(c) + rest) == Some((c, json_char(c).len() as int)),
        json_char(c)[0] != '"',
        json_char(c).len() > 0,
{
    let s = json_char(c) + rest;
    if (c as u32) < 0x20 && c != '\n' && c != '\r' && c != '\t' {
        let n = c as int;
        assert(hex_value('0') == Some(0int));
        assert(n / 16 == 0 || n / 16 == 1);
        lemma_hex(n / 16);
        lemma_hex(n % 16);
        assert(s[1] == 'u');
        assert(s[2] == '0' && s[3] == '0');
        assert(s[4] == hex_char(n / 16));
        assert(s[5] == hex_char(n % 16));
    }
}

/// A hexadecimal digit reads back as itself.
pub proof fn lemma_hex(d: int)
    requires
        0 <= d < 16,
    ensures
        hex_value(hex_char(d)) == Some(d),
{
}

/// The first character of a text stands in front of the others.
pub proof fn lemma_json_chars_front(s: Seq<char>)
    requires
        s.len() > 0,
    ensures
        json_chars(s) == json_char(s[0]) + json_chars(s.skip(1)),
    decreases s.len(),
{
    if s.len() == 1 {
        assert(s.drop_last() == Seq::<char>::empty());
        assert(s.skip(1) == Seq::<char>::empty());
        reveal_with_fuel(json_chars, 2);
        assert(json_chars(s) == json_char(s[0]));
    } else {
        let front = s.drop_last();
        lemma_json_chars_front(front);
        assert(front.skip(1) == s.skip(1).drop_last());
        assert(s.skip(1).last() == s.last());
    }
}

proof fn lemma_json_chars_read_back(s: Seq<char>, rest: Seq<char>)
    ensures
        read_chars(json_chars(s) + seq!['"'] + rest) == Some((s, rest)),
    decreases s.len(),
{
    let t = json_chars(s) + seq!['"'] + rest;
    if s.len() == 0 {
        assert(t.skip(1) == rest);
    } else {
        lemma_json_chars_front(s);
        let tail = json_chars(s.skip(1)) + seq!['"'] + rest;
        assert(t == json_char(s[0]) + tail);
        lemma_json_char_reads_back(s[0], tail);
        assert(t[0] == json_char(s[0])[0]);
        assert(t.skip(json_char(s[0]).len() as int) == tail);
        lemma_json_chars_read_back(s.skip(1), rest);
        assert(seq![s[0]] + s.skip(1) == s);
    }
}

/// A text that was written as a JSON string reads back as itself, whatever
/// follows it.
pub proof fn law_json_string_reads_back(s: Seq<char>, rest: Seq<char>)
    ensures
        read_json_string(json_string(s) + rest) == Some((s, rest)),
{
    let t = json_string(s) + rest;
    lemma_json_chars_read_back(s, rest);
    assert(t.skip(1) == json_chars(s) + seq!['"'] + rest);
}

} // verus!
