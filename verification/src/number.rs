//! Decimal numbers: reading them from text and writing them out.

use crate::text::{all_digits, chars_of, is_digit, is_digit_char};
use vstd::prelude::*;

verus! {

pub open spec fn digit_value(c: char) -> nat {
    (c as u32 - '0' as u32) as nat
}

/// The number that a row of decimal digits stands for.
pub open spec fn value(s: Seq<char>) -> nat
    decreases s.len(),
{
    if s.len() == 0 {
        0
    } else {
        value(s.drop_last()) * 10 + digit_value(s.last())
    }
}

/// At least one digit and nothing else, of a value up to `max`.
pub open spec fn digits_value(s: Seq<char>, max: nat) -> Option<nat> {
    if s.len() > 0 && all_digits(s) && value(s) <= max {
        Some(value(s))
    } else {
        None
    }
}

/// An unsigned number: digits behind an optional plus sign.
pub open spec fn unsigned(s: Seq<char>, max: nat) -> Option<nat> {
    if s.len() > 0 && s[0] == '+' {
        digits_value(s.skip(1), max)
    } else {
        digits_value(s, max)
    }
}

/// A signed number from `-max - 1` to `max`: digits behind an optional sign.
pub open spec fn signed(s: Seq<char>, max: nat) -> Option<int> {
    if s.len() > 0 && s[0] == '-' {
        match digits_value(s.skip(1), max + 1) {
            Some(n) => Some(-(n as int)),
            None => None,
        }
    } else {
        match unsigned(s, max) {
            Some(n) => Some(n as int),
            None => None,
        }
    }
}

pub open spec fn digit_char(d: nat) -> char {
    ('0' as u8 + d) as u8 as char
}

/// The decimal digits of a number, without leading zeros.
pub open spec fn decimal(n: nat) -> Seq<char>
    decreases n,
{
    if n < 10 {
        seq![digit_char(n)]
    } else {
        decimal(n / 10).push(digit_char(n % 10))
    }
}

/// The decimal digits of a number behind a minus sign where it is negative.
pub open spec fn decimal_int(n: int) -> Seq<char> {
    if n < 0 {
        seq!['-'] + decimal((-n) as nat)
    } else {
        decimal(n as nat)
    }
}

pub open spec fn zeros(n: int) -> Seq<char> {
    Seq::new(if n > 0 { n as nat } else { 0 }, |i: int| '0')
}

/// The decimal digits, filled up with leading zeros to `width`.
pub open spec fn padded(n: nat, width: int) -> Seq<char> {
    zeros(width - decimal(n).len()) + decimal(n)
}

/// As `padded`, with the minus sign of a negative number inside the width.
pub open spec fn padded_int(n: int, width: int) -> Seq<char> {
    if n < 0 {
        seq!['-'] + padded((-n) as nat, width - 1)
    } else {
        padded(n as nat, width)
    }
}

proof fn lemma_value_prefix(s: Seq<char>, k: int)
    requires
        0 <= k <= s.len(),
    ensures
        value(s.take(k)) <= value(s),
    decreases s.len(),
{
    if k == s.len() {
        assert(s.take(k) == s);
    } else {
        lemma_value_prefix(s.drop_last(), k);
        assert(s.drop_last().take(k) == s.take(k));
    }
}

/// Reads the digits from position `from` on.
fn read_digits(chars: &Vec<char>, from: usize, max: u64) -> (r: Option<u64>)
    requires
        from <= chars@.len(),
        max >= 9,
    ensures
        (match r {
            Some(v) => Some(v as nat),
            None => None,
        }) == digits_value(chars@.skip(from as int), max as nat),
{
    let ghost s = chars@.skip(from as int);
    let mut i: usize = from;
    let mut acc: u64 = 0;
    if from == chars.len() {
        return None;
    }
    while i < chars.len()
        invariant
            from <= i <= chars@.len(),
            s == chars@.skip(from as int),
            acc <= max,
            max >= 9,
            acc == value(s.take(i - from)),
            forall|k: int| 0 <= k < i - from ==> is_digit(#[trigger] s[k]),
        decreases chars@.len() - i,
    {
        let c = chars[i];
        assert(s[i - from] == c);
        if !is_digit_char(c) {
            assert(!all_digits(s));
            return None;
        }
        let d: u64 = (c as u32 - '0' as u32) as u64;
        proof {
            let next = s.take(i - from + 1);
            assert(next.drop_last() == s.take(i - from));
            assert(value(next) == acc * 10 + d);
            lemma_value_prefix(s, i - from + 1);
        }
        if acc > (max - d) / 10 {
            return None;
        }
        acc = acc * 10 + d;
        i += 1;
    }
    assert(s.take(i - from) == s);
    Some(acc)
}

/// Reads a signed 64-bit number.
pub fn parse_i64(s: &str) -> (r: Option<i64>)
    ensures
        (match r {
            Some(v) => Some(v as int),
            None => None,
        }) == signed(s@, i64::MAX as nat),
{
    let chars = chars_of(s);
    assert(chars@.skip(0) == chars@);
    if chars.len() > 0 && chars[0] == '-' {
        match read_digits(&chars, 1, 0x8000_0000_0000_0000) {
            Some(v) => Some((0 - v as i128) as i64),
            None => None,
        }
    } else {
        let from: usize = if chars.len() > 0 && chars[0] == '+' {
            1
        } else {
            0
        };
        match read_digits(&chars, from, 0x7fff_ffff_ffff_ffff) {
            Some(v) => Some(v as i64),
            None => None,
        }
    }
}

/// Reads a signed 32-bit number.
pub fn parse_i32(s: &str) -> (r: Option<i32>)
    ensures
        (match r {
            Some(v) => Some(v as int),
            None => None,
        }) == signed(s@, i32::MAX as nat),
{
    match parse_i64(s) {
        Some(v) => if -0x8000_0000 <= v && v <= 0x7fff_ffff {
            Some(v as i32)
        } else {
            None
        },
        None => None,
    }
}

/// Reads an unsigned 32-bit number.
pub fn parse_u32(s: &str) -> (r: Option<u32>)
    ensures
        (match r {
            Some(v) => Some(v as nat),
            None => None,
        }) == unsigned(s@, u32::MAX as nat),
{
    let chars = chars_of(s);
    assert(chars@.skip(0) == chars@);
    let from: usize = if chars.len() > 0 && chars[0] == '+' {
        1
    } else {
        0
    };
    match read_digits(&chars, from, 0xffff_ffff) {
        Some(v) => Some(v as u32),
        None => None,
    }
}

/// Appends the decimal digits of a number.
pub fn push_decimal(out: &mut String, n: u64)
    ensures
        final(out)@ == old(out)@ + decimal(n as nat),
    decreases n,
{
    if n >= 10 {
        push_decimal(out, n / 10);
    }
    let d: u8 = (n % 10) as u8;
    out.push((48 + d) as char);
}

/// The decimal text of a number.
pub fn decimal_of(n: u64) -> (r: String)
    ensures
        r@ == decimal(n as nat),
{
    let mut out = String::new();
    push_decimal(&mut out, n);
    out
}

/// The decimal text of a signed number.
pub fn decimal_of_signed(n: i64) -> (r: String)
    ensures
        r@ == decimal_int(n as int),
{
    let mut out = String::new();
    if n < 0 {
        out.push('-');
        push_decimal(&mut out, (0 - n as i128) as u64);
    } else {
        push_decimal(&mut out, n as u64);
    }
    out
}

proof fn lemma_decimal_len(n: nat)
    ensures
        1 <= decimal(n).len(),
    decreases n,
{
    if n >= 10 {
        lemma_decimal_len(n / 10);
    }
}

fn decimal_width(n: u64) -> (r: usize)
    ensures
        r == decimal(n as nat).len(),
        r <= 20,
{
    let mut rest: u64 = n;
    let mut width: usize = 1;
    proof {
        reveal_with_fuel(ten_to, 21);
        lemma_decimal_bound(n as nat, 20);
    }
    while rest >= 10
        invariant
            decimal(n as nat).len() == width - 1 + decimal(rest as nat).len(),
            decimal(n as nat).len() <= 20,
        decreases rest,
    {
        proof {
            lemma_decimal_len((rest / 10) as nat);
        }
        rest = rest / 10;
        width += 1;
    }
    width
}

pub open spec fn ten_to(k: nat) -> nat
    decreases k,
{
    if k == 0 {
        1
    } else {
        10 * ten_to((k - 1) as nat)
    }
}

proof fn lemma_decimal_bound(n: nat, k: nat)
    requires
        n < ten_to(k),
        k > 0,
    ensures
        decimal(n).len() <= k,
    decreases k,
{
    if n >= 10 {
        assert(k > 1) by {
            if k == 1 {
                reveal_with_fuel(ten_to, 2);
            }
        }
        lemma_decimal_bound(n / 10, (k - 1) as nat);
    }
}

/// The decimal text of a number, filled up with zeros to `width`.
pub fn padded_of(n: u64, width: usize) -> (r: String)
    ensures
        r@ == padded(n as nat, width as int),
{
    let mut out = String::new();
    let have: usize = decimal_width(n);
    let mut i: usize = have;
    while i < width
        invariant
            have <= i,
            i <= width || width < have && i == have,
            out@ == zeros(i - have),
        decreases width - i,
    {
        out.push('0');
        i += 1;
        assert(out@ == zeros(i - have));
    }
    assert(zeros(width - have) == out@);
    push_decimal(&mut out, n);
    out
}

/// The decimal text of a signed number, filled up with zeros to `width`.
pub fn padded_of_signed(n: i32, width: usize) -> (r: String)
    requires
        width > 0,
    ensures
        r@ == padded_int(n as int, width as int),
{
    if n < 0 {
        let digits = padded_of((0 - n as i64) as u64, width - 1);
        let mut out = String::new();
        out.push('-');
        out.append(digits.as_str());
        assert(out@ == seq!['-'] + digits@);
        out
    } else {
        padded_of(n as u64, width)
    }
}

/// The decimal text of a number is digits that have the number for a value.
pub proof fn lemma_decimal_digits(n: nat)
    ensures
        value(decimal(n)) == n,
        all_digits(decimal(n)),
        decimal(n).len() > 0,
    decreases n,
{
    if n < 10 {
        let s = seq![digit_char(n)];
        assert(s.drop_last() == Seq::<char>::empty());
        assert(value(s.drop_last()) == 0);
    } else {
        lemma_decimal_digits(n / 10);
        let s = decimal(n);
        assert(s.drop_last() == decimal(n / 10));
        assert forall|i: int| 0 <= i < s.len() implies is_digit(#[trigger] s[i]) by {
            if i < s.len() - 1 {
                assert(s[i] == decimal(n / 10)[i]);
            }
        }
    }
}

/// A number that was written out reads back as itself.
pub proof fn law_decimal_reads_back(n: int, max: nat)
    requires
        -max - 1 <= n <= max,
    ensures
        signed(decimal_int(n), max) == Some(n),
        n >= 0 ==> unsigned(decimal_int(n), max) == Some(n as nat),
{
    if n < 0 {
        lemma_decimal_digits((-n) as nat);
        assert(decimal_int(n).skip(1) == decimal((-n) as nat));
    } else {
        lemma_decimal_digits(n as nat);
        assert(is_digit(decimal(n as nat)[0]));
    }
}

/// Leading zeros change neither the value nor that a text is all digits.
pub proof fn lemma_padded(n: nat, width: int)
    ensures
        value(padded(n, width)) == n,
        all_digits(padded(n, width)),
        padded(n, width).len() >= width,
        padded(n, width).len() >= 1,
        padded(n, width).len() == width || padded(n, width) == decimal(n),
{
    lemma_decimal_digits(n);
    lemma_value_append(zeros(width - decimal(n).len()), decimal(n));
    lemma_value_zeros(width - decimal(n).len());
    assert(zeros(0) + decimal(n) == decimal(n));
    if width - decimal(n).len() <= 0 {
        assert(padded(n, width) == decimal(n));
    }
}

/// A number of at most `width` digits fills up to exactly `width` characters.
pub proof fn lemma_short_padded(n: nat, width: nat)
    requires
        n < ten_to(width),
        width > 0,
    ensures
        padded(n, width as int).len() == width,
{
    lemma_padded(n, width as int);
    lemma_decimal_bound(n, width);
}

proof fn lemma_value_zeros(k: int)
    ensures
        value(zeros(k)) == 0,
    decreases k,
{
    if k > 0 {
        lemma_value_zeros(k - 1);
        assert(zeros(k).drop_last() == zeros(k - 1));
    }
}

/// The value of two rows of digits, one behind the other.
pub proof fn lemma_value_append(a: Seq<char>, b: Seq<char>)
    ensures
        value(a + b) == value(a) * ten_to(b.len()) + value(b),
    decreases b.len(),
{
    if b.len() == 0 {
        assert(a + b == a);
        assert(value(a) * ten_to(0) == value(a)) by {
            assert(ten_to(0) == 1);
        }
    } else {
        lemma_value_append(a, b.drop_last());
        assert((a + b).drop_last() == a + b.drop_last());
        let x = value(a);
        let t = ten_to((b.len() - 1) as nat);
        assert(x * (10 * t) == (x * t) * 10) by (nonlinear_arith);
        assert((a + b).last() == b.last());
        assert(ten_to(b.len()) == 10 * t);
    }
}

} // verus!
