//! Characters and short texts: ASCII classes, trimming, decimal numerals.

use vstd::prelude::*;
use vstd::utf8::{encode_scalar, encode_utf8};

verus! {

/// `String::push`: the text with the character added at its end.
pub assume_specification[ String::push ](s: &mut String, c: char)
    ensures
        final(s)@ == old(s)@.push(c),
;

/// Equality of string slices: the two texts hold the same characters.
pub assume_specification[ <str as PartialEq>::eq ](s: &str, other: &str) -> (res: bool)
    ensures
        res == (s@ == other@),
;

/// The characters of a text.
pub fn chars_of(s: &str) -> (v: Vec<char>)
    ensures
        v@ == s@,
{
    let mut v: Vec<char> = Vec::new();
    for c in it: s.chars()
        invariant
            v@ == it.seq().take(it.index()),
            it.seq() == s@,
    {
        v.push(c);
    }
    v
}

/// The text made of `v`'s characters.
pub fn string_of(v: &Vec<char>) -> (s: String)
    ensures
        s@ == v@,
{
    let mut s: String = String::new();
    for i in 0..v.len()
        invariant
            s@ == v@.take(i as int),
    {
        s.push(v[i]);
        assert(v@.take(i + 1) == v@.take(i as int).push(v@[i as int]));
    }
    assert(v@.take(v@.len() as int) == v@);
    s
}

/// The characters `v[from..to]`.
pub fn slice_of(v: &Vec<char>, from: usize, to: usize) -> (r: Vec<char>)
    requires
        from <= to <= v@.len(),
    ensures
        r@ == v@.subrange(from as int, to as int),
{
    let mut r: Vec<char> = Vec::new();
    for i in from..to
        invariant
            from <= to <= v@.len(),
            r@ == v@.subrange(from as int, i as int),
    {
        r.push(v[i]);
        assert(v@.subrange(from as int, i + 1) == v@.subrange(from as int, i as int).push(
            v@[i as int],
        ));
    }
    r
}

/// Adds the characters of `s` at the end of `out`.
pub fn push_all(out: &mut Vec<char>, s: &Vec<char>)
    ensures
        final(out)@ == old(out)@ + s@,
{
    let ghost before = out@;
    for i in 0..s.len()
        invariant
            out@ == before + s@.take(i as int),
    {
        out.push(s[i]);
        assert(s@.take(i + 1) == s@.take(i as int).push(s@[i as int]));
        assert(before + s@.take(i + 1) == (before + s@.take(i as int)).push(s@[i as int]));
    }
    assert(s@.take(s@.len() as int) == s@);
}

/// Adds the characters of `s` at the end of `out`.
pub fn push_text(out: &mut Vec<char>, s: &str)
    ensures
        final(out)@ == old(out)@ + s@,
{
    let v: Vec<char> = chars_of(s);
    push_all(out, &v);
}

/// Whether `v` holds exactly the characters of `s`.
pub fn text_is(v: &Vec<char>, s: &str) -> (r: bool)
    ensures
        r == (v@ == s@),
{
    let w: Vec<char> = chars_of(s);
    if v.len() != w.len() {
        return false;
    }
    for i in 0..v.len()
        invariant
            v@.len() == w@.len(),
            w@ == s@,
            v@.take(i as int) == w@.take(i as int),
    {
        if v[i] != w[i] {
            return false;
        }
        assert(v@.take(i + 1) == v@.take(i as int).push(v@[i as int]));
        assert(w@.take(i + 1) == w@.take(i as int).push(w@[i as int]));
    }
    assert(v@.take(v@.len() as int) == v@);
    assert(w@.take(w@.len() as int) == w@);
    true
}

/// Whether `v` starts with the characters of `s`.
pub fn starts_with(v: &Vec<char>, s: &str) -> (r: bool)
    ensures
        r == s@.is_prefix_of(v@),
{
    let w: Vec<char> = chars_of(s);
    if v.len() < w.len() {
        return false;
    }
    for i in 0..w.len()
        invariant
            v@.len() >= w@.len(),
            w@ == s@,
            forall|k: int| 0 <= k < i ==> v@[k] == w@[k],
    {
        if v[i] != w[i] {
            return false;
        }
    }
    assert(v@.subrange(0, w@.len() as int) == w@);
    true
}

/// How many bytes a text takes in UTF-8.
pub open spec fn byte_len(s: Seq<char>) -> nat {
    encode_utf8(s).len()
}

/// How many bytes a character takes in UTF-8.
pub open spec fn char_bytes(c: char) -> nat {
    if c as u32 <= 0x7f {
        1
    } else if c as u32 <= 0x7ff {
        2
    } else if c as u32 <= 0xffff {
        3
    } else {
        4
    }
}

pub fn width_of(c: char) -> (n: usize)
    ensures
        n == char_bytes(c),
{
    let u: u32 = c as u32;
    if u <= 0x7f {
        1
    } else if u <= 0x7ff {
        2
    } else if u <= 0xffff {
        3
    } else {
        4
    }
}

/// Two texts joined take the bytes of both.
pub proof fn lemma_byte_len_joined(a: Seq<char>, b: Seq<char>)
    ensures
        byte_len(a + b) == byte_len(a) + byte_len(b),
    decreases a.len(),
{
    if a.len() == 0 {
        assert(a + b =~= b);
    } else {
        lemma_byte_len_joined(a.drop_first(), b);
        assert((a + b).drop_first() =~= a.drop_first() + b);
    }
}

pub proof fn lemma_byte_len_one(c: char)
    ensures
        byte_len(seq![c]) == char_bytes(c),
{
    assert(seq![c].drop_first() =~= Seq::<char>::empty());
    assert(encode_utf8(seq![c]) == encode_scalar(c as u32) + encode_utf8(seq![c].drop_first()));
    assert(encode_utf8(Seq::<char>::empty()).len() == 0);
}

pub proof fn lemma_byte_len_push(a: Seq<char>, c: char)
    ensures
        byte_len(a.push(c)) == byte_len(a) + char_bytes(c),
{
    lemma_byte_len_joined(a, seq![c]);
    lemma_byte_len_one(c);
    assert(a + seq![c] =~= a.push(c));
}

/// A text takes at most four bytes per character.
pub proof fn lemma_byte_len_most(a: Seq<char>)
    ensures
        byte_len(a) <= 4 * a.len(),
    decreases a.len(),
{
    if a.len() == 0 {
        assert(a =~= Seq::<char>::empty());
        assert(vstd::utf8::encode_utf8(Seq::<char>::empty()).len() == 0);
    } else {
        lemma_byte_len_most(a.drop_last());
        lemma_byte_len_push(a.drop_last(), a.last());
        assert(a.drop_last().push(a.last()) =~= a);
    }
}

/// A text takes at least one byte per character.
pub proof fn lemma_byte_len_least(a: Seq<char>)
    ensures
        byte_len(a) >= a.len(),
    decreases a.len(),
{
    if a.len() > 0 {
        lemma_byte_len_least(a.drop_last());
        lemma_byte_len_push(a.drop_last(), a.last());
        assert(a.drop_last().push(a.last()) =~= a);
    }
}

/// How many bytes `s` takes in UTF-8.
pub fn bytes_in(s: &str) -> (n: usize)
    ensures
        n == byte_len(s@),
{
    s.as_bytes().len()
}

// ── classes ──────────────────────────────────────────────────────────────────

/// An ASCII letter in lower case; any other character as it is.
pub open spec fn ascii_lower(c: char) -> char {
    if 'A' <= c && c <= 'Z' {
        (c as u8 + 32) as u8 as char
    } else {
        c
    }
}

pub fn to_lower(c: char) -> (r: char)
    ensures
        r == ascii_lower(c),
{
    if 'A' <= c && c <= 'Z' {
        (c as u8 + 32) as char
    } else {
        c
    }
}

pub open spec fn ascii_lower_all(s: Seq<char>) -> Seq<char> {
    s.map_values(|c: char| ascii_lower(c))
}

pub fn to_lower_all(v: &Vec<char>) -> (r: Vec<char>)
    ensures
        r@ == ascii_lower_all(v@),
{
    let mut r: Vec<char> = Vec::new();
    for i in 0..v.len()
        invariant
            r@ == ascii_lower_all(v@.take(i as int)),
    {
        r.push(to_lower(v[i]));
        assert(ascii_lower_all(v@.take(i + 1)) == ascii_lower_all(v@.take(i as int)).push(
            ascii_lower(v@[i as int]),
        ));
    }
    assert(v@.take(v@.len() as int) == v@);
    r
}

pub open spec fn is_ascii_alpha(c: char) -> bool {
    ('A' <= c && c <= 'Z') || ('a' <= c && c <= 'z')
}

pub fn ascii_alpha(c: char) -> (r: bool)
    ensures
        r == is_ascii_alpha(c),
{
    ('A' <= c && c <= 'Z') || ('a' <= c && c <= 'z')
}

pub open spec fn is_digit(c: char) -> bool {
    '0' <= c && c <= '9'
}

pub fn digit(c: char) -> (r: bool)
    ensures
        r == is_digit(c),
{
    '0' <= c && c <= '9'
}

/// Every character is an ASCII digit.
pub open spec fn all_digits(s: Seq<char>) -> bool {
    forall|i: int| 0 <= i < s.len() ==> is_digit(#[trigger] s[i])
}

/// The characters with Unicode's `White_Space` property.
pub open spec fn is_space(c: char) -> bool {
    ||| '\u{0009}' <= c && c <= '\u{000d}'
    ||| c == '\u{0020}'
    ||| c == '\u{0085}'
    ||| c == '\u{00a0}'
    ||| c == '\u{1680}'
    ||| '\u{2000}' <= c && c <= '\u{200a}'
    ||| c == '\u{2028}'
    ||| c == '\u{2029}'
    ||| c == '\u{202f}'
    ||| c == '\u{205f}'
    ||| c == '\u{3000}'
}

pub fn space(c: char) -> (r: bool)
    ensures
        r == is_space(c),
{
    ('\u{0009}' <= c && c <= '\u{000d}') || c == '\u{0020}' || c == '\u{0085}' || c == '\u{00a0}'
        || c == '\u{1680}' || ('\u{2000}' <= c && c <= '\u{200a}') || c == '\u{2028}' || c
        == '\u{2029}' || c == '\u{202f}' || c == '\u{205f}' || c == '\u{3000}'
}

// ── trimming ─────────────────────────────────────────────────────────────────

/// Where the text's leading white space ends.
pub open spec fn trim_start_at(s: Seq<char>) -> nat
    decreases s.len(),
{
    if s.len() > 0 && is_space(s[0]) {
        1 + trim_start_at(s.skip(1))
    } else {
        0
    }
}

/// Where the text's trailing white space begins.
pub open spec fn trim_end_at(s: Seq<char>) -> nat
    decreases s.len(),
{
    if s.len() > 0 && is_space(s.last()) {
        trim_end_at(s.drop_last())
    } else {
        s.len()
    }
}

/// The text without the white space around it.
pub open spec fn trimmed(s: Seq<char>) -> Seq<char> {
    let t = s.skip(trim_start_at(s) as int);
    t.take(trim_end_at(t) as int)
}

proof fn lemma_trim_start_at(s: Seq<char>)
    ensures
        trim_start_at(s) <= s.len(),
    decreases s.len(),
{
    if s.len() > 0 && is_space(s[0]) {
        lemma_trim_start_at(s.skip(1));
    }
}

/// What is left starts and ends with a character that is no white space, or is empty.
pub proof fn law_trimmed_has_no_outer_space(s: Seq<char>)
    ensures
        trimmed(s).len() > 0 ==> !is_space(trimmed(s)[0]) && !is_space(trimmed(s).last()),
        trimmed(s).len() <= s.len(),
    decreases s.len(),
{
    lemma_trim_start_at(s);
    let t = s.skip(trim_start_at(s) as int);
    lemma_trim_start_stops(s);
    lemma_trim_end_stops(t);
}

proof fn lemma_trim_start_stops(s: Seq<char>)
    ensures
        trim_start_at(s) <= s.len(),
        trim_start_at(s) < s.len() ==> !is_space(s[trim_start_at(s) as int]),
    decreases s.len(),
{
    if s.len() > 0 && is_space(s[0]) {
        lemma_trim_start_stops(s.skip(1));
    }
}

proof fn lemma_trim_end_stops(s: Seq<char>)
    ensures
        trim_end_at(s) <= s.len(),
        trim_end_at(s) > 0 ==> !is_space(s[trim_end_at(s) - 1]),
    decreases s.len(),
{
    if s.len() > 0 && is_space(s.last()) {
        lemma_trim_end_stops(s.drop_last());
    }
}

/// A text without white space at its ends is trimmed as it is.
pub proof fn lemma_trimmed_already(s: Seq<char>)
    requires
        s.len() > 0 ==> !is_space(s[0]) && !is_space(s.last()),
    ensures
        trimmed(s) == s,
{
    assert(s.skip(0) =~= s);
    assert(s.take(s.len() as int) =~= s);
}

pub fn trim(v: &Vec<char>) -> (r: Vec<char>)
    ensures
        r@ == trimmed(v@),
{
    let mut a: usize = 0;
    assert(v@.skip(0) == v@);
    while a < v.len() && space(v[a])
        invariant
            a <= v@.len(),
            trim_start_at(v@) == a + trim_start_at(v@.skip(a as int)),
        decreases v@.len() - a,
    {
        assert(v@.skip(a as int).skip(1) == v@.skip(a + 1));
        a = a + 1;
    }
    let ghost t = v@.skip(a as int);
    let mut b: usize = v.len();
    assert(t.take(t.len() as int) == t);
    while b > a && space(v[b - 1])
        invariant
            a <= b <= v@.len(),
            t == v@.skip(a as int),
            trim_end_at(t) == trim_end_at(t.take(b - a)),
        decreases b,
    {
        assert(t.take(b - a).drop_last() == t.take(b - a - 1));
        b = b - 1;
    }
    assert(trim_start_at(v@) == a);
    assert(t.take(b - a).len() == 0 || !is_space(t.take(b - a).last()));
    assert(trim_end_at(t) == b - a);
    assert(v@.subrange(a as int, b as int) == t.take(b - a));
    slice_of(v, a, b)
}

// ── numerals ─────────────────────────────────────────────────────────────────

/// The digit that stands for `d`.
pub open spec fn digit_char(d: int) -> char
    recommends
        0 <= d < 10,
{
    (d + 48) as u8 as char
}

/// The number a digit stands for.
pub open spec fn digit_value(c: char) -> nat {
    (c as int - 48) as nat
}

/// The decimal numeral of `v`, without leading zeros.
pub open spec fn decimal(v: nat) -> Seq<char>
    decreases v,
{
    if v < 10 {
        seq![digit_char(v as int)]
    } else {
        decimal(v / 10).push(digit_char((v % 10) as int))
    }
}

/// The number a run of decimal digits stands for.
pub open spec fn decimal_value(s: Seq<char>) -> nat
    decreases s.len(),
{
    if s.len() == 0 {
        0
    } else {
        decimal_value(s.drop_last()) * 10 + digit_value(s.last())
    }
}

/// Reading a numeral back gives the number it was written for, and a numeral is
/// all digits.
pub proof fn law_decimal_reads_back(v: nat)
    ensures
        decimal_value(decimal(v)) == v,
        all_digits(decimal(v)),
        decimal(v).len() >= 1,
    decreases v,
{
    if v < 10 {
        assert(decimal(v).drop_last() == Seq::<char>::empty());
        assert(decimal_value(decimal(v).drop_last()) == 0);
        assert(digit_value(digit_char(v as int)) == v);
    } else {
        law_decimal_reads_back(v / 10);
        let d = digit_char((v % 10) as int);
        assert(decimal(v).drop_last() == decimal(v / 10));
        assert(digit_value(d) == v % 10);
        assert(is_digit(d));
    }
}

/// Writes the decimal numeral of `v` at the end of `out`.
pub fn push_u64(out: &mut Vec<char>, v: u64)
    ensures
        final(out)@ == old(out)@ + decimal(v as nat),
    decreases v,
{
    let ghost before = out@;
    let d: u8 = (v % 10) as u8;
    if v >= 10 {
        push_u64(out, v / 10);
        out.push((d + 48) as char);
        assert(before + decimal(v as nat) == (before + decimal((v / 10) as nat)).push(
            digit_char((v % 10) as int),
        ));
    } else {
        out.push((d + 48) as char);
        assert(before + decimal(v as nat) == before.push(digit_char((v % 10) as int)));
    }
}

/// The number that a run of digits stands for, where it fits in 32 bits.
pub open spec fn digits_u32(s: Seq<char>) -> Option<u32> {
    if s.len() > 0 && all_digits(s) && decimal_value(s) <= u32::MAX {
        Some(decimal_value(s) as u32)
    } else {
        None
    }
}

proof fn lemma_decimal_value_grows(s: Seq<char>, n: int)
    requires
        0 <= n <= s.len(),
    ensures
        decimal_value(s.take(n)) <= decimal_value(s),
    decreases s.len(),
{
    if n == s.len() {
        assert(s.take(n) == s);
    } else {
        assert(s.take(n) == s.drop_last().take(n));
        lemma_decimal_value_grows(s.drop_last(), n);
    }
}

pub fn read_digits(v: &Vec<char>) -> (r: Option<u32>)
    ensures
        r == digits_u32(v@),
{
    if v.len() == 0 {
        return None;
    }
    let mut n: u64 = 0;
    for i in 0..v.len()
        invariant
            all_digits(v@.take(i as int)),
            n == decimal_value(v@.take(i as int)),
            n <= u32::MAX,
    {
        let c: char = v[i];
        let ghost t = v@.take(i + 1);
        assert(t.drop_last() == v@.take(i as int));
        assert(t.last() == c);
        if !digit(c) {
            assert(!is_digit(v@[i as int]));
            return None;
        }
        n = n * 10 + (c as u64 - 48);
        assert(n == decimal_value(t));
        if n > 4294967295 {
            proof {
                lemma_decimal_value_grows(v@, i + 1);
            }
            return None;
        }
        assert(all_digits(t)) by {
            assert forall|k: int| 0 <= k < t.len() implies is_digit(#[trigger] t[k]) by {
                if k < i {
                    assert(v@.take(i as int)[k] == t[k]);
                }
            }
        }
    }
    assert(v@.take(v@.len() as int) == v@);
    Some(n as u32)
}

/// What `str::parse::<u32>` accepts: a run of digits that fits, with an optional
/// plus sign before it.
pub open spec fn parsed_u32(s: Seq<char>) -> Option<u32> {
    if s.len() > 0 && s[0] == '+' {
        digits_u32(s.skip(1))
    } else {
        digits_u32(s)
    }
}

pub fn parse_u32(v: &Vec<char>) -> (r: Option<u32>)
    ensures
        r == parsed_u32(v@),
{
    if v.len() > 0 && v[0] == '+' {
        let rest: Vec<char> = slice_of(v, 1, v.len());
        assert(v@.subrange(1, v@.len() as int) == v@.skip(1));
        read_digits(&rest)
    } else {
        read_digits(v)
    }
}

} // verus!
