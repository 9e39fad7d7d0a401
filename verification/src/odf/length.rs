//! Measurements, colours and the border shorthand, as a document states them.
//!
//! A measurement is a number and a unit. Lengths are held in fixed point: CSS pixels
//! at 96 to the inch, in units so small that a millionth of every accepted unit is a
//! whole number of them. Decimal places past the sixth are dropped, but for a number that
//! is nothing else: it counts as a millionth.

use vstd::prelude::*;
use crate::chars::{
    all_digits, ascii_lower_all, chars_of, decimal_value, digit, is_digit, is_space, push_all,
    push_text, slice_of, space, string_of, text_is, to_lower_all, trim, trimmed,
};
use crate::color::{fixed_text, push_fixed, Color, OPAQUE};
use crate::numfmt::digits::{
    digits_after_point, digits_before_point, first_digits, frac_digits, int_digits, padded_right,
};
use crate::odf::single::{is_tiny, vanishes};

pub mod laws;

verus! {

/// A length: so many 381 000 000ths of a CSS pixel.
pub type Px = i64;

/// A percentage: so many millionths of a percent.
pub type Pct = i64;

/// The units that make one pixel.
pub const PX: i64 = 381_000_000;

/// The units that make one percent.
pub const PERCENT: i64 = 1_000_000;

/// The widest length that is accepted, in pixels.
pub const MAX_ABS_PX: i64 = 1_000_000;

/// The largest percentage that is accepted.
pub const MAX_ABS_PCT: i64 = 100_000;

/// The thinnest border that is drawn, in pixels.
pub const MIN_BORDER_PX: i64 = 1;

/// A measurement as a document states it. A percentage is no length: what it is a
/// percentage of is for the caller to know.
#[derive(Clone, Copy, PartialEq, Eq, Debug, Structural)]
pub enum Measure {
    Px(Px),
    Percent(Pct),
}

// ── numbers and units ────────────────────────────────────────────────────────

/// Where a run of digits with at most one point ends.
pub open spec fn number_end(s: Seq<char>, i: int, dot: bool) -> int
    decreases s.len() - i,
{
    if 0 <= i < s.len() && is_digit(s[i]) {
        number_end(s, i + 1, dot)
    } else if 0 <= i < s.len() && s[i] == '.' && !dot {
        number_end(s, i + 1, true)
    } else {
        i
    }
}

pub open spec fn signed(s: Seq<char>) -> bool {
    s.len() > 0 && (s[0] == '+' || s[0] == '-')
}

/// Where the number that a text starts with ends.
pub open spec fn stated_end(s: Seq<char>) -> int {
    number_end(
        s,
        if signed(s) {
            1
        } else {
            0
        },
        false,
    )
}

/// The first six of a fraction's digits, with zeros where they run out.
pub open spec fn six_places(f: Seq<char>) -> Seq<char> {
    padded_right(
        if f.len() > 6 {
            f.take(6)
        } else {
            f
        },
        '0',
        6,
    )
}

/// The magnitude of a number, in millionths. Only what is zero in single precision is zero.
pub open spec fn millionths(n: Seq<char>) -> nat {
    let v = decimal_value(int_digits(n) + six_places(frac_digits(n)));
    if v == 0 && !vanishes(frac_digits(n), 0) {
        1
    } else {
        v
    }
}

/// The units of a pixel that a millionth of a unit of measure is; `None` for a name
/// that is no unit. A number without one counts pixels.
pub open spec fn unit_scale(unit: Seq<char>) -> Option<int> {
    if unit == "cm"@ {
        Some(14400)
    } else if unit == "mm"@ {
        Some(1440)
    } else if unit == "in"@ {
        Some(36576)
    } else if unit == "pt"@ {
        Some(508)
    } else if unit == "pc"@ {
        Some(6096)
    } else if unit == "px"@ || unit.len() == 0 {
        Some(381)
    } else {
        None
    }
}

/// The number's value, in millionths.
pub open spec fn stated_value(n: Seq<char>) -> int {
    if n.len() > 0 && n[0] == '-' {
        -(millionths(n) as int)
    } else {
        millionths(n) as int
    }
}

pub open spec fn within(v: int, most: int) -> bool {
    -most <= v <= most
}

/// What a text states: a sign, digits with at most one point among them, and a unit.
pub open spec fn measure_of(s: Seq<char>) -> Option<Measure> {
    let t = trimmed(s);
    let end = stated_end(t);
    let number = t.take(end);
    let unit = trimmed(t.skip(end));
    let v = stated_value(number);
    if int_digits(number).len() + frac_digits(number).len() == 0 {
        None
    } else if unit == "%"@ {
        if within(v, MAX_ABS_PCT * PERCENT) {
            Some(Measure::Percent(v as i64))
        } else {
            None
        }
    } else {
        match unit_scale(unit) {
            Some(scale) => if within(v * scale, MAX_ABS_PX * PX) {
                Some(Measure::Px((v * scale) as i64))
            } else {
                None
            },
            None => None,
        }
    }
}

pub open spec fn len_of(s: Seq<char>) -> Option<Px> {
    match measure_of(s) {
        Some(Measure::Px(v)) => Some(v),
        _ => None,
    }
}

pub open spec fn percent_of(s: Seq<char>) -> Option<Pct> {
    match measure_of(s) {
        Some(Measure::Percent(v)) => Some(v),
        _ => None,
    }
}

proof fn lemma_number_end(s: Seq<char>, i: int, dot: bool)
    requires
        0 <= i <= s.len(),
    ensures
        i <= number_end(s, i, dot) <= s.len(),
    decreases s.len() - i,
{
    if i < s.len() && is_digit(s[i]) {
        lemma_number_end(s, i + 1, dot);
    } else if i < s.len() && s[i] == '.' && !dot {
        lemma_number_end(s, i + 1, true);
    }
}

fn end_of_number(v: &Vec<char>) -> (end: usize)
    ensures
        end == stated_end(v@),
        end <= v@.len(),
{
    let mut i: usize = 0;
    if v.len() > 0 && (v[0] == '+' || v[0] == '-') {
        i = 1;
    }
    let mut dot: bool = false;
    while i < v.len() && (digit(v[i]) || (v[i] == '.' && !dot))
        invariant
            i <= v@.len(),
            number_end(v@, i as int, dot) == stated_end(v@),
        decreases v@.len() - i,
    {
        if v[i] == '.' {
            dot = true;
        }
        i = i + 1;
    }
    i
}

/// The numbers past this many millionths are out of bounds in every unit.
pub const MAX_MILLIONTHS: u64 = 2_000_000_000_000;

pub proof fn lemma_prefix_value(s: Seq<char>, n: int)
    requires
        0 <= n <= s.len(),
    ensures
        decimal_value(s.take(n)) <= decimal_value(s),
    decreases s.len(),
{
    if n == s.len() {
        assert(s.take(n) == s);
    } else {
        assert(s.take(n) == s.drop_last().take(n));
        lemma_prefix_value(s.drop_last(), n);
    }
}

/// The value of a run of digits, unless it is past `MAX_MILLIONTHS`.
fn capped_value(v: &Vec<char>) -> (r: Option<u64>)
    requires
        all_digits(v@),
    ensures
        r is Some == (decimal_value(v@) <= MAX_MILLIONTHS),
        r matches Some(n) ==> n == decimal_value(v@),
{
    let mut n: u64 = 0;
    for i in 0..v.len()
        invariant
            all_digits(v@),
            n == decimal_value(v@.take(i as int)),
            n <= MAX_MILLIONTHS,
    {
        let ghost t = v@.take(i + 1);
        assert(t.drop_last() =~= v@.take(i as int));
        assert(is_digit(v@[i as int]));
        n = n * 10 + (v[i] as u64 - 48);
        assert(n == decimal_value(t));
        if n > MAX_MILLIONTHS {
            proof {
                lemma_prefix_value(v@, i + 1);
            }
            return None;
        }
    }
    assert(v@.take(v@.len() as int) =~= v@);
    Some(n)
}

fn scale_of(unit: &Vec<char>) -> (r: Option<i64>)
    ensures
        r is Some == unit_scale(unit@) is Some,
        r matches Some(k) ==> k == unit_scale(unit@)->0 && 381 <= k <= 36576,
{
    if text_is(unit, "cm") {
        Some(14400)
    } else if text_is(unit, "mm") {
        Some(1440)
    } else if text_is(unit, "in") {
        Some(36576)
    } else if text_is(unit, "pt") {
        Some(508)
    } else if text_is(unit, "pc") {
        Some(6096)
    } else if text_is(unit, "px") || unit.len() == 0 {
        Some(381)
    } else {
        None
    }
}

fn magnitude_of(number: &Vec<char>) -> (r: Option<Option<u64>>)
    ensures
        r is None == (int_digits(number@).len() + frac_digits(number@).len() == 0),
        r matches Some(None) ==> millionths(number@) > MAX_MILLIONTHS,
        r matches Some(Some(n)) ==> n == millionths(number@) && n <= MAX_MILLIONTHS,
{
    let ints: Vec<char> = digits_before_point(number);
    let frac: Vec<char> = digits_after_point(number);
    if ints.len() == 0 && frac.len() == 0 {
        return None;
    }
    let ghost whole = ints@;
    let digits: Vec<char> = first_digits(ints, &frac, 6);
    assert(digits@ =~= whole + six_places(frac@));
    match capped_value(&digits) {
        Some(0) => if is_tiny(&frac, 0) {
            Some(Some(0))
        } else {
            Some(Some(1))
        },
        v => Some(v),
    }
}

/// Reads a measurement. `None` for what is none, and for a magnitude past all sense.
pub fn parse_measure(s: &str) -> (r: Option<Measure>)
    ensures
        r == measure_of(s@),
{
    let t: Vec<char> = trim(&chars_of(s));
    let end: usize = end_of_number(&t);
    let number: Vec<char> = slice_of(&t, 0, end);
    assert(number@ =~= t@.take(end as int));
    let rest: Vec<char> = slice_of(&t, end, t.len());
    assert(rest@ =~= t@.skip(end as int));
    let unit: Vec<char> = trim(&rest);
    let mag: u64 = match magnitude_of(&number) {
        None => {
            return None;
        },
        Some(None) => {
            proof {
                lemma_out_of_bounds(millionths(number@) as int);
            }
            return None;
        },
        Some(Some(n)) => n,
    };
    let v: i64 = if number.len() > 0 && number[0] == '-' {
        -(mag as i64)
    } else {
        mag as i64
    };
    if text_is(&unit, "%") {
        return if -MAX_ABS_PCT * PERCENT <= v && v <= MAX_ABS_PCT * PERCENT {
            Some(Measure::Percent(v))
        } else {
            None
        };
    }
    let scale: i64 = match scale_of(&unit) {
        Some(k) => k,
        None => {
            return None;
        },
    };
    assert(-80_000_000_000_000_000 <= v * scale <= 80_000_000_000_000_000) by (nonlinear_arith)
        requires
            -2_000_000_000_000 <= v <= 2_000_000_000_000,
            381 <= scale <= 36576,
    ;
    let px: i64 = v * scale;
    if -MAX_ABS_PX * PX <= px && px <= MAX_ABS_PX * PX {
        Some(Measure::Px(px))
    } else {
        None
    }
}

proof fn lemma_out_of_bounds(v: int)
    requires
        v > MAX_MILLIONTHS,
    ensures
        !within(v, MAX_ABS_PCT * PERCENT),
        !within(-v, MAX_ABS_PCT * PERCENT),
        forall|k: int| 381 <= k ==> !within(#[trigger] (v * k), MAX_ABS_PX * PX),
        forall|k: int| 381 <= k ==> !within(#[trigger] ((-v) * k), MAX_ABS_PX * PX),
{
    assert forall|k: int| 381 <= k implies !within(#[trigger] (v * k), MAX_ABS_PX * PX) by {
        assert(v * k > 381_000_000_000_000) by (nonlinear_arith)
            requires
                v > 2_000_000_000_000,
                k >= 381,
        ;
    }
    assert forall|k: int| 381 <= k implies !within(#[trigger] ((-v) * k), MAX_ABS_PX * PX) by {
        assert((-v) * k < -381_000_000_000_000) by (nonlinear_arith)
            requires
                v > 2_000_000_000_000,
                k >= 381,
        ;
    }
}

/// A length. A percentage is refused.
pub fn parse_len(s: &str) -> (r: Option<Px>)
    ensures
        r == len_of(s@),
{
    match parse_measure(s) {
        Some(Measure::Px(v)) => Some(v),
        _ => None,
    }
}

/// The number before a percent sign. A length is refused.
pub fn parse_percent(s: &str) -> (r: Option<Pct>)
    ensures
        r == percent_of(s@),
{
    match parse_measure(s) {
        Some(Measure::Percent(v)) => Some(v),
        _ => None,
    }
}

/// A length that was read is within bounds.
pub proof fn law_lengths_are_bounded(s: Seq<char>)
    ensures
        len_of(s) matches Some(v) ==> within(v as int, MAX_ABS_PX * PX),
        percent_of(s) matches Some(v) ==> within(v as int, MAX_ABS_PCT * PERCENT),
        !(len_of(s) is Some && percent_of(s) is Some),
{
}

pub open spec fn clamped(v: int, min: int, max: int) -> int {
    if min > max || v < min {
        min
    } else if v > max {
        max
    } else {
        v
    }
}

/// `v` confined to `[min, max]`; `min` where the range is empty.
pub fn clamp_px(v: Px, min: Px, max: Px) -> (r: Px)
    ensures
        r == clamped(v as int, min as int, max as int),
{
    if min > max || v < min {
        min
    } else if v > max {
        max
    } else {
        v
    }
}

// ── colour ───────────────────────────────────────────────────────────────────

pub open spec fn is_hex(c: char) -> bool {
    is_digit(c) || ('a' <= c && c <= 'f') || ('A' <= c && c <= 'F')
}

pub open spec fn hex_digit(c: char) -> int {
    if is_digit(c) {
        c as int - 48
    } else if 'a' <= c && c <= 'f' {
        c as int - 87
    } else {
        c as int - 55
    }
}

/// The value of a run of hexadecimal digits.
pub open spec fn hex_value(s: Seq<char>) -> int
    decreases s.len(),
{
    if s.len() == 0 {
        0
    } else {
        hex_value(s.drop_last()) * 16 + hex_digit(s.last())
    }
}

pub open spec fn all_hex(s: Seq<char>) -> bool {
    forall|k: int| 0 <= k < s.len() ==> is_hex(#[trigger] s[k])
}

/// `#rrggbb`, or the word `transparent`, which is a colour of no alpha.
pub open spec fn color_of(s: Seq<char>) -> Option<Color> {
    let t = trimmed(s);
    if ascii_lower_all(t) == "transparent"@ {
        Some(Color { rgb: 0, alpha: 0 })
    } else if t.len() == 7 && t[0] == '#' && all_hex(t.skip(1)) {
        Some(Color { rgb: hex_value(t.skip(1)) as u32, alpha: OPAQUE })
    } else {
        None
    }
}

fn hex_of(c: char) -> (r: Option<u32>)
    ensures
        r is Some == is_hex(c),
        r matches Some(d) ==> d == hex_digit(c) && d < 16,
{
    if digit(c) {
        Some(c as u32 - 48)
    } else if 'a' <= c && c <= 'f' {
        Some(c as u32 - 87)
    } else if 'A' <= c && c <= 'F' {
        Some(c as u32 - 55)
    } else {
        None
    }
}

/// Reads a colour. `transparent` is a stated value, so that it can override.
pub fn parse_color(s: &str) -> (r: Option<Color>)
    ensures
        r == color_of(s@),
{
    let t: Vec<char> = trim(&chars_of(s));
    if text_is(&to_lower_all(&t), "transparent") {
        return Some(Color { rgb: 0, alpha: 0 });
    }
    if t.len() != 7 || t[0] != '#' {
        return None;
    }
    let ghost h = t@.skip(1);
    let mut v: u32 = 0;
    assert(h.take(0) =~= Seq::<char>::empty());
    for i in 1..7usize
        invariant
            t@.len() == 7,
            h == t@.skip(1),
            t@ == trimmed(s@),
            ascii_lower_all(t@) != "transparent"@,
            t@[0] == '#',
            v == hex_value(h.take(i - 1)),
            i == 1 ==> v == 0,
            i == 2 ==> v < 0x10,
            i == 3 ==> v < 0x100,
            i == 4 ==> v < 0x1000,
            i == 5 ==> v < 0x10000,
            i == 6 ==> v < 0x100000,
            i == 7 ==> v < 0x1000000,
            forall|k: int| 0 <= k < i - 1 ==> is_hex(#[trigger] h[k]),
    {
        assert(h[i - 1] == t@[i as int]);
        match hex_of(t[i]) {
            Some(d) => {
                assert(h.take(i as int).drop_last() =~= h.take(i - 1));
                v = v * 16 + d;
            },
            None => {
                assert(!is_hex(h[i - 1]));
                return None;
            },
        }
    }
    assert(h.take(6) =~= h);
    Some(Color::from_rgb(v))
}

// ── border shorthand ─────────────────────────────────────────────────────────

/// A line's style, as CSS names it.
#[derive(Clone, Copy, PartialEq, Eq, Debug, Structural)]
pub enum BorderStyle {
    Solid,
    Double,
    Dotted,
    Dashed,
    Groove,
    Ridge,
    Inset,
    Outset,
}

impl BorderStyle {
    pub open spec fn word(self) -> Seq<char> {
        match self {
            BorderStyle::Solid => "solid"@,
            BorderStyle::Double => "double"@,
            BorderStyle::Dotted => "dotted"@,
            BorderStyle::Dashed => "dashed"@,
            BorderStyle::Groove => "groove"@,
            BorderStyle::Ridge => "ridge"@,
            BorderStyle::Inset => "inset"@,
            BorderStyle::Outset => "outset"@,
        }
    }

    /// The `border-style` keyword.
    pub fn css(self) -> (r: &'static str)
        ensures
            r@ == self.word(),
    {
        match self {
            BorderStyle::Solid => "solid",
            BorderStyle::Double => "double",
            BorderStyle::Dotted => "dotted",
            BorderStyle::Dashed => "dashed",
            BorderStyle::Groove => "groove",
            BorderStyle::Ridge => "ridge",
            BorderStyle::Inset => "inset",
            BorderStyle::Outset => "outset",
        }
    }
}

/// One edge of a box.
#[derive(Clone, Copy, PartialEq, Eq, Debug, Structural)]
pub struct Border {
    /// Never below `MIN_BORDER_PX`.
    pub width_px: Px,
    pub style: BorderStyle,
    /// `None` means the text's own colour.
    pub color: Option<Color>,
}

/// The two words that say there is no border.
pub open spec fn says_no_border(tok: Seq<char>) -> bool {
    tok == "none"@ || tok == "hidden"@
}

pub open spec fn style_named(tok: Seq<char>) -> Option<BorderStyle> {
    if tok == "solid"@ {
        Some(BorderStyle::Solid)
    } else if tok == "double"@ {
        Some(BorderStyle::Double)
    } else if tok == "dotted"@ {
        Some(BorderStyle::Dotted)
    } else if tok == "dashed"@ {
        Some(BorderStyle::Dashed)
    } else if tok == "groove"@ {
        Some(BorderStyle::Groove)
    } else if tok == "ridge"@ {
        Some(BorderStyle::Ridge)
    } else if tok == "inset"@ {
        Some(BorderStyle::Inset)
    } else if tok == "outset"@ {
        Some(BorderStyle::Outset)
    } else {
        None
    }
}

fn border_style(tok: &Vec<char>) -> (r: Option<BorderStyle>)
    ensures
        r == style_named(tok@),
{
    if text_is(tok, "solid") {
        Some(BorderStyle::Solid)
    } else if text_is(tok, "double") {
        Some(BorderStyle::Double)
    } else if text_is(tok, "dotted") {
        Some(BorderStyle::Dotted)
    } else if text_is(tok, "dashed") {
        Some(BorderStyle::Dashed)
    } else if text_is(tok, "groove") {
        Some(BorderStyle::Groove)
    } else if text_is(tok, "ridge") {
        Some(BorderStyle::Ridge)
    } else if text_is(tok, "inset") {
        Some(BorderStyle::Inset)
    } else if text_is(tok, "outset") {
        Some(BorderStyle::Outset)
    } else {
        None
    }
}

/// The words of a text, from `i` on.
pub open spec fn words_from(s: Seq<char>, i: int) -> Seq<Seq<char>>
    decreases s.len() - i,
{
    if i < 0 || i >= s.len() {
        Seq::empty()
    } else if is_space(s[i]) {
        words_from(s, i + 1)
    } else {
        let end = word_stop(s, i);
        proof {
            lemma_word_stop(s, i);
            lemma_word_stop(s, i + 1);
        }
        seq![s.subrange(i, end)] + words_from(s, end)
    }
}

/// Where the word at `i` ends.
pub open spec fn word_stop(s: Seq<char>, i: int) -> int
    decreases s.len() - i,
{
    if 0 <= i < s.len() && !is_space(s[i]) {
        word_stop(s, i + 1)
    } else {
        i
    }
}

pub proof fn lemma_word_stop(s: Seq<char>, i: int)
    requires
        0 <= i <= s.len(),
    ensures
        i <= word_stop(s, i) <= s.len(),
    decreases s.len() - i,
{
    if i < s.len() && !is_space(s[i]) {
        lemma_word_stop(s, i + 1);
    }
}

/// The views of a list of texts.
pub open spec fn texts(v: Seq<Vec<char>>) -> Seq<Seq<char>> {
    v.map_values(|w: Vec<char>| w@)
}

/// The words of a text, which white space parts.
pub fn words(v: &Vec<char>) -> (r: Vec<Vec<char>>)
    ensures
        texts(r@) == words_from(v@, 0),
{
    let mut r: Vec<Vec<char>> = Vec::new();
    let mut i: usize = 0;
    assert(texts(r@) =~= Seq::<Seq<char>>::empty());
    assert(texts(r@) + words_from(v@, 0) =~= words_from(v@, 0));
    while i < v.len()
        invariant
            i <= v@.len(),
            texts(r@) + words_from(v@, i as int) == words_from(v@, 0),
        decreases v@.len() - i,
    {
        if space(v[i]) {
            i = i + 1;
        } else {
            let start: usize = i;
            while i < v.len() && !space(v[i])
                invariant
                    start <= i <= v@.len(),
                    word_stop(v@, i as int) == word_stop(v@, start as int),
                decreases v@.len() - i,
            {
                i = i + 1;
            }
            let w: Vec<char> = slice_of(v, start, i);
            let ghost before = texts(r@);
            r.push(w);
            assert(texts(r@) =~= before.push(w@));
            assert(before + words_from(v@, start as int) =~= texts(r@) + words_from(
                v@,
                i as int,
            ));
        }
    }
    assert(texts(r@) + words_from(v@, i as int) =~= texts(r@));
    r
}

/// Texts with a character between each two.
pub open spec fn joined_by(v: Seq<Seq<char>>, sep: char) -> Seq<char>
    decreases v.len(),
{
    if v.len() == 0 {
        Seq::empty()
    } else if v.len() == 1 {
        v[0]
    } else {
        joined_by(v.drop_last(), sep) + seq![sep] + v.last()
    }
}

/// Joins texts.
pub fn join_by(v: &Vec<Vec<char>>, sep: char) -> (r: Vec<char>)
    ensures
        r@ == joined_by(texts(v@), sep),
{
    let ghost ts = texts(v@);
    let mut out: Vec<char> = Vec::new();
    assert(ts.take(0) =~= Seq::<Seq<char>>::empty());
    for i in 0..v.len()
        invariant
            ts == texts(v@),
            out@ == joined_by(ts.take(i as int), sep),
    {
        assert(ts.take(i + 1).drop_last() =~= ts.take(i as int));
        assert(ts.take(i + 1).last() == v@[i as int]@);
        let ghost before = out@;
        if i > 0 {
            out.push(sep);
        }
        push_all(&mut out, &v[i]);
        if i == 0 {
            assert(ts.take(1)[0] == v@[0]@);
            assert(out@ =~= joined_by(ts.take(1), sep));
        } else {
            assert(out@ =~= before + seq![sep] + v@[i as int]@);
        }
    }
    assert(ts.take(ts.len() as int) =~= ts);
    out
}

/// What the words of a shorthand state so far.
#[verifier::ext_equal]
pub struct Stated {
    pub width: Option<Px>,
    pub style: Option<BorderStyle>,
    pub color: Option<Color>,
    /// `none` or `hidden` stands among them.
    pub off: bool,
}

/// The pieces of a border shorthand, told apart by what they are and not by where
/// they stand. A later piece of a kind replaces an earlier one.
pub open spec fn border_pieces(toks: Seq<Seq<char>>) -> Stated
    decreases toks.len(),
{
    if toks.len() == 0 {
        Stated { width: None, style: None, color: None, off: false }
    } else {
        let st = border_pieces(toks.drop_last());
        let t = toks.last();
        if says_no_border(t) {
            Stated { off: true, ..st }
        } else {
            match style_named(t) {
                Some(k) => Stated { style: Some(k), ..st },
                None => match len_of(t) {
                    Some(w) => Stated { width: Some(w), ..st },
                    None => match color_of(t) {
                        Some(c) => Stated { color: Some(c), ..st },
                        None => st,
                    },
                },
            }
        }
    }
}

/// What a border shorthand states; `None` for no border and for nothing usable.
pub open spec fn border_of(s: Seq<char>) -> Option<Border> {
    let st = border_pieces(words_from(s, 0));
    let least = MIN_BORDER_PX * PX;
    if st.off || (st.width is None && st.style is None && st.color is None) {
        None
    } else {
        Some(
            Border {
                width_px: match st.width {
                    Some(w) => if w > least {
                        w
                    } else {
                        least as i64
                    },
                    None => least as i64,
                },
                style: match st.style {
                    Some(k) => k,
                    None => BorderStyle::Solid,
                },
                color: st.color,
            },
        )
    }
}

proof fn lemma_off_stays(toks: Seq<Seq<char>>, n: int)
    requires
        0 <= n <= toks.len(),
        border_pieces(toks.take(n)).off,
    ensures
        border_pieces(toks).off,
    decreases toks.len(),
{
    if n == toks.len() {
        assert(toks.take(n) =~= toks);
    } else {
        assert(toks.take(n) =~= toks.drop_last().take(n));
        lemma_off_stays(toks.drop_last(), n);
    }
}

/// Reads a border shorthand such as `0.5pt solid #000000`. A border that is stated is
/// drawn, be it ever so thin.
pub fn parse_border(s: &str) -> (r: Option<Border>)
    ensures
        r == border_of(s@),
{
    let toks: Vec<Vec<char>> = words(&chars_of(s));
    let ghost ws = words_from(s@, 0);
    let mut width: Option<Px> = None;
    let mut style: Option<BorderStyle> = None;
    let mut color: Option<Color> = None;
    assert(ws.take(0) =~= Seq::<Seq<char>>::empty());
    for i in 0..toks.len()
        invariant
            texts(toks@) == ws,
            ws == words_from(s@, 0),
            border_pieces(ws.take(i as int)) == (Stated {
                width,
                style,
                color,
                off: false,
            }),
    {
        let tok: &Vec<char> = &toks[i];
        assert(ws.take(i + 1).drop_last() =~= ws.take(i as int));
        assert(ws.take(i + 1).last() == tok@);
        if text_is(tok, "none") || text_is(tok, "hidden") {
            proof {
                lemma_off_stays(ws, i + 1);
            }
            return None;
        }
        if let Some(k) = border_style(tok) {
            style = Some(k);
        } else {
            let text: String = string_of(tok);
            if let Some(w) = parse_len(text.as_str()) {
                width = Some(w);
            } else if let Some(c) = parse_color(text.as_str()) {
                color = Some(c);
            }
        }
    }
    assert(ws.take(ws.len() as int) =~= ws);
    if width.is_none() && style.is_none() && color.is_none() {
        return None;
    }
    let least: i64 = MIN_BORDER_PX * PX;
    Some(
        Border {
            width_px: match width {
                Some(w) => if w > least {
                    w
                } else {
                    least
                },
                None => least,
            },
            style: match style {
                Some(k) => k,
                None => BorderStyle::Solid,
            },
            color,
        },
    )
}

/// A border that was read is drawn: it is at least a pixel wide.
pub proof fn law_stated_border_is_visible(s: Seq<char>)
    ensures
        border_of(s) matches Some(b) ==> b.width_px >= MIN_BORDER_PX * PX,
{
}

/// What a word of a border shorthand is.
pub enum Piece {
    /// `none` or `hidden`.
    Off,
    Style,
    Width,
    Color,
    /// Nothing that a border states.
    Other,
}

pub open spec fn piece_of(t: Seq<char>) -> Piece {
    if says_no_border(t) {
        Piece::Off
    } else if style_named(t) is Some {
        Piece::Style
    } else if len_of(t) is Some {
        Piece::Width
    } else if color_of(t) is Some {
        Piece::Color
    } else {
        Piece::Other
    }
}

/// There are no two different widths among the words, nor two styles or two colours.
pub open spec fn one_of_each(toks: Seq<Seq<char>>) -> bool {
    forall|a: Seq<char>, b: Seq<char>|
        #![trigger toks.contains(a), toks.contains(b)]
        toks.contains(a) && toks.contains(b) && piece_of(a) == piece_of(b) && (piece_of(a)
            == Piece::Style || piece_of(a) == Piece::Width || piece_of(a) == Piece::Color) ==> a
            == b
}

pub open spec fn has_piece(toks: Seq<Seq<char>>, p: Piece) -> bool {
    exists|t: Seq<char>| #[trigger] toks.contains(t) && piece_of(t) == p
}

proof fn lemma_all_but_last(toks: Seq<Seq<char>>)
    requires
        toks.len() > 0,
    ensures
        toks.contains(toks.last()),
        forall|t: Seq<char>| #[trigger] toks.drop_last().contains(t) ==> toks.contains(t),
        forall|t: Seq<char>| #[trigger]
            toks.contains(t) ==> toks.drop_last().contains(t) || t == toks.last(),
{
    let d = toks.drop_last();
    assert(toks[toks.len() - 1] == toks.last());
    assert forall|t: Seq<char>| #[trigger] d.contains(t) implies toks.contains(t) by {
        let k = choose|k: int| 0 <= k < d.len() && d[k] == t;
        assert(toks[k] == t);
    }
    assert forall|t: Seq<char>| #[trigger] toks.contains(t) implies d.contains(t) || t
        == toks.last() by {
        let k = choose|k: int| 0 <= k < toks.len() && toks[k] == t;
        if k < d.len() {
            assert(d[k] == t);
        }
    }
}

/// Something is stated so far where a word states it.
proof fn lemma_kinds(toks: Seq<Seq<char>>)
    ensures
        ({
            let st = border_pieces(toks);
            &&& st.off == has_piece(toks, Piece::Off)
            &&& (st.width is Some) == has_piece(toks, Piece::Width)
            &&& (st.style is Some) == has_piece(toks, Piece::Style)
            &&& (st.color is Some) == has_piece(toks, Piece::Color)
        }),
    decreases toks.len(),
{
    if toks.len() > 0 {
        let d = toks.drop_last();
        let last = toks.last();
        lemma_all_but_last(toks);
        lemma_kinds(d);
        assert forall|p: Piece| #[trigger] has_piece(toks, p) == (has_piece(d, p) || piece_of(last)
            == p) by {
            if has_piece(toks, p) {
                let t = choose|t: Seq<char>| #[trigger] toks.contains(t) && piece_of(t) == p;
                assert(d.contains(t) || t == last);
            }
            if has_piece(d, p) {
                let t = choose|t: Seq<char>| #[trigger] d.contains(t) && piece_of(t) == p;
                assert(toks.contains(t));
            }
        }
    }
}

/// What is stated so far is what the words themselves state.
proof fn lemma_pieces(toks: Seq<Seq<char>>)
    requires
        one_of_each(toks),
    ensures
        ({
            let st = border_pieces(toks);
            forall|t: Seq<char>|
                #[trigger] toks.contains(t) ==> {
                    &&& piece_of(t) == Piece::Width ==> st.width == len_of(t)
                    &&& piece_of(t) == Piece::Style ==> st.style == style_named(t)
                    &&& piece_of(t) == Piece::Color ==> st.color == color_of(t)
                }
        }),
    decreases toks.len(),
{
    if toks.len() > 0 {
        let d = toks.drop_last();
        let last = toks.last();
        let st = border_pieces(toks);
        lemma_all_but_last(toks);
        assert(one_of_each(d));
        lemma_pieces(d);
        assert forall|t: Seq<char>| #[trigger] toks.contains(t) implies {
            &&& piece_of(t) == Piece::Width ==> st.width == len_of(t)
            &&& piece_of(t) == Piece::Style ==> st.style == style_named(t)
            &&& piece_of(t) == Piece::Color ==> st.color == color_of(t)
        } by {
            assert(d.contains(t) || t == last);
            if piece_of(t) == piece_of(last) && (piece_of(t) == Piece::Style || piece_of(t)
                == Piece::Width || piece_of(t) == Piece::Color) {
                assert(t == last);
            }
        }
    }
}

/// The order of a shorthand's words is of no account: the same words in another order,
/// with no two different widths, styles or colours among them, state the same border.
pub proof fn law_border_words_come_in_any_order(s: Seq<char>, other: Seq<char>)
    requires
        words_from(s, 0).to_multiset() == words_from(other, 0).to_multiset(),
        one_of_each(words_from(s, 0)),
    ensures
        border_of(s) == border_of(other),
{
    let a = words_from(s, 0);
    let b = words_from(other, 0);
    a.to_multiset_ensures();
    b.to_multiset_ensures();
    assert forall|t: Seq<char>| #[trigger] a.contains(t) == b.contains(t) by {
        assert(a.contains(t) <==> a.to_multiset().count(t) > 0);
        assert(b.contains(t) <==> b.to_multiset().count(t) > 0);
    }
    assert(one_of_each(b)) by {
        assert forall|x: Seq<char>, y: Seq<char>|
            #![trigger b.contains(x), b.contains(y)]
            b.contains(x) && b.contains(y) && piece_of(x) == piece_of(y) && (piece_of(x)
                == Piece::Style || piece_of(x) == Piece::Width || piece_of(x)
                == Piece::Color) implies x == y by {
            assert(a.contains(x) && a.contains(y));
        }
    }
    lemma_kinds(a);
    lemma_kinds(b);
    lemma_pieces(a);
    lemma_pieces(b);
    assert forall|p: Piece| #[trigger] has_piece(a, p) == has_piece(b, p) by {
        if has_piece(a, p) {
            let t = choose|t: Seq<char>| #[trigger] a.contains(t) && piece_of(t) == p;
            assert(b.contains(t));
        }
        if has_piece(b, p) {
            let t = choose|t: Seq<char>| #[trigger] b.contains(t) && piece_of(t) == p;
            assert(a.contains(t));
        }
    }
    let sa = border_pieces(a);
    let sb = border_pieces(b);
    if sa.width is Some {
        let t = choose|t: Seq<char>| #[trigger] a.contains(t) && piece_of(t) == Piece::Width;
        assert(a.contains(t) && b.contains(t));
    }
    if sa.style is Some {
        let t = choose|t: Seq<char>| #[trigger] a.contains(t) && piece_of(t) == Piece::Style;
        assert(a.contains(t) && b.contains(t));
    }
    if sa.color is Some {
        let t = choose|t: Seq<char>| #[trigger] a.contains(t) && piece_of(t) == Piece::Color;
        assert(a.contains(t) && b.contains(t));
    }
    assert(has_piece(a, Piece::Off) == has_piece(b, Piece::Off));
    assert(has_piece(a, Piece::Width) == has_piece(b, Piece::Width));
    assert(has_piece(a, Piece::Style) == has_piece(b, Piece::Style));
    assert(has_piece(a, Piece::Color) == has_piece(b, Piece::Color));
    assert(sa =~= sb);
}

/// There is a border where some word states a part of one and none switches it off. Left
/// unstated, its style is a solid line and its colour the text's.
pub proof fn law_when_there_is_a_border(s: Seq<char>)
    ensures
        ({
            let ws = words_from(s, 0);
            &&& border_of(s) is None <==> has_piece(ws, Piece::Off) || !(has_piece(
                ws,
                Piece::Width,
            ) || has_piece(ws, Piece::Style) || has_piece(ws, Piece::Color))
            &&& border_of(s) matches Some(b) ==> {
                &&& !has_piece(ws, Piece::Style) ==> b.style == BorderStyle::Solid
                &&& !has_piece(ws, Piece::Color) ==> b.color is None
            }
        }),
{
    lemma_kinds(words_from(s, 0));
}

/// A length in pixels with at most two decimal places.
pub open spec fn px_text(v: Px) -> Seq<char> {
    fixed_text(v as int, PX as int) + "px"@
}

/// Writes a length in pixels with at most two decimal places.
pub fn push_px(out: &mut Vec<char>, v: Px)
    ensures
        final(out)@ == old(out)@ + px_text(v),
{
    let ghost before = out@;
    push_fixed(out, v, 381_000_000);
    push_text(out, "px");
    assert(out@ =~= before + px_text(v));
}

impl Border {
    pub open spec fn css_text(self) -> Seq<char> {
        px_text(self.width_px) + seq![' '] + self.style.word() + (match self.color {
            Some(c) => seq![' '] + c.css_text(),
            None => Seq::empty(),
        })
    }

    /// The CSS `border` shorthand.
    pub fn css(&self) -> (r: Vec<char>)
        ensures
            r@ == self.css_text(),
    {
        let mut out: Vec<char> = Vec::new();
        push_px(&mut out, self.width_px);
        out.push(' ');
        push_text(&mut out, self.style.css());
        if let Some(c) = self.color {
            out.push(' ');
            push_text(&mut out, c.css().as_str());
        }
        assert(out@ =~= self.css_text());
        out
    }
}

} // verus!
