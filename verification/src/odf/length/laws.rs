//! How measures, colours and borders that a document states relate to each other and to
//! what is written of them.

use vstd::prelude::*;
use crate::chars::{ascii_lower_all, decimal, digit_char, is_space, lemma_trimmed_already, trimmed};
use crate::color::{fixed_text, hex6, hex_char, hundredths, hundredths_text, Color, OPAQUE};
use crate::odf::length::{
    all_hex, clamped, color_of, hex_digit, hex_value, is_hex, len_of, percent_of, says_no_border,
    stated_end, style_named, BorderStyle,
};

verus! {

// ── measures ─────────────────────────────────────────────────────────────────

/// The number that a text starts with.
pub open spec fn number_of(s: Seq<char>) -> Seq<char> {
    trimmed(s).take(stated_end(trimmed(s)))
}

/// What stands behind the number.
pub open spec fn unit_of(s: Seq<char>) -> Seq<char> {
    trimmed(trimmed(s).skip(stated_end(trimmed(s))))
}

/// The units of length are what they are everywhere: an inch is 2.54 centimetres, 25.4
/// millimetres, 72 points, 6 picas and 96 pixels, and a number alone counts pixels.
pub proof fn law_units_of_length(a: Seq<char>, b: Seq<char>)
    requires
        number_of(a) == number_of(b),
        len_of(a) is Some,
        len_of(b) is Some,
    ensures
        ({
            let x = len_of(a)->0;
            let y = len_of(b)->0;
            let u = unit_of(b);
            &&& unit_of(a) == "in"@ && u == "cm"@ ==> 100 * x == 254 * y
            &&& unit_of(a) == "in"@ && u == "mm"@ ==> 10 * x == 254 * y
            &&& unit_of(a) == "in"@ && u == "pt"@ ==> x == 72 * y
            &&& unit_of(a) == "in"@ && u == "pc"@ ==> x == 6 * y
            &&& unit_of(a) == "in"@ && u == "px"@ ==> x == 96 * y
            &&& unit_of(a) == "px"@ && u.len() == 0 ==> x == y
            &&& unit_of(a) == u ==> x == y
        }),
{
    reveal_strlit("in");
    reveal_strlit("cm");
    reveal_strlit("mm");
    reveal_strlit("pt");
    reveal_strlit("pc");
    reveal_strlit("px");
    reveal_strlit("%");
    assert("in"@[0] == 'i' && "cm"@[0] == 'c' && "mm"@[0] == 'm' && "pt"@[1] == 't' && "pc"@[1]
        == 'c' && "px"@[1] == 'x' && "pt"@[0] == 'p' && "pc"@[0] == 'p' && "px"@[0] == 'p'
            && "in"@[1]
        == 'n' && "cm"@[1] == 'm' && "mm"@[1] == 'm');
    assert("%"@.len() == 1);
    let v = crate::odf::length::stated_value(number_of(a));
    assert(100 * (v * 36576) == 254 * (v * 14400)) by (nonlinear_arith);
    assert(10 * (v * 36576) == 254 * (v * 1440)) by (nonlinear_arith);
    assert(v * 36576 == 72 * (v * 508)) by (nonlinear_arith);
    assert(v * 36576 == 6 * (v * 6096)) by (nonlinear_arith);
    assert(v * 36576 == 96 * (v * 381)) by (nonlinear_arith);
}

/// A percentage is no length, and a length no percentage.
pub proof fn law_lengths_and_percentages_are_apart(s: Seq<char>)
    ensures
        len_of(s) is None || percent_of(s) is None,
        percent_of(s) is Some ==> unit_of(s) == "%"@,
        len_of(s) is Some ==> unit_of(s) != "%"@,
        len_of(s) is Some ==> unit_of(s) == "cm"@ || unit_of(s) == "mm"@ || unit_of(s) == "in"@
            || unit_of(s) == "pt"@ || unit_of(s) == "pc"@ || unit_of(s) == "px"@ || unit_of(s).len()
            == 0,
{
}

/// A value held between two bounds is between them, and is itself where it was.
pub proof fn law_held_between_bounds(v: int, min: int, max: int)
    requires
        min <= max,
    ensures
        min <= clamped(v, min, max) <= max,
        min <= v <= max ==> clamped(v, min, max) == v,
        v < min ==> clamped(v, min, max) == min,
        v > max ==> clamped(v, min, max) == max,
{
}

// ── numbers as they are written ──────────────────────────────────────────────

/// A number is written to the nearest hundredth.
pub proof fn law_written_to_the_nearest_hundredth(v: int, unit: int)
    requires
        unit > 0,
    ensures
        ({
            let h = hundredths(v, unit);
            let m = if v < 0 {
                -v
            } else {
                v
            };
            &&& h >= 0
            &&& 2 * (100 * m - h * unit) <= unit
            &&& 2 * (h * unit - 100 * m) <= unit
        }),
{
    let m = if v < 0 {
        -v
    } else {
        v
    };
    let h = hundredths(v, unit);
    assert(h >= 0 && 2 * unit * h <= 200 * m + unit && 200 * m + unit < 2 * unit * h + 2 * unit)
        by (nonlinear_arith)
        requires
            unit > 0,
            m >= 0,
            h == (200 * m + unit) / (2 * unit),
    ;
    assert(2 * unit * h == 2 * (h * unit)) by (nonlinear_arith);
}

/// A whole number is written as its digits, with a minus sign before them where it is below
/// zero; so many tenths have one digit behind the point, and hundredths two.
pub proof fn law_whole_numbers_have_no_point(n: nat, unit: int)
    requires
        unit > 0,
    ensures
        fixed_text(n * unit, unit) == decimal(n),
        n > 0 ==> fixed_text(-(n * unit), unit) == seq!['-'] + decimal(n),
{
    let v = n * unit;
    assert(v >= 0) by (nonlinear_arith)
        requires
            v == n * unit,
            unit > 0,
    ;
    assert((200 * v + unit) / (2 * unit) == 100 * n) by (nonlinear_arith)
        requires
            v == n * unit,
            unit > 0,
    ;
    assert((100 * n) % 100 == 0);
    assert((100 * n) / 100 == n);
    assert(hundredths_text(100 * n) =~= decimal(n));
    assert(fixed_text(v, unit) =~= decimal(n));
    if n > 0 {
        assert(v > 0) by (nonlinear_arith)
            requires
                v == n * unit,
                unit > 0,
                n > 0,
        ;
        assert(fixed_text(-v, unit) =~= seq!['-'] + decimal(n));
    }
}

/// Hundredths are written behind a point, without zeros at the end.
pub proof fn law_hundredths_behind_a_point(n: nat)
    ensures
        n % 100 == 0 ==> hundredths_text(n) == decimal(n / 100),
        n % 100 != 0 && n % 10 == 0
            ==> hundredths_text(n) == decimal(n / 100) + seq!['.'] + decimal(
            (n % 100) / 10,
        ),
        n % 10 != 0 && n % 100 >= 10
            ==> hundredths_text(n) == decimal(n / 100) + seq!['.'] + decimal(
            n % 100,
        ),
        n % 10 != 0 && n % 100 < 10 ==> hundredths_text(n) == decimal(n / 100) + seq!['.', '0']
            + decimal(n % 100),
{
    let r = n % 100;
    assert(r % 10 == n % 10);
    if r != 0 {
        if r % 10 == 0 {
            assert(decimal(r / 10) =~= seq![digit_char((r / 10) as int)]);
            assert(hundredths_text(n) =~= decimal(n / 100) + seq!['.'] + decimal(r / 10));
        } else if r >= 10 {
            assert(decimal(r / 10) =~= seq![digit_char((r / 10) as int)]);
            assert(decimal(r) =~= seq![digit_char((r / 10) as int), digit_char((r % 10) as int)]);
            assert(hundredths_text(n) =~= decimal(n / 100) + seq!['.'] + decimal(r));
        } else {
            assert(decimal(r) =~= seq![digit_char(r as int)]);
            assert(digit_char(0) == '0');
            assert(hundredths_text(n) =~= decimal(n / 100) + seq!['.', '0'] + decimal(r));
        }
    } else {
        assert(hundredths_text(n) =~= decimal(n / 100));
    }
}

// ── colours ──────────────────────────────────────────────────────────────────

proof fn lemma_hex_back(d: int)
    requires
        0 <= d < 16,
    ensures
        is_hex(hex_char(d)),
        hex_digit(hex_char(d)) == d,
        !is_space(hex_char(d)),
{
}

/// A colour that is written reads back as itself: `#`, and two hexadecimal digits for each
/// of red, green and blue, in this order.
pub proof fn law_a_colour_reads_back(c: Color)
    requires
        c.alpha == OPAQUE,
        c.rgb < 0x1000000,
    ensures
        color_of(c.css_text()) == Some(c),
        c.css_text().len() == 7 && c.css_text()[0] == '#',
        hex_value(c.css_text().subrange(1, 3)) == c.rgb as int / 0x10000,
        hex_value(c.css_text().subrange(3, 5)) == (c.rgb as int / 0x100) % 256,
        hex_value(c.css_text().subrange(5, 7)) == c.rgb as int % 256,
{
    let v = c.rgb as int;
    let t = c.css_text();
    let a = (v / 0x100000) % 16;
    let b = (v / 0x10000) % 16;
    let d = (v / 0x1000) % 16;
    let e = (v / 0x100) % 16;
    let f = (v / 0x10) % 16;
    let g = v % 16;
    lemma_hex_back(a);
    lemma_hex_back(b);
    lemma_hex_back(d);
    lemma_hex_back(e);
    lemma_hex_back(f);
    lemma_hex_back(g);
    let h = hex6(v);
    assert(t =~= seq!['#'] + h);
    assert(t[0] == '#' && t.last() == hex_char(g));
    lemma_trimmed_already(t);
    assert(t.skip(1) =~= h);
    assert(all_hex(h));
    lemma_six(h);
    lemma_hex_digits(v);
    assert(hex_value(h) == v);
    reveal_strlit("transparent");
    assert(ascii_lower_all(t).len() == 7);
    assert("transparent"@.len() == 11);
    lemma_two(t.subrange(1, 3));
    lemma_two(t.subrange(3, 5));
    lemma_two(t.subrange(5, 7));
    assert(t[1] == hex_char(a) && t[2] == hex_char(b) && t[3] == hex_char(d) && t[4] == hex_char(e)
        && t[5] == hex_char(f) && t[6] == hex_char(g));
}

proof fn lemma_hex_digits(v: int)
    requires
        0 <= v < 0x1000000,
    ensures
        ({
            let a = (v / 0x100000) % 16;
            let b = (v / 0x10000) % 16;
            let d = (v / 0x1000) % 16;
            let e = (v / 0x100) % 16;
            let f = (v / 0x10) % 16;
            let g = v % 16;
            &&& ((((a * 16 + b) * 16 + d) * 16 + e) * 16 + f) * 16 + g == v
            &&& a * 16 + b == v / 0x10000
            &&& d * 16 + e == (v / 0x100) % 256
            &&& f * 16 + g == v % 256
        }),
{
    let h = v / 0x10000;
    let m = (v / 0x100) % 256;
    let l = v % 256;
    assert(v == h * 0x10000 + m * 0x100 + l && 0 <= h < 256);
    assert(v / 0x100000 == h / 16);
    assert(v / 0x1000 == h * 16 + m / 16);
    assert(v / 0x100 == h * 256 + m);
    assert(v / 0x10 == (h * 256 + m) * 16 + l / 16);
}

proof fn lemma_two(s: Seq<char>)
    requires
        s.len() == 2,
    ensures
        hex_value(s) == hex_digit(s[0]) * 16 + hex_digit(s[1]),
{
    reveal_with_fuel(hex_value, 3);
    assert(s.drop_last().drop_last() =~= Seq::<char>::empty());
}

proof fn lemma_six(s: Seq<char>)
    requires
        s.len() == 6,
    ensures
        hex_value(s) == ((((hex_digit(s[0]) * 16 + hex_digit(s[1])) * 16 + hex_digit(s[2])) * 16
            + hex_digit(s[3])) * 16 + hex_digit(s[4])) * 16 + hex_digit(s[5]),
{
    reveal_with_fuel(hex_value, 7);
    let e = s.drop_last().drop_last().drop_last().drop_last().drop_last().drop_last();
    assert(e =~= Seq::<char>::empty());
}

/// A colour that can be seen through states its parts in tens, and how much of it is seen.
pub proof fn law_a_colour_that_is_seen_through(c: Color)
    requires
        c.alpha != OPAQUE,
        c.rgb < 0x1000000,
    ensures
        c.css_text() == "rgba("@ + decimal((c.rgb / 0x10000) as nat) + ", "@ + decimal(
            ((c.rgb / 0x100) % 256) as nat,
        ) + ", "@ + decimal((c.rgb % 256) as nat) + ", "@ + fixed_text(
            c.alpha as int,
            100_000_000,
        ) + ")"@,
{
    assert((c.rgb / 0x10000) % 256 == c.rgb / 0x10000);
}

// ── borders ──────────────────────────────────────────────────────────────────

/// The styles of a border are named by their words.
pub proof fn law_styles_of_borders(k: BorderStyle, w: Seq<char>)
    ensures
        style_named(k.word()) == Some(k),
        style_named(w) is Some ==> style_named(w)->0.word() == w,
        !says_no_border(k.word()),
        says_no_border(w) <==> w == "none"@ || w == "hidden"@,
{
    reveal_strlit("solid");
    reveal_strlit("double");
    reveal_strlit("dotted");
    reveal_strlit("dashed");
    reveal_strlit("groove");
    reveal_strlit("ridge");
    reveal_strlit("inset");
    reveal_strlit("outset");
    reveal_strlit("none");
    reveal_strlit("hidden");
    assert("solid"@[0] == 's' && "double"@[0] == 'd' && "dotted"@[0] == 'd' && "dashed"@[0] == 'd'
        && "groove"@[0] == 'g' && "ridge"@[0] == 'r' && "inset"@[0] == 'i' && "outset"@[0] == 'o'
        && "none"@[0] == 'n' && "hidden"@[0] == 'h');
    assert("double"@[2] == 'u' && "dotted"@[2] == 't' && "dashed"@[2] == 's');
}

} // verus!
