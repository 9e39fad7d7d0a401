//! Colours with an alpha channel.

use vstd::prelude::*;
use crate::chars::{decimal, digit_char, push_text, push_u64, string_of};

verus! {

/// The alpha of an opaque colour. Alpha is counted in millionths of a percent.
pub const OPAQUE: u32 = 100_000_000;

#[derive(Clone, Copy, PartialEq, Eq, Debug, Structural)]
pub struct Color {
    /// `0xrrggbb`.
    pub rgb: u32,
    pub alpha: u32,
}

/// A hexadecimal digit in lower case.
pub open spec fn hex_char(d: int) -> char {
    if d < 10 {
        (d + 48) as u8 as char
    } else {
        (d + 87) as u8 as char
    }
}

/// Six hexadecimal digits.
pub open spec fn hex6(v: int) -> Seq<char> {
    seq![
        hex_char((v / 0x100000) % 16),
        hex_char((v / 0x10000) % 16),
        hex_char((v / 0x1000) % 16),
        hex_char((v / 0x100) % 16),
        hex_char((v / 0x10) % 16),
        hex_char(v % 16),
    ]
}

/// `v` units, of which `unit` make one, rounded half away from zero to hundredths.
pub open spec fn hundredths(v: int, unit: int) -> int {
    let mag = if v < 0 {
        -v
    } else {
        v
    };
    (200 * mag + unit) / (2 * unit)
}

/// `n` hundredths as a decimal text without trailing zeros.
pub open spec fn hundredths_text(n: nat) -> Seq<char> {
    let rest = n % 100;
    decimal(n / 100) + if rest == 0 {
        Seq::empty()
    } else if rest % 10 == 0 {
        seq!['.', digit_char((rest / 10) as int)]
    } else {
        seq!['.', digit_char((rest / 10) as int), digit_char((rest % 10) as int)]
    }
}

/// A fixed-point number with at most two decimal places.
pub open spec fn fixed_text(v: int, unit: int) -> Seq<char> {
    let n = hundredths(v, unit);
    (if v < 0 && n > 0 {
        seq!['-']
    } else {
        Seq::empty()
    }) + hundredths_text(n as nat)
}

/// Writes `v` units, of which `unit` make one, with at most two decimal places.
pub fn push_fixed(out: &mut Vec<char>, v: i64, unit: u32)
    requires
        unit > 0,
    ensures
        final(out)@ == old(out)@ + fixed_text(v as int, unit as int),
{
    let ghost before = out@;
    let mag: u128 = if v < 0 {
        (-(v as i128)) as u128
    } else {
        v as u128
    };
    let n: u128 = (200 * mag + unit as u128) / (2 * unit as u128);
    assert(n == hundredths(v as int, unit as int));
    assert(n <= 100 * mag + 1) by (nonlinear_arith)
        requires
            n == (200 * mag + unit as u128) / (2 * unit as u128),
            unit > 0,
            mag >= 0,
    ;
    if v < 0 && n > 0 {
        out.push('-');
    }
    let whole: u128 = n / 100;
    let rest: u8 = (n % 100) as u8;
    push_u64(out, whole as u64);
    if rest != 0 {
        out.push('.');
        out.push((rest / 10 + 48) as char);
        if rest % 10 != 0 {
            out.push((rest % 10 + 48) as char);
        }
    }
    assert(out@ =~= before + fixed_text(v as int, unit as int));
}

impl Color {
    pub fn from_rgb(rgb: u32) -> (c: Color)
        ensures
            c == (Color { rgb, alpha: OPAQUE }),
    {
        Color { rgb, alpha: OPAQUE }
    }

    pub open spec fn css_text(self) -> Seq<char> {
        if self.alpha == OPAQUE {
            seq!['#'] + hex6(self.rgb as int)
        } else {
            "rgba("@ + decimal(((self.rgb / 0x10000) % 256) as nat) + ", "@ + decimal(
                ((self.rgb / 0x100) % 256) as nat,
            ) + ", "@ + decimal((self.rgb % 256) as nat) + ", "@ + fixed_text(
                self.alpha as int,
                OPAQUE as int,
            ) + ")"@
        }
    }

    /// The colour as CSS writes it.
    pub fn css(self) -> (r: String)
        ensures
            r@ == self.css_text(),
    {
        let mut out: Vec<char> = Vec::new();
        if self.alpha == OPAQUE {
            out.push('#');
            out.push(hex(self.rgb / 0x100000 % 16));
            out.push(hex(self.rgb / 0x10000 % 16));
            out.push(hex(self.rgb / 0x1000 % 16));
            out.push(hex(self.rgb / 0x100 % 16));
            out.push(hex(self.rgb / 0x10 % 16));
            out.push(hex(self.rgb % 16));
            assert(out@ =~= self.css_text());
        } else {
            push_text(&mut out, "rgba(");
            push_u64(&mut out, (self.rgb / 0x10000 % 256) as u64);
            push_text(&mut out, ", ");
            push_u64(&mut out, (self.rgb / 0x100 % 256) as u64);
            push_text(&mut out, ", ");
            push_u64(&mut out, (self.rgb % 256) as u64);
            push_text(&mut out, ", ");
            push_fixed(&mut out, self.alpha as i64, OPAQUE);
            push_text(&mut out, ")");
        }
        string_of(&out)
    }
}

fn hex(d: u32) -> (c: char)
    requires
        d < 16,
    ensures
        c == hex_char(d as int),
{
    if d < 10 {
        (d as u8 + 48) as char
    } else {
        (d as u8 + 87) as char
    }
}

} // verus!
