//! How the content of a table cell sits in it.

use vstd::prelude::*;
use crate::chars::push_text;
use crate::color::{fixed_text, push_fixed};
use crate::html::{decl, decl_if, Style};

verus! {

/// A turn of a cell's content.
#[derive(Clone, Copy, PartialEq, Eq, Debug, Structural)]
pub enum Rotation {
    /// Counter-clockwise, in millionths of a degree.
    Ccw(i64),
}

/// Where a content stands between the top and the bottom of its box.
#[derive(Clone, Copy, PartialEq, Eq, Debug, Structural)]
pub enum VAlign {
    Top,
    Center,
    Bottom,
    Justify,
}

impl VAlign {
    pub open spec fn word(self) -> Seq<char> {
        match self {
            VAlign::Top => "top"@,
            VAlign::Center => "center"@,
            VAlign::Bottom => "bottom"@,
            VAlign::Justify => "justify"@,
        }
    }

    pub fn name(self) -> (r: &'static str)
        ensures
            r@ == self.word(),
    {
        match self {
            VAlign::Top => "top",
            VAlign::Center => "center",
            VAlign::Bottom => "bottom",
            VAlign::Justify => "justify",
        }
    }
}

#[derive(Clone, Copy, PartialEq, Eq, Debug, Structural)]
pub struct AlignSpec {
    pub vertical: Option<VAlign>,
    pub wrap: bool,
    pub rotation: Option<Rotation>,
}

pub open spec fn v_align_word(v: VAlign) -> Seq<char> {
    match v {
        VAlign::Top => "top"@,
        VAlign::Center => "middle"@,
        VAlign::Bottom => "bottom"@,
        VAlign::Justify => "top"@,
    }
}

/// What the cell itself states.
pub open spec fn align_cell_css(a: AlignSpec) -> Seq<char> {
    Seq::empty() + (match a.vertical {
        Some(v) => decl("vertical-align"@, v_align_word(v)),
        None => Seq::empty(),
    }) + decl_if(a.wrap, "white-space"@, "pre-wrap"@)
}

/// A turn, which CSS counts clockwise.
pub open spec fn turn_text(r: Rotation) -> Seq<char> {
    match r {
        Rotation::Ccw(v) => "rotate("@ + fixed_text(-v, 1_000_000) + "deg)"@,
    }
}

/// What a box inside the cell states: a cell cannot be turned, what it holds can.
pub open spec fn align_inner_css(a: AlignSpec) -> Seq<char> {
    match a.rotation {
        Some(r) => decl("display"@, "inline-block"@) + decl("transform"@, turn_text(r)),
        None => Seq::empty(),
    }
}

/// Adds a turn.
pub fn push_turn(out: &mut Vec<char>, r: Rotation)
    ensures
        final(out)@ == old(out)@ + turn_text(r),
{
    let ghost before = out@;
    let Rotation::Ccw(v) = r;
    push_text(out, "rotate(");
    let back: i64 = if v == i64::MIN {
        i64::MAX
    } else {
        -v
    };
    push_fixed(out, back, 1_000_000);
    push_text(out, "deg)");
    assert(v != i64::MIN ==> out@ =~= before + turn_text(r));
    assert(v == i64::MIN ==> out@ =~= before + turn_text(r));
}

/// The declarations of the cell, and of the box inside it.
pub fn align_css(a: &AlignSpec) -> (r: (Vec<char>, Vec<char>))
    ensures
        r.0@ == align_cell_css(*a),
        r.1@ == align_inner_css(*a),
{
    let mut s = Style::new();
    match a.vertical {
        Some(VAlign::Top) => s.push("vertical-align", "top"),
        Some(VAlign::Center) => s.push("vertical-align", "middle"),
        Some(VAlign::Bottom) => s.push("vertical-align", "bottom"),
        Some(VAlign::Justify) => s.push("vertical-align", "top"),
        None => {
            assert(s.css@ =~= s.css@ + Seq::<char>::empty());
        },
    }
    s.push_if(a.wrap, "white-space", "pre-wrap");
    let mut t = Style::new();
    if let Some(Rotation::Ccw(v)) = a.rotation {
        t.push("display", "inline-block");
        let mut turn: Vec<char> = Vec::new();
        push_turn(&mut turn, Rotation::Ccw(v));
        assert(turn@ =~= turn_text(Rotation::Ccw(v)));
        t.push_chars("transform", &turn);
        assert(t.css@ =~= align_inner_css(*a));
    }
    (s.css, t.css)
}

} // verus!
