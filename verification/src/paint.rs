//! Fills and outlines, and the CSS they become.

use vstd::prelude::*;
use crate::chars::push_text;
use crate::color::{Color, OPAQUE};
use crate::html::{decl, Style};
use crate::odf::length::{push_px, px_text, Px};

verus! {

#[derive(Clone, Copy, PartialEq, Eq, Debug, Structural)]
pub enum Fill {
    /// Nothing is painted, and this is stated.
    Empty,
    Solid(Color),
}

#[derive(Clone, Copy, PartialEq, Eq, Debug, Structural)]
pub enum Dash {
    Solid,
    Dashed,
}

#[derive(Clone, Copy, PartialEq, Eq, Debug, Structural)]
pub enum Cap {
    Flat,
    Round,
    Square,
}

#[derive(Clone, Copy, PartialEq, Eq, Debug, Structural)]
pub enum Join {
    Miter,
}

/// An outline.
#[derive(Clone, Copy, PartialEq, Eq, Debug, Structural)]
pub struct Line {
    pub width_px: Px,
    pub fill: Fill,
    pub dash: Dash,
    pub cap: Cap,
    pub join: Join,
}

impl Line {
    /// The colour that an outline is drawn in; black where it has none.
    pub open spec fn stroke(self) -> Color {
        match self.fill {
            Fill::Solid(c) => c,
            Fill::Empty => Color { rgb: 0, alpha: OPAQUE },
        }
    }

    pub fn stroke_color(&self) -> (c: Color)
        ensures
            c == self.stroke(),
    {
        match self.fill {
            Fill::Solid(c) => c,
            Fill::Empty => Color::from_rgb(0),
        }
    }
}

pub open spec fn fill_css(f: Fill) -> Seq<char> {
    match f {
        Fill::Empty => decl("background"@, "none"@),
        Fill::Solid(c) => decl("background-color"@, c.css_text()),
    }
}

/// Adds a fill.
pub fn push_fill(s: &mut Style, f: Fill)
    ensures
        final(s).css@ == old(s).css@ + fill_css(f),
{
    match f {
        Fill::Empty => s.push("background", "none"),
        Fill::Solid(c) => s.push_color("background-color", c),
    }
}

pub open spec fn line_text(l: Line) -> Seq<char> {
    match l.fill {
        Fill::Empty => "none"@,
        Fill::Solid(c) => px_text(l.width_px) + (match l.dash {
            Dash::Solid => " solid "@,
            Dash::Dashed => " dashed "@,
        }) + c.css_text(),
    }
}

/// A border on all four sides.
pub open spec fn line_css(l: Line) -> Seq<char> {
    decl("border"@, line_text(l))
}

/// Adds an outline as a border on all four sides.
pub fn push_line(s: &mut Style, l: &Line)
    ensures
        final(s).css@ == old(s).css@ + line_css(*l),
{
    let mut v: Vec<char> = Vec::new();
    match l.fill {
        Fill::Empty => push_text(&mut v, "none"),
        Fill::Solid(c) => {
            push_px(&mut v, l.width_px);
            match l.dash {
                Dash::Solid => push_text(&mut v, " solid "),
                Dash::Dashed => push_text(&mut v, " dashed "),
            }
            push_text(&mut v, c.css().as_str());
        },
    }
    assert(v@ =~= line_text(*l));
    s.push_chars("border", &v);
}

} // verus!
