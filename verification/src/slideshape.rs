//! The canvas of a slide.

use vstd::prelude::*;
use crate::html::{decl, Style};
use crate::odf::length::{px_text, Px};

verus! {

/// The width of a slide that states none.
pub const DEFAULT_WIDTH: Px = 365_760_000_000;

/// The height of a slide that states none.
pub const DEFAULT_HEIGHT: Px = 274_320_000_000;

pub const MIN_SLIDE_PX: Px = 36_576_000_000;

pub const MAX_SLIDE_PX: Px = 1_560_576_000_000;

/// The stylesheet of a canvas.
pub const BASE_CSS: &'static str = ".pp-doc{position:relative;overflow:clip;background:#fff;color:#000}.pp-sp,.pp-tb,.pp-img,.pp-ph{position:absolute;box-sizing:border-box}.pp-tb{display:flex;flex-direction:column;white-space:pre-wrap;overflow-wrap:anywhere}.pp-ph{border:1px dashed #bbb;color:#666}.pp-p{margin:0}.pp-li{display:flex}.pp-bu{flex:none}.pp-tx{flex:1;min-width:0}.pp-tbl{border-collapse:collapse}.pp-tbl td{padding:2px 4px}";

/// Whether a side is one that a canvas can have.
pub open spec fn fits_canvas(v: Px) -> bool {
    MIN_SLIDE_PX <= v <= MAX_SLIDE_PX
}

pub fn in_range(v: Px) -> (r: bool)
    ensures
        r == fits_canvas(v),
{
    MIN_SLIDE_PX <= v && v <= MAX_SLIDE_PX
}

pub open spec fn canvas_decls(size: (Px, Px)) -> Seq<char> {
    Seq::empty() + decl("width"@, px_text(size.0)) + decl("height"@, px_text(size.1))
}

/// The size of a canvas.
pub fn canvas_css(size: (Px, Px)) -> (s: Style)
    ensures
        s.css@ == canvas_decls(size),
{
    let mut s = Style::new();
    s.push_px("width", size.0);
    s.push_px("height", size.1);
    s
}

} // verus!
