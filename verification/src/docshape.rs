//! The page of a text document: its box, and the bounds that one has to keep.

use vstd::prelude::*;
use crate::chars::{push_all, push_text};
use crate::html::{decl, opt_decl, opt_view, Style};
use crate::odf::length::{push_px, px_text, Px, PX};

verus! {

pub const MIN_PAGE_PX: Px = 36_576_000_000;

pub const MAX_PAGE_PX: Px = 1_560_576_000_000;

/// The widest margin.
pub const MAX_MARGIN_PX: Px = 219_456_000_000;

/// The narrowest column of text that margins may leave.
pub const MIN_COLUMN_PX: Px = 36_576_000_000;

/// A page and its margins.
#[derive(Clone, Copy, PartialEq, Eq, Debug, Structural)]
pub struct Page {
    pub width: Px,
    pub height: Px,
    pub left: Px,
    pub right: Px,
    pub top: Px,
    pub bottom: Px,
}

impl Page {
    /// US Letter with margins of an inch.
    pub open spec fn letter() -> Page {
        Page {
            width: (816 * PX) as i64,
            height: (1056 * PX) as i64,
            left: (96 * PX) as i64,
            right: (96 * PX) as i64,
            top: (96 * PX) as i64,
            bottom: (96 * PX) as i64,
        }
    }
}

impl Default for Page {
    fn default() -> (p: Page)
        ensures
            p == Page::letter(),
    {
        Page {
            width: 816 * PX,
            height: 1056 * PX,
            left: 96 * PX,
            right: 96 * PX,
            top: 96 * PX,
            bottom: 96 * PX,
        }
    }
}

/// The stylesheet of a page column.
pub const BASE_CSS: &'static str = ".of-page{box-sizing:border-box;margin:0 auto;background:#fff;color:#000;white-space:pre-wrap;overflow-wrap:anywhere}.of-p{margin:0}.of-li{display:flex}.of-bu{flex:none}.of-tx{flex:1;min-width:0}.of-pb{display:block;border-top:1px dashed #bbb;margin:8px 0}.of-img{max-width:100%}.of-gph{display:inline-block;border:1px dashed #bbb;color:#666}.of-tbl{border-collapse:collapse;table-layout:fixed;max-width:100%}.of-tbl-auto{table-layout:auto}.of-tc{padding:2px 4px;vertical-align:top}.of-txbx{border:1px solid #ccc;padding:4px;margin:4px 0}.of-fnotes{border-top:1px solid #ccc;margin-top:1.5em}.of-fnb{padding-right:4px}";

/// The geometry and the text of a page, as a rule.
pub open spec fn page_rule(p: Page, font: Option<Seq<char>>, size_pt: Px, tab_px: Px) -> Seq<char> {
    ".of-page{"@ + (Seq::empty() + decl("width"@, px_text(p.width)) + decl(
        "min-height"@,
        px_text(p.height),
    ) + decl("padding-top"@, px_text(p.top)) + decl("padding-right"@, px_text(p.right)) + decl(
        "padding-bottom"@,
        px_text(p.bottom),
    ) + decl("padding-left"@, px_text(p.left)) + opt_decl("font-family"@, font) + decl(
        "font-size"@,
        px_text(size_pt),
    ) + decl("tab-size"@, px_text(tab_px))) + "}"@
}

pub fn page_css(p: &Page, font: &Option<String>, size_pt: Px, tab_px: Px) -> (r: Vec<char>)
    ensures
        r@ == page_rule(*p, opt_view(*font), size_pt, tab_px),
{
    let mut s = Style::new();
    s.push_px("width", p.width);
    s.push_px("min-height", p.height);
    s.push_px("padding-top", p.top);
    s.push_px("padding-right", p.right);
    s.push_px("padding-bottom", p.bottom);
    s.push_px("padding-left", p.left);
    s.push_opt_text("font-family", font);
    s.push_px("font-size", size_pt);
    s.push_px("tab-size", tab_px);
    let mut r: Vec<char> = Vec::new();
    push_text(&mut r, ".of-page{");
    push_all(&mut r, &s.css);
    push_text(&mut r, "}");
    assert(r@ =~= page_rule(*p, opt_view(*font), size_pt, tab_px));
    r
}

} // verus!
