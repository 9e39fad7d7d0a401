//! The cell styles of a sheet, as rules that cells share.

use vstd::prelude::*;
use crate::cellstyle::{align_cell_css, align_css, AlignSpec};
use crate::chars::{decimal, push_all, push_text, push_u64};
use crate::html::{decl, decl_if, opt_color, opt_decl, opt_px, Style};
use crate::names::{law_stored_is_found, lemma_place_of, lookup, stored, Names};
use crate::odf::length::Px;
use crate::odf::style::{
    not_below_zero, pad, size_in, size_pt, CellProps, Resolved, ResolvedView, TextProps,
    TextPropsView,
};
use crate::odf::table::{border_decl, push_border};

verus! {

/// Cell styles kept.
pub const MAX_STYLES: usize = 4096;

/// The size that a share of a size is a share of.
pub const DEFAULT_CELL_PT: Px = 5_080_000_000;

pub open spec fn lines_of(t: TextPropsView) -> Seq<char> {
    if t.underline == Some(true) && t.strike == Some(true) {
        "underline line-through"@
    } else if t.underline == Some(true) {
        "underline"@
    } else if t.strike == Some(true) {
        "line-through"@
    } else {
        Seq::empty()
    }
}

pub open spec fn cell_align(cp: CellProps) -> AlignSpec {
    AlignSpec { vertical: cp.v_align, wrap: cp.wrap == Some(true), rotation: cp.rotation }
}

/// The declarations of a cell style.
pub open spec fn cell_css(cp: CellProps, t: TextPropsView) -> Seq<char> {
    Seq::empty() + border_decl("border-top"@, cp.borders.top) + border_decl(
        "border-right"@,
        cp.borders.right,
    ) + border_decl("border-bottom"@, cp.borders.bottom) + border_decl(
        "border-left"@,
        cp.borders.left,
    ) + opt_color("background-color"@, cp.background) + opt_px(
        "padding-top"@,
        not_below_zero(cp.padding.top),
    ) + opt_px("padding-right"@, not_below_zero(cp.padding.right)) + opt_px(
        "padding-bottom"@,
        not_below_zero(cp.padding.bottom),
    ) + opt_px("padding-left"@, not_below_zero(cp.padding.left)) + opt_decl(
        "font-family"@,
        t.font,
    ) + opt_px(
        "font-size"@,
        match t.size {
            Some(_) => Some(size_in(t.size, DEFAULT_CELL_PT)),
            None => None,
        },
    ) + decl_if(t.bold == Some(true), "font-weight"@, "700"@) + decl_if(
        t.italic == Some(true),
        "font-style"@,
        "italic"@,
    ) + decl("text-decoration"@, lines_of(t)) + opt_color(
        "color"@,
        match t.color {
            Some(c) => c.value(),
            None => None,
        },
    ) + align_cell_css(cell_align(cp))
}

fn cell_style(cp: &CellProps, t: &TextProps) -> (r: Vec<char>)
    ensures
        r@ == cell_css(*cp, t@),
{
    let mut s = Style::new();
    push_border(&mut s, "border-top", cp.borders.top);
    push_border(&mut s, "border-right", cp.borders.right);
    push_border(&mut s, "border-bottom", cp.borders.bottom);
    push_border(&mut s, "border-left", cp.borders.left);
    s.push_opt_color("background-color", cp.background);
    s.push_opt_px("padding-top", pad(cp.padding.top));
    s.push_opt_px("padding-right", pad(cp.padding.right));
    s.push_opt_px("padding-bottom", pad(cp.padding.bottom));
    s.push_opt_px("padding-left", pad(cp.padding.left));
    s.push_opt_text("font-family", &t.font);
    s.push_opt_px(
        "font-size",
        match t.size {
            Some(_) => Some(size_pt(t, DEFAULT_CELL_PT)),
            None => None,
        },
    );
    s.push_if(t.bold == Some(true), "font-weight", "700");
    s.push_if(t.italic == Some(true), "font-style", "italic");
    let mut lines: Vec<char> = Vec::new();
    if t.underline == Some(true) && t.strike == Some(true) {
        push_text(&mut lines, "underline line-through");
    } else if t.underline == Some(true) {
        push_text(&mut lines, "underline");
    } else if t.strike == Some(true) {
        push_text(&mut lines, "line-through");
    }
    assert(lines@ =~= lines_of(t@));
    s.push_chars("text-decoration", &lines);
    s.push_opt_color(
        "color",
        match t.color {
            Some(c) => c.color(),
            None => None,
        },
    );
    let (cell, _inner): (Vec<char>, Vec<char>) = align_css(
        &AlignSpec {
            vertical: cp.v_align,
            wrap: cp.wrap == Some(true),
            rotation: cp.rotation,
        },
    );
    push_all(&mut s.css, &cell);
    s.css
}

/// The styles that cells of a sheet have, in the order in which they came up.
#[derive(Debug)]
pub struct SheetStyles {
    ids: Names<u32>,
    css: Vec<Vec<char>>,
}

/// The styles as contracts see them.
pub struct RulesView {
    pub ids: Seq<(Seq<char>, u32)>,
    pub css: Seq<Seq<char>>,
}

pub open spec fn css_views(v: Seq<Vec<char>>) -> Seq<Seq<char>> {
    v.map_values(|c: Vec<char>| c@)
}

impl View for SheetStyles {
    type V = RulesView;

    closed spec fn view(&self) -> RulesView {
        RulesView { ids: self.ids@, css: css_views(self.css@) }
    }
}

/// The rules as text.
pub open spec fn rules_text(css: Seq<Seq<char>>) -> Seq<char>
    decreases css.len(),
{
    if css.len() == 0 {
        Seq::empty()
    } else {
        rules_text(css.drop_last()) + "td.xf"@ + decimal((css.len() - 1) as nat) + "{"@ + css.last()
            + "}\n"@
    }
}

impl RulesView {
    pub open spec fn none() -> RulesView {
        RulesView { ids: Seq::empty(), css: Seq::empty() }
    }

    /// The number of a style. One that paints nothing has none, and neither has one past
    /// the last that is kept.
    pub open spec fn number(self, name: Seq<char>, r: ResolvedView) -> Option<u32> {
        match lookup(self.ids, name) {
            Some(id) => Some(id),
            None => if self.css.len() >= MAX_STYLES || cell_css(r.cell, r.text).len() == 0 {
                None
            } else {
                Some(self.css.len() as u32)
            },
        }
    }

    /// After a style is asked for.
    pub open spec fn with(self, name: Seq<char>, r: ResolvedView) -> RulesView {
        if lookup(self.ids, name) is None && self.number(name, r) is Some {
            RulesView {
                ids: stored(self.ids, name, self.css.len() as u32),
                css: self.css.push(cell_css(r.cell, r.text)),
            }
        } else {
            self
        }
    }
}

impl SheetStyles {
    pub fn new() -> (r: SheetStyles)
        ensures
            r@ == RulesView::none(),
    {
        let r = SheetStyles { ids: Names::new(), css: Vec::new() };
        assert(r@.ids =~= Seq::<(Seq<char>, u32)>::empty());
        assert(r@.css =~= Seq::<Seq<char>>::empty());
        r
    }

    /// The number of a style, whose rule is made the first time it is asked for.
    pub fn intern(&mut self, name: &str, r: &Resolved) -> (id: Option<u32>)
        ensures
            id == old(self)@.number(name@, r@),
            final(self)@ == old(self)@.with(name@, r@),
    {
        assert(css_views(self.css@).len() == self.css@.len());
        if let Some(id) = self.ids.get(name) {
            return Some(*id);
        }
        if self.css.len() >= MAX_STYLES {
            return None;
        }
        let css: Vec<char> = cell_style(&r.cell, &r.text);
        if css.len() == 0 {
            return None;
        }
        let id: u32 = self.css.len() as u32;
        let ghost before = self.css@;
        self.css.push(css);
        assert(css_views(self.css@) =~= css_views(before).push(css@));
        self.ids.put(String::from_str(name), id);
        Some(id)
    }

    /// The rules.
    pub fn css_block(&self) -> (out: Vec<char>)
        ensures
            out@ == rules_text(self@.css),
    {
        let ghost v = css_views(self.css@);
        let mut out: Vec<char> = Vec::new();
        assert(v.take(0) =~= Seq::<Seq<char>>::empty());
        for i in 0..self.css.len()
            invariant
                v == css_views(self.css@),
                out@ == rules_text(v.take(i as int)),
        {
            assert(v.take(i + 1).drop_last() =~= v.take(i as int));
            assert(v.take(i + 1).last() == self.css@[i as int]@);
            let ghost before = out@;
            push_text(&mut out, "td.xf");
            push_u64(&mut out, i as u64);
            push_text(&mut out, "{");
            push_all(&mut out, &self.css[i]);
            push_text(&mut out, "}\n");
            assert(out@ =~= before + "td.xf"@ + decimal(i as nat) + "{"@ + self.css@[i as int]@
                + "}\n"@);
        }
        assert(v.take(v.len() as int) =~= v);
        out
    }
}

/// A style keeps its number: asking for another, or for itself again, changes neither
/// the number nor the rule.
pub proof fn law_a_style_keeps_its_number(
    s: RulesView,
    name: Seq<char>,
    r: ResolvedView,
    other: Seq<char>,
    q: ResolvedView,
)
    requires
        s.number(name, r) is Some,
        forall|i: int|
            0 <= i < s.ids.len() ==> (#[trigger] s.ids[i]).1 < s.css.len(),
    ensures
        s.with(name, r).number(name, r) == s.number(name, r),
        s.with(name, r).with(other, q).number(name, r) == s.number(name, r),
        s.number(name, r)->0 < s.with(name, r).css.len(),
        s.with(name, r).with(other, q).css[s.number(name, r)->0 as int] == s.with(
            name,
            r,
        ).css[s.number(name, r)->0 as int],
{
    law_stored_is_found(s.ids, name, s.css.len() as u32, name);
    let t = s.with(name, r);
    law_stored_is_found(t.ids, other, t.css.len() as u32, name);
    lemma_place_of(s.ids, name, 0);
}

} // verus!
