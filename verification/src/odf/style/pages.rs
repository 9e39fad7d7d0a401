//! What a document's pages are: their size, their margins, and the master that says so.

use vstd::prelude::*;
use crate::docshape::{Page, MAX_PAGE_PX, MIN_PAGE_PX};
use crate::names::lookup;
use crate::odf::style::props::len_attr;
use crate::odf::style::store::{
    chain_data, chain_master, margin_limit, master_of, page_of, RawView, Store,
};
use crate::xml::Tree;

verus! {

/// A page is as large as it states, where both sides are stated and within bounds, and else
/// as large as a letter: 816 by 1056 pixels.
pub proof fn law_how_large_a_page_is(p: Tree)
    ensures
        ({
            let w = len_attr(p, "page-width"@);
            let h = len_attr(p, "page-height"@);
            let stated = w is Some && h is Some && MIN_PAGE_PX <= w->0 <= MAX_PAGE_PX && MIN_PAGE_PX
                <= h->0 <= MAX_PAGE_PX;
            &&& stated ==> page_of(p).width == w->0 && page_of(p).height == h->0
            &&& !stated ==> page_of(p).width == 816 * 381_000_000 && page_of(p).height == 1056
                * 381_000_000
        }),
{
}

/// Each margin of a page is its own where it is stated, the one for all four sides where
/// only that is, and an inch where neither is; none is so wide that two of them leave no
/// column.
pub proof fn law_margins_of_a_page(p: Tree)
    ensures
        ({
            let m = len_attr(p, "margin"@);
            let l = len_attr(p, "margin-left"@);
            let r = len_attr(p, "margin-right"@);
            let t = len_attr(p, "margin-top"@);
            let b = len_attr(p, "margin-bottom"@);
            let g = page_of(p);
            let across = margin_limit(g.width as int);
            let down = margin_limit(g.height as int);
            &&& l is Some && 0 <= l->0 <= across ==> g.left == l->0
            &&& r is Some && 0 <= r->0 <= across ==> g.right == r->0
            &&& t is Some && 0 <= t->0 <= down ==> g.top == t->0
            &&& b is Some && 0 <= b->0 <= down ==> g.bottom == b->0
            &&& l is None && m is Some && 0 <= m->0 <= across ==> g.left == m->0
            &&& r is None && m is Some && 0 <= m->0 <= across ==> g.right == m->0
            &&& t is None && m is Some && 0 <= m->0 <= down ==> g.top == m->0
            &&& b is None && m is Some && 0 <= m->0 <= down ==> g.bottom == m->0
            &&& l is None && m is None ==> g.left == 96 * 381_000_000
            &&& r is None && m is None ==> g.right == 96 * 381_000_000
            &&& t is None && m is None ==> g.top == 96 * 381_000_000
            &&& b is None && m is None ==> g.bottom == 96 * 381_000_000
            &&& l is Some && l->0 > across ==> g.left == across
            &&& l is Some && l->0 < 0 ==> g.left == 0
        }),
{
}

/// A master page has a header where one of its headers is not switched off, and a footer
/// alike.
pub proof fn law_headers_and_footers(e: Tree, k: int)
    requires
        0 <= k < e.elems().len(),
    ensures
        ({
            let n = e.elems()[k];
            let on = n.attr_bool("display"@) != Some(false);
            &&& on && (n.name == "header"@ || n.name == "header-left"@ || n.name == "header-first"@)
                ==> master_of(e).has_header
            &&& on && (n.name == "footer"@ || n.name == "footer-left"@ || n.name == "footer-first"@)
                ==> master_of(e).has_footer
        }),
        master_of(e).has_header ==> exists|j: int|
            0 <= j < e.elems().len() && ((#[trigger] e.elems()[j]).name == "header"@
                || e.elems()[j].name == "header-left"@ || e.elems()[j].name == "header-first"@)
                && e.elems()[j].attr_bool("display"@) != Some(false),
        master_of(e).has_footer ==> exists|j: int|
            0 <= j < e.elems().len() && ((#[trigger] e.elems()[j]).name == "footer"@
                || e.elems()[j].name == "footer-left"@ || e.elems()[j].name == "footer-first"@)
                && e.elems()[j].attr_bool("display"@) != Some(false),
{
}

/// The page that a document is set on is that of the master page it names; or, where it
/// names none that there is, of the first master page. The master says whether there is a
/// header or a footer, and its layout how large the page is.
pub proof fn law_which_master_sets_the_page(s: Store, name: Option<Seq<char>>)
    ensures
        ({
            let named = name is Some && lookup(s.masters, name->0) is Some;
            let m = s.master(name);
            let t = s.setup(name);
            &&& named ==> m == lookup(s.masters, name->0)
            &&& !named && s.first_master is Some ==> m == lookup(s.masters, s.first_master->0)
            &&& !named && s.first_master is None ==> m is None
            &&& m is Some ==> t.has_header == m->0.has_header && t.has_footer == m->0.has_footer
                && t.drawing_page_style == m->0.drawing_page
            &&& m is Some && m->0.layout is Some && lookup(s.layouts, m->0.layout->0) is Some
                ==> t.page == lookup(s.layouts, m->0.layout->0)->0.page && t.stated == lookup(
                s.layouts,
                m->0.layout->0,
            )->0.stated && t.landscape == lookup(s.layouts, m->0.layout->0)->0.landscape
            &&& m is None ==> t.page == Page::letter() && !t.stated && !t.has_header
                && !t.has_footer
        }),
{
    reveal(Store::setup);
}

/// The first master page that a document has stays the first.
pub proof fn law_the_first_master_stays_first(s: Store, e: Tree)
    ensures
        s.first_master is Some ==> s.with_master(e).first_master == s.first_master,
        s.first_master is None && s.with_master(e).masters != s.masters ==> s.with_master(
            e,
        ).first_master is Some,
{
}

/// What the nearest style of a chain names counts: of a master page, and of a format.
pub proof fn law_the_nearest_style_counts(chain: Seq<RawView>)
    requires
        chain.len() > 0,
    ensures
        chain[0].master is Some ==> chain_master(chain) == chain[0].master,
        chain[0].master is None ==> chain_master(chain) == chain_master(chain.skip(1)),
        chain[0].data_style is Some ==> chain_data(chain) == chain[0].data_style,
        chain[0].data_style is None ==> chain_data(chain) == chain_data(chain.skip(1)),
        chain_master(Seq::<RawView>::empty()) is None,
        chain_data(Seq::<RawView>::empty()) is None,
{
}

} // verus!
