//! Which slides a deck has, what they are called, what they are drawn on, and how their
//! shapes look.

use vstd::prelude::*;
use crate::cellstyle::VAlign;
use crate::chars::{decimal, trimmed};
use crate::html::decl;
use crate::model::looks::{lemma_itself, lemma_part};
use crate::model::words::holds;
use crate::odf::length::px_text;
use crate::odf::slide::place::Place;
use crate::odf::slide::{
    background_of, canvas_of, first_title, is_default_name, is_furniture, is_title, loses_outline,
    master_named, master_page_of, page_name_of, pages_in, paint_css, shown_page, text_css, title_of,
    MAX_SLIDES,
};
use crate::odf::style::store::{SetupView, Store};
use crate::odf::style::{Family, GraphicProps};
use crate::paint::{fill_css, line_css};
use crate::xml::Tree;

verus! {

// ── the slides of a deck ─────────────────────────────────────────────────────

/// The slides are the pages among some elements, in their order, as many as are kept.
pub proof fn law_pages_are_the_slides(v: Seq<Tree>, e: Tree)
    ensures
        pages_in(v).len() <= MAX_SLIDES,
        e.name == "page"@ && pages_in(v).len() < MAX_SLIDES ==> pages_in(v.push(e)) == pages_in(
            v,
        ).push(e),
        e.name != "page"@ ==> pages_in(v.push(e)) == pages_in(v),
        v.len() == 0 ==> pages_in(v).len() == 0,
    decreases v.len(),
{
    if v.len() > 0 {
        law_pages_are_the_slides(v.drop_last(), e);
    }
    assert(v.push(e).drop_last() =~= v);
}

/// The slide that is asked for is shown, where there is one of that number; past the last
/// the last is; and the first where none is asked for.
pub proof fn law_which_slide_is_shown(s: u32, count: nat)
    requires
        count > 0,
    ensures
        s < count ==> shown_page(Some(s), count) == s,
        s >= count ==> shown_page(Some(s), count) == count - 1,
        shown_page(None, count) == 0,
{
}

/// A slide is called by its title; or else by the name that its author gave it; or else by
/// its number, counted from one.
pub proof fn law_what_a_slide_is_called(page: Tree, i: nat)
    ensures
        ({
            let name = trimmed(page.text_attr("name"@));
            &&& title_of(page) is Some ==> page_name_of(page, i) == title_of(page)->0
            &&& title_of(page) is None && name.len() > 0 && !is_default_name(name) && name.len()
                <= 72 ==> page_name_of(page, i) == name
            &&& title_of(page) is None && (name.len() == 0 || is_default_name(name))
                ==> page_name_of(page, i) == "Slide "@ + decimal(i + 1)
        }),
{
}

/// The title is the first shape that is a title, a subtitle or an outline.
pub proof fn law_what_is_a_title(v: Seq<Tree>, k: int)
    requires
        0 <= k < v.len(),
        v[k].attr("class"@) == Some("title"@) || v[k].attr("class"@) == Some("subtitle"@)
            || v[k].attr("class"@) == Some("outline"@),
        forall|j: int|
            0 <= j < k ==> (#[trigger] v[j]).attr("class"@) != Some("title"@) && v[j].attr("class"@)
                != Some("subtitle"@) && v[j].attr("class"@) != Some("outline"@),
    ensures
        first_title(v) == Some(v[k]),
    decreases k,
{
    if k > 0 {
        assert(!is_title(v[0]));
        assert forall|j: int| 0 <= j < k - 1 implies (#[trigger] v.skip(1)[j]).attr("class"@)
            != Some("title"@) && v.skip(1)[j].attr("class"@) != Some("subtitle"@) && v.skip(
            1,
        )[j].attr("class"@) != Some("outline"@) by {
            assert(v.skip(1)[j] == v[j + 1]);
        }
        assert(v.skip(1)[k - 1] == v[k]);
        law_what_is_a_title(v.skip(1), k - 1);
    }
}

// ── masters ──────────────────────────────────────────────────────────────────

proof fn lemma_master_named(v: Seq<Tree>, name: Seq<char>, k: int)
    requires
        0 <= k < v.len(),
        v[k].name == "master-page"@,
        v[k].attr("name"@) == Some(name),
        forall|j: int|
            0 <= j < k ==> (#[trigger] v[j]).name != "master-page"@ || v[j].attr("name"@) != Some(
                name,
            ),
    ensures
        master_named(v, name) == Some(v[k]),
    decreases k,
{
    if k > 0 {
        assert(v[0].name != "master-page"@ || v[0].attr("name"@) != Some(name));
        assert forall|j: int| 0 <= j < k - 1 implies (#[trigger] v.skip(1)[j]).name
            != "master-page"@ || v.skip(1)[j].attr("name"@) != Some(name) by {
            assert(v.skip(1)[j] == v[j + 1]);
        }
        assert(v.skip(1)[k - 1] == v[k]);
        lemma_master_named(v.skip(1), name, k - 1);
    }
}

/// A slide has the first master page of the name that it states.
pub proof fn law_a_slide_has_the_master_that_it_names(
    root: Tree,
    styles: Tree,
    name: Seq<char>,
    k: int,
)
    requires
        root.child("master-styles"@) == Some(styles),
        0 <= k < styles.elems().len(),
        styles.elems()[k].name == "master-page"@,
        styles.elems()[k].attr("name"@) == Some(name),
        forall|j: int|
            0 <= j < k ==> (#[trigger] styles.elems()[j]).name != "master-page"@
                || styles.elems()[j].attr("name"@) != Some(name),
    ensures
        master_page_of(root, name) == Some(styles.elems()[k]),
{
    lemma_master_named(styles.elems(), name, k);
}

/// What a slide shows of its master: not what stands where the slide's own text goes, and
/// not a frame that holds neither a picture nor text; but every other shape.
pub proof fn law_what_is_shown_of_a_master(n: Tree)
    ensures
        n.attr("placeholder"@) == Some("true"@) ==> !is_furniture(n),
        n.attr("class"@) == Some("title"@) || n.attr("class"@) == Some("outline"@) || n.attr(
            "class"@,
        ) == Some("subtitle"@) || n.attr("class"@) == Some("text"@) || n.attr("class"@) == Some(
            "notes"@,
        ) || n.attr("class"@) == Some("page-number"@) || n.attr("class"@) == Some("date-time"@)
            || n.attr("class"@) == Some("header"@) || n.attr("class"@) == Some("footer"@)
            ==> !is_furniture(n),
        n.attr("placeholder"@) != Some("true"@) && n.attr("class"@) is None && n.name != "frame"@
            ==> is_furniture(n),
        n.attr("placeholder"@) != Some("true"@) && n.attr("class"@) is None && trimmed(
            n.inner_text(),
        ).len() > 0 ==> is_furniture(n),
        n.attr("placeholder"@) != Some("true"@) && n.attr("class"@) is None && (exists|i: int|
            0 <= i < n.elems().len() && (#[trigger] n.elems()[i]).name == "image"@)
            ==> is_furniture(n),
{
}

/// What a slide is drawn on: the fill that it states, whatever its master states; and its
/// master's where it states none.
pub proof fn law_what_a_slide_is_drawn_on(store: Store, setup: SetupView, page: Tree)
    ensures
        ({
            let own = page.attr("style-name"@);
            let f = store.resolved(Family::DrawingPage, own->0).page.fill;
            let theirs = setup.drawing_page_style;
            let stated = own is Some && (f.kind is Some || f.color is Some);
            &&& stated ==> background_of(store, setup, page) == f.value()
            &&& !stated && theirs is Some ==> background_of(store, setup, page) == store.resolved(
                Family::DrawingPage,
                theirs->0,
            ).page.fill.value()
            &&& !stated && theirs is None ==> background_of(store, setup, page) is None
        }),
{
}

/// A canvas is as large as the page states, where that is a size that a canvas can have.
pub proof fn law_how_large_a_canvas_is(setup: SetupView)
    ensures
        setup.stated && crate::slideshape::fits_canvas(setup.page.width)
            && crate::slideshape::fits_canvas(setup.page.height) ==> canvas_of(setup) == (
            setup.page.width,
            setup.page.height,
        ),
        !setup.stated ==> canvas_of(setup) == (
            crate::odf::slide::DEFAULT_WIDTH,
            crate::odf::slide::DEFAULT_HEIGHT,
        ),
{
}

// ── looks ────────────────────────────────────────────────────────────────────

/// Where the text of a shape stands in its box, and the gap on each side of it.
pub proof fn law_where_text_stands_in_its_box(b: Place, gp: GraphicProps)
    ensures
        ({
            let css = text_css(b, gp);
            let p = gp.padding;
            &&& gp.text_v_align == Some(VAlign::Top) || gp.text_v_align is None ==> holds(
                css,
                decl("justify-content"@, "flex-start"@),
            )
            &&& gp.text_v_align == Some(VAlign::Center) ==> holds(
                css,
                decl("justify-content"@, "center"@),
            )
            &&& gp.text_v_align == Some(VAlign::Bottom) ==> holds(
                css,
                decl("justify-content"@, "flex-end"@),
            )
            &&& gp.text_v_align == Some(VAlign::Justify) ==> holds(
                css,
                decl("justify-content"@, "space-between"@),
            )
            &&& p.left is Some && p.left->0 >= 0 ==> holds(
                css,
                decl("padding-left"@, px_text(p.left->0)),
            )
            &&& p.right is Some && p.right->0 >= 0 ==> holds(
                css,
                decl("padding-right"@, px_text(p.right->0)),
            )
            &&& p.top is Some && p.top->0 >= 0 ==> holds(
                css,
                decl("padding-top"@, px_text(p.top->0)),
            )
            &&& p.bottom is Some && p.bottom->0 >= 0 ==> holds(
                css,
                decl("padding-bottom"@, px_text(p.bottom->0)),
            )
        }),
{
    broadcast use {lemma_part, lemma_itself};

}

/// A shape is filled and outlined as its style says.
pub proof fn law_shapes_are_filled_and_outlined(gp: GraphicProps)
    ensures
        gp.fill.value() is Some ==> holds(paint_css(gp), fill_css(gp.fill.value()->0)),
        gp.stroke.value() is Some ==> holds(paint_css(gp), line_css(gp.stroke.value()->0)),
        gp.fill.value() is None && gp.stroke.value() is None ==> paint_css(gp).len() == 0,
{
    broadcast use {lemma_part, lemma_itself};

}

/// A rectangle loses nothing as a box; any other outline that a shape names does.
pub proof fn law_which_outlines_are_lost(n: Tree, g: Tree, t: Seq<char>)
    requires
        n.child("enhanced-geometry"@) == Some(g),
        g.attr("type"@) == Some(t),
    ensures
        loses_outline(n) <==> t != "rectangle"@ && t != "ooxml-rect"@ && t
            != "ooxml-rectangle"@,
{
}

} // verus!
