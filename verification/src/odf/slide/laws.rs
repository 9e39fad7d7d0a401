//! What drawing a slide keeps, whatever the slide holds.

use vstd::prelude::*;
use crate::html::{attr_text, begins, goes_on, group_goes_on, lemma_stays, Written};
use crate::odf::draw::{any_object, label_of, OBJECT};
use crate::odf::length::Px;
use crate::odf::slide::{
    at_least_px, box_written, canvas_of, canvas_style, class_style, has_text, image_drawn,
    is_boxed, is_lined, is_skipped, line_drawn, loses_outline, master_page_of, paint_css,
    place_css, shape_drawn, shape_props, shape_walked, shapes_each, shapes_walked, slide_env,
    slide_walked, text_content, text_css, text_drawn, Shaped, GROUPS, MAX_SHAPES, NOTE_CUSTOM,
    NOTE_OBJECT, NOTE_SHAPES, NOTE_TRANSFORM,
};
use crate::odf::slide::place::{line_place, moved_by, place_of, Place};
use crate::odf::style::GraphicProps;
use crate::odf::style::store::SetupView;
use crate::odf::text::{lists_of, CtxView, EnvView, Input, Room};
use crate::odf::text::blocks::walked;
use crate::odf::text::laws::{
    kept, law_a_walk_keeps_its_bounds, lemma_kept_on, lemma_noting, lemma_ready, lemma_same,
    lemma_writing, reach, ready, within,
};
use crate::xml::Tree;

pub mod pages;
pub mod shapes;
pub mod words;

verus! {

proof fn lemma_image(k: EnvView, s: CtxView, img: Tree, b: Place, label: Seq<char>)
    ensures
        kept(s, image_drawn(k, s, img, b, label)),
{
    broadcast use group_goes_on;

    lemma_stays(s.w);
    reveal(kept);
}

proof fn lemma_text(k: EnvView, s: CtxView, n: Tree, b: Place, gp: GraphicProps)
    requires
        ready(s, reach(Room::whole())),
    ensures
        kept(s, text_drawn(k, s, n, b, gp)),
{
    broadcast use {lemma_kept_on, group_goes_on};

    let content = text_content(n);
    lemma_same(s);
    if has_text(content) {
        let w = s.w.opened("div"@, class_style("pp-tb"@, text_css(b, gp))).opened(
            "div"@,
            attr_text("class"@, "pp-tbi"@),
        );
        let inside = CtxView { w, prev_style: None, ..s };
        assert(kept(s, inside)) by {
            reveal(kept);
        }
        lemma_ready(s, inside, reach(Room::whole()));
        let k2 = EnvView { column_px: at_least_px(b.w), ..k };
        law_a_walk_keeps_its_bounds(k2, inside, content, Room::whole());
        let t = walked(k2, inside, content, Room::whole());
        lemma_writing(t, t.w.closed().closed());
    }
}

proof fn lemma_shape(k: EnvView, s: CtxView, n: Tree, b: Place)
    requires
        ready(s, reach(Room::whole())),
    ensures
        kept(s, shape_drawn(k, s, n, b)),
{
    broadcast use {lemma_kept_on, group_goes_on};

    let gp = shape_props(k.styles, n);
    match n.child("image"@) {
        Some(img) => lemma_image(k, s, img, b, label_of(n)),
        None => if any_object(n.elems()) {
            let noted = s.noting(NOTE_OBJECT@);
            lemma_noting(s, NOTE_OBJECT@);
            lemma_writing(noted, box_written(s.w, b, OBJECT@));
        } else {
            let s1 = if n.name == "custom-shape"@ && loses_outline(n) {
                s.noting(NOTE_CUSTOM@)
            } else {
                s
            };
            lemma_same(s);
            lemma_noting(s, NOTE_CUSTOM@);
            assert(kept(s, s1));
            let w = s1.w.opened(
                "div"@,
                class_style("pp-sp"@, place_css(b) + paint_css(gp)),
            ).closed();
            lemma_writing(s1, w);
            lemma_ready(s, CtxView { w, ..s1 }, reach(Room::whole()));
            lemma_text(k, CtxView { w, ..s1 }, n, b, gp);
        },
    }
}

proof fn lemma_shapes(
    k: EnvView,
    x: Shaped,
    e: Tree,
    canvas: (Px, Px),
    room: nat,
    master: bool,
)
    requires
        ready(x.s, reach(Room::whole())),
    ensures
        kept(x.s, shapes_walked(k, x, e, canvas, room, master).s),
    decreases room, 0int, 0int,
{
    if room == 0 {
        lemma_same(x.s);
    } else {
        lemma_shapes_each(k, x, e.elems(), canvas, (room - 1) as nat, master);
    }
}

proof fn lemma_shapes_each(
    k: EnvView,
    x: Shaped,
    v: Seq<Tree>,
    canvas: (Px, Px),
    below: nat,
    master: bool,
)
    requires
        ready(x.s, reach(Room::whole())),
    ensures
        kept(x.s, shapes_each(k, x, v, canvas, below, master).s),
    decreases below, 2int, v.len(),
{
    broadcast use lemma_kept_on;

    if v.len() == 0 || x.s.w.full {
        lemma_same(x.s);
    } else if x.count >= MAX_SHAPES {
        lemma_noting(x.s, NOTE_SHAPES@);
    } else {
        let next = shape_walked(k, x, v[0], canvas, below, master);
        lemma_one(k, x, v[0], canvas, below, master);
        lemma_ready(x.s, next.s, reach(Room::whole()));
        lemma_shapes_each(k, next, v.skip(1), canvas, below, master);
    }
}

proof fn lemma_one(
    k: EnvView,
    x: Shaped,
    n: Tree,
    canvas: (Px, Px),
    below: nat,
    master: bool,
)
    requires
        ready(x.s, reach(Room::whole())),
    ensures
        kept(x.s, shape_walked(k, x, n, canvas, below, master).s),
    decreases below, 1int, 0int,
{
    broadcast use {lemma_kept_on, group_goes_on};

    lemma_same(x.s);
    if is_skipped(n, master) {
    } else if n.name == "g"@ {
        lemma_shapes(k, x, n, canvas, below, master);
    } else if is_boxed(n.name) {
        if let Some(b) = place_of(n, canvas) {
            let s = if moved_by(n).odd {
                x.s.noting(NOTE_TRANSFORM@)
            } else {
                x.s
            };
            lemma_noting(x.s, NOTE_TRANSFORM@);
            lemma_ready(x.s, s, reach(Room::whole()));
            lemma_shape(k, s, n, b);
        }
    } else if is_lined(n.name) {
        if let Some(b) = line_place(n) {
            lemma_writing(x.s, line_drawn(k, x.s, n, b).w);
        }
    }
}

/// Whatever a slide holds, its preview is within the bytes that it may have; no count is
/// past its bound; every list that was entered was left; and what opening the package
/// noted is still noted.
pub proof fn law_a_slide_stays_within_bounds(i: Input, page: Tree, setup: SetupView, cap: nat)
    ensures
        ({
            let s = slide_walked(i, page, setup, cap);
            &&& s.w.cap == cap
            &&& s.w.used <= cap
            &&& within(s)
            &&& s.lists.stack.len() == 0
            &&& s.lists.over == 0
            &&& begins(i.notes, s.notes)
        }),
{
    broadcast use {lemma_kept_on, group_goes_on};

    let canvas = canvas_of(setup);
    let k = slide_env(i, canvas);
    let none = Written::fresh(cap);
    let s = CtxView::fresh(
        none.opened("div"@, class_style("pp-doc"@, canvas_style(i, setup, page))),
        lists_of(i.styles, Some(i.root)),
        i.notes,
    );
    assert(goes_on(none, s.w));
    let master = match i.styles {
        Some(root) => master_page_of(root, page.text_attr("master-page-name"@)),
        None => None,
    };
    let start = Shaped { s, count: 0 };
    let x = match master {
        Some(m) => shapes_walked(k, start, m, canvas, GROUPS as nat, true),
        None => start,
    };
    lemma_same(s);
    if let Some(m) = master {
        lemma_shapes(k, start, m, canvas, GROUPS as nat, true);
    }
    lemma_ready(s, x.s, reach(Room::whole()));
    lemma_shapes(k, x, page, canvas, GROUPS as nat, false);
    assert(kept(s, slide_walked(i, page, setup, cap)));
    reveal(kept);
    reveal(goes_on);
}

} // verus!
