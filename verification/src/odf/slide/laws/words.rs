//! What a slide says can be read on its canvas.

use vstd::prelude::*;
use crate::chars::trimmed;
use crate::html::{attr_text, goes_on, group_goes_on, style_text, Written};
use crate::markup::open_text;
use crate::model::words::{holds, lemma_opened_holds, lemma_part_holds, lemma_still_holds};
use crate::notes::law_notes_are_held_once;
use crate::odf::draw::any_object;
use crate::odf::length::Px;
use crate::odf::slide::laws::{lemma_one, lemma_shapes, lemma_shapes_each};
use crate::odf::slide::place::{moved_by, place_of, Place};
use crate::odf::slide::{
    at_least_px, canvas_of, canvas_style, class_style, has_text, loses_outline, master_page_of,
    paint_css, place_css, shape_props, shape_walked, shapes_each, shapes_walked, slide_env,
    slide_walked, text_content, text_css, text_drawn, Shaped, GROUPS, MAX_SHAPES, NOTE_CUSTOM,
    NOTE_SHAPES, NOTE_TRANSFORM,
};
use crate::odf::style::store::SetupView;
use crate::odf::style::GraphicProps;
use crate::odf::text::blocks::walked;
use crate::odf::text::laws::words::{
    any_bears, law_what_is_said_can_be_read, most_runs, readable, says,
};
use crate::odf::text::laws::{
    kept, law_a_walk_keeps_its_bounds, lemma_kept_on, lemma_noting, lemma_ready, lemma_same,
    lemma_writing, reach, ready,
};
use crate::odf::text::{lists_of, CtxView, EnvView, Input, Room, DEPTHS, MAX_PARAS, MAX_RUNS};
use crate::xml::Tree;

verus! {

/// A shape that is a box, as a slide draws it: a frame or one of the closed outlines. The
/// document does not hide it, and it holds neither a picture nor an object.
pub open spec fn is_plain_box(n: Tree) -> bool {
    &&& n.name == "frame"@ || n.name == "custom-shape"@ || n.name == "rect"@ || n.name
        == "ellipse"@ || n.name == "circle"@ || n.name == "polygon"@ || n.name
        == "regular-polygon"@ || n.name == "path"@ || n.name == "caption"@ || n.name
        == "measure"@
    &&& n.attr("display"@) != Some("none"@)
    &&& n.child("image"@) is None
    &&& forall|i: int|
        0 <= i < n.elems().len() ==> (#[trigger] n.elems()[i]).name != "object"@
            && n.elems()[i].name != "object-ole"@ && n.elems()[i].name != "plugin"@
            && n.elems()[i].name != "applet"@ && n.elems()[i].name != "floating-frame"@
}

/// The blocks of a shape are in its text box, or else in the shape itself.
pub open spec fn is_content(n: Tree, content: Tree) -> bool {
    if n.child("text-box"@) is Some {
        n.child("text-box"@) == Some(content)
    } else {
        content == n
    }
}

/// An element has text to show: among its children is a paragraph, a heading, a list, a
/// table or a section, and its text is not blank.
pub open spec fn has_words(content: Tree) -> bool {
    &&& exists|i: int|
        0 <= i < content.elems().len() && ((#[trigger] content.elems()[i]).name == "p"@
            || content.elems()[i].name == "h"@ || content.elems()[i].name == "list"@
            || content.elems()[i].name == "table"@ || content.elems()[i].name == "section"@)
    &&& trimmed(content.inner_text()).len() > 0 || content.child("table"@) is Some
}

proof fn lemma_boxed_names(n: Tree)
    requires
        is_plain_box(n),
    ensures
        n.name != "g"@,
{
    reveal_strlit("g");
    reveal_strlit("frame");
    reveal_strlit("custom-shape");
    reveal_strlit("rect");
    reveal_strlit("ellipse");
    reveal_strlit("circle");
    reveal_strlit("polygon");
    reveal_strlit("regular-polygon");
    reveal_strlit("path");
    reveal_strlit("caption");
    reveal_strlit("measure");
    assert("g"@[0] == 'g' && "frame"@[0] == 'f' && "custom-shape"@[0] == 'c' && "rect"@[0] == 'r'
        && "ellipse"@[0] == 'e' && "circle"@[0] == 'c' && "polygon"@[0] == 'p'
        && "regular-polygon"@[0] == 'r' && "path"@[0] == 'p' && "caption"@[0] == 'c'
        && "measure"@[0] == 'm');
}

/// The text of a shape is drawn in a box of its own: the box is there, and every text of a
/// paragraph of it can be read.
proof fn lemma_text_is_drawn(
    k: EnvView,
    s: CtxView,
    n: Tree,
    content: Tree,
    b: Place,
    gp: GraphicProps,
    p: Tree,
    t: Seq<char>,
)
    requires
        ready(s, reach(Room::whole())),
        is_content(n, content),
        has_words(content),
        !text_drawn(k, s, n, b, gp).w.full,
    ensures
        ({
            let end = text_drawn(k, s, n, b, gp);
            &&& holds(end.w.text, "<div class=\"pp-tb\""@)
            &&& end.paras < MAX_PARAS && any_bears(content.elems(), p, (DEPTHS - 1) as nat)
                && says(p, t, DEPTHS as nat) && most_runs(p.children, (DEPTHS - 1) as nat)
                <= MAX_RUNS ==> readable(end.w.text, t, k.terms)
        }),
{
    broadcast use {lemma_kept_on, group_goes_on};

    let end = text_drawn(k, s, n, b, gp);
    let w0 = s.w.opened("div"@, class_style("pp-tb"@, text_css(b, gp)));
    let w = w0.opened("div"@, attr_text("class"@, "pp-tbi"@));
    let inside = CtxView { w, prev_style: None, ..s };
    assert(kept(s, inside)) by {
        reveal(kept);
    }
    lemma_ready(s, inside, reach(Room::whole()));
    let k2 = EnvView { column_px: at_least_px(b.w), ..k };
    law_a_walk_keeps_its_bounds(k2, inside, content, Room::whole());
    let u = walked(k2, inside, content, Room::whole());
    assert(text_content(n) == content);
    assert(has_text(content));
    assert(end.w == u.w.closed().closed() && end.paras == u.paras);
    assert(goes_on(w, u.w)) by {
        reveal(kept);
    }
    assert(goes_on(u.w, end.w));
    assert(goes_on(w0, end.w));
    assert(!w0.full && !u.w.full) by {
        reveal(goes_on);
    }
    lemma_opened_holds(s.w, "div"@, class_style("pp-tb"@, text_css(b, gp)));
    lemma_box_tag(style_text(text_css(b, gp)));
    lemma_part_holds(
        w0.text,
        open_text("div"@, class_style("pp-tb"@, text_css(b, gp))),
        "<div class=\"pp-tb\""@,
        style_text(text_css(b, gp)) + seq!['>'],
    );
    lemma_still_holds(w0, end.w, "<div class=\"pp-tb\""@);
    if end.paras < MAX_PARAS && any_bears(content.elems(), p, (DEPTHS - 1) as nat) && says(
        p,
        t,
        DEPTHS as nat,
    ) && most_runs(p.children, (DEPTHS - 1) as nat) <= MAX_RUNS {
        law_what_is_said_can_be_read(k2, inside, content, p, Room::whole(), t);
        assert(readable(u.w.text, t, k.terms));
        lemma_still_readable(u.w, end.w, t, k.terms);
    }
}

proof fn lemma_still_readable(a: Written, b: Written, t: Seq<char>, terms: Seq<Seq<char>>)
    requires
        goes_on(a, b),
        readable(a.text, t, terms),
    ensures
        readable(b.text, t, terms),
{
    let n = choose|n: u64| holds(a.text, (#[trigger] crate::highlight::marked(t, terms, n)).0);
    lemma_still_holds(a, b, crate::highlight::marked(t, terms, n).0);
}

proof fn lemma_box_tag(style: Seq<char>)
    ensures
        open_text("div"@, attr_text("class"@, "pp-tb"@) + style) == "<div class=\"pp-tb\""@ + (style
            + seq!['>']),
{
    reveal_strlit("div");
    reveal_strlit("class");
    reveal_strlit("pp-tb");
    reveal_strlit("=\"");
    reveal_strlit("\"");
    reveal_strlit("<div class=\"pp-tb\"");
    lemma_plain_value();
    assert(attr_text("class"@, "pp-tb"@) =~= seq![
        ' ',
        'c',
        'l',
        'a',
        's',
        's',
        '=',
        '"',
        'p',
        'p',
        '-',
        't',
        'b',
        '"',
    ]);
    assert(open_text("div"@, attr_text("class"@, "pp-tb"@) + style) =~= "<div class=\"pp-tb\""@ + (
    style + seq!['>']));
}

proof fn lemma_plain_value()
    ensures
        crate::html::escaped("pp-tb"@, true) == "pp-tb"@,
{
    reveal_strlit("pp-tb");
    let s = "pp-tb"@;
    reveal_with_fuel(crate::html::escaped, 6);
    assert(s.drop_last().drop_last().drop_last().drop_last().drop_last() =~= Seq::<char>::empty());
    assert(crate::html::escaped(s, true) =~= s);
}

/// A shape that is placed, is not hidden, holds neither a picture nor an object, and has
/// text, shows a text box, and every text of its paragraphs can be read in it: paragraphs
/// and headings beside each other, in lists and in sections alike.
pub proof fn law_a_shape_shows_its_text(
    k: EnvView,
    x: Shaped,
    n: Tree,
    content: Tree,
    canvas: (Px, Px),
    below: nat,
    p: Tree,
    t: Seq<char>,
)
    requires
        ready(x.s, reach(Room::whole())),
        is_plain_box(n),
        place_of(n, canvas) is Some,
        is_content(n, content),
        has_words(content),
        !shape_walked(k, x, n, canvas, below, false).s.w.full,
    ensures
        ({
            let end = shape_walked(k, x, n, canvas, below, false).s;
            &&& holds(end.w.text, "<div class=\"pp-tb\""@)
            &&& end.paras < MAX_PARAS && any_bears(content.elems(), p, (DEPTHS - 1) as nat)
                && says(p, t, DEPTHS as nat) && most_runs(p.children, (DEPTHS - 1) as nat)
                <= MAX_RUNS ==> readable(end.w.text, t, k.terms)
        }),
{
    broadcast use {lemma_kept_on, group_goes_on};

    lemma_boxed_names(n);
    let b = place_of(n, canvas)->0;
    let s = if moved_by(n).odd {
        x.s.noting(NOTE_TRANSFORM@)
    } else {
        x.s
    };
    lemma_same(x.s);
    lemma_noting(x.s, NOTE_TRANSFORM@);
    lemma_ready(x.s, s, reach(Room::whole()));
    assert(!any_object(n.elems()));
    let gp = shape_props(k.styles, n);
    let s1 = if n.name == "custom-shape"@ && loses_outline(n) {
        s.noting(NOTE_CUSTOM@)
    } else {
        s
    };
    lemma_same(s);
    lemma_noting(s, NOTE_CUSTOM@);
    assert(kept(s, s1));
    let w = s1.w.opened("div"@, class_style("pp-sp"@, place_css(b) + paint_css(gp))).closed();
    lemma_writing(s1, w);
    lemma_ready(s, CtxView { w, ..s1 }, reach(Room::whole()));
    lemma_text_is_drawn(k, CtxView { w, ..s1 }, n, content, b, gp, p, t);
    assert(shape_walked(k, x, n, canvas, below, false).s == text_drawn(
        k,
        CtxView { w, ..s1 },
        n,
        b,
        gp,
    ));
}

/// A shape stands among others: beside them, or in a group that is not hidden.
pub open spec fn stands_in(v: Seq<Tree>, n: Tree, deep: nat) -> bool
    decreases deep,
{
    exists|i: int|
        0 <= i < v.len() && (#[trigger] v[i] == n || (deep > 0 && v[i].name == "g"@ && v[i].attr(
            "display"@,
        ) != Some("none"@) && stands_in(v[i].elems(), n, (deep - 1) as nat)))
}

/// The walk over the shapes came to one and went on to `end`.
pub open spec fn came_to(k: EnvView, x: Shaped, n: Tree, canvas: (Px, Px), below: nat, end: CtxView)
    -> bool {
    &&& ready(x.s, reach(Room::whole()))
    &&& goes_on(shape_walked(k, x, n, canvas, below, false).s.w, end.w)
    &&& shape_walked(k, x, n, canvas, below, false).s.paras <= end.paras
}

proof fn lemma_comes_to(
    k: EnvView,
    x: Shaped,
    v: Seq<Tree>,
    n: Tree,
    canvas: (Px, Px),
    below: nat,
    i: int,
) -> (r: (Shaped, nat))
    requires
        ready(x.s, reach(Room::whole())),
        0 <= i < v.len(),
        v[i] == n || (below > 0 && v[i].name == "g"@ && v[i].attr("display"@) != Some("none"@)
            && stands_in(v[i].elems(), n, (below - 1) as nat)),
        !shapes_each(k, x, v, canvas, below, false).s.w.full,
        !shapes_each(k, x, v, canvas, below, false).s.notes.contains(NOTE_SHAPES@),
    ensures
        came_to(k, r.0, n, canvas, r.1, shapes_each(k, x, v, canvas, below, false).s),
    decreases below, v.len(),
{
    broadcast use group_goes_on;

    let end = shapes_each(k, x, v, canvas, below, false);
    assert(!x.s.w.full);
    if x.count >= MAX_SHAPES {
        law_notes_are_held_once(x.s.notes, NOTE_SHAPES@);
        assert(false);
    }
    let next = shape_walked(k, x, v[0], canvas, below, false);
    lemma_one(k, x, v[0], canvas, below, false);
    lemma_ready(x.s, next.s, reach(Room::whole()));
    lemma_shapes_each(k, next, v.skip(1), canvas, below, false);
    assert(kept(next.s, end.s));
    assert(goes_on(next.s.w, end.s.w) && next.s.paras <= end.s.paras) by {
        reveal(kept);
    }
    assert(!next.s.w.full) by {
        reveal(goes_on);
    }
    assert(!next.s.notes.contains(NOTE_SHAPES@)) by {
        reveal(kept);
        if next.s.notes.contains(NOTE_SHAPES@) {
            let j = choose|j: int|
                0 <= j < next.s.notes.len() && next.s.notes[j] == NOTE_SHAPES@;
            assert(end.s.notes[j] == NOTE_SHAPES@);
        }
    }
    if i > 0 {
        assert(v.skip(1)[i - 1] == v[i]);
        lemma_comes_to(k, next, v.skip(1), n, canvas, below, i - 1)
    } else if v[0] == n {
        (x, below)
    } else {
        let u = v[0].elems();
        let j = choose|j: int|
            0 <= j < u.len() && (#[trigger] u[j] == n || (below - 1 > 0 && u[j].name == "g"@
                && u[j].attr("display"@) != Some("none"@) && stands_in(
                u[j].elems(),
                n,
                (below - 2) as nat,
            )));
        assert(next == shapes_each(k, x, u, canvas, (below - 1) as nat, false));
        lemma_comes_to(k, x, u, n, canvas, (below - 1) as nat, j)
    }
}

/// On a slide that is not full and leaves no shape out, every shape of the slide that has
/// text shows a text box, and every text of its paragraphs, headings, lists and sections
/// can be read.
pub proof fn law_a_slide_says_what_its_shapes_say(
    i: Input,
    page: Tree,
    setup: SetupView,
    cap: nat,
    n: Tree,
    content: Tree,
    p: Tree,
    t: Seq<char>,
)
    requires
        stands_in(page.elems(), n, (GROUPS - 1) as nat),
        is_plain_box(n),
        place_of(n, canvas_of(setup)) is Some,
        is_content(n, content),
        has_words(content),
        !slide_walked(i, page, setup, cap).w.full,
        !slide_walked(i, page, setup, cap).notes.contains(NOTE_SHAPES@),
    ensures
        ({
            let end = slide_walked(i, page, setup, cap);
            &&& holds(end.w.text, "<div class=\"pp-tb\""@)
            &&& end.paras < MAX_PARAS && any_bears(content.elems(), p, (DEPTHS - 1) as nat)
                && says(p, t, DEPTHS as nat) && most_runs(p.children, (DEPTHS - 1) as nat)
                <= MAX_RUNS ==> readable(end.w.text, t, i.terms)
        }),
{
    let canvas = canvas_of(setup);
    let k = slide_env(i, canvas);
    let s = CtxView::fresh(
        Written::fresh(cap).opened("div"@, class_style("pp-doc"@, canvas_style(i, setup, page))),
        lists_of(i.styles, Some(i.root)),
        i.notes,
    );
    let master = match i.styles {
        Some(root) => master_page_of(root, page.text_attr("master-page-name"@)),
        None => None,
    };
    let start = Shaped { s, count: 0 };
    let x = match master {
        Some(m) => shapes_walked(k, start, m, canvas, GROUPS as nat, true),
        None => start,
    };
    lemma_same(s);
    if let Some(m) = master {
        lemma_shapes(k, start, m, canvas, GROUPS as nat, true);
    }
    lemma_ready(s, x.s, reach(Room::whole()));
    let v = page.elems();
    let deep = (GROUPS - 1) as nat;
    let j = choose|j: int|
        0 <= j < v.len() && (#[trigger] v[j] == n || (deep > 0 && v[j].name == "g"@ && v[j].attr(
            "display"@,
        ) != Some("none"@) && stands_in(v[j].elems(), n, (deep - 1) as nat)));
    let end = slide_walked(i, page, setup, cap);
    assert(end == shapes_each(k, x, v, canvas, deep, false).s);
    let r = lemma_comes_to(k, x, v, n, canvas, deep, j);
    let at = shape_walked(k, r.0, n, canvas, r.1, false).s;
    assert(!at.w.full) by {
        reveal(goes_on);
    }
    law_a_shape_shows_its_text(k, r.0, n, content, canvas, r.1, p, t);
    lemma_still_holds(at.w, end.w, "<div class=\"pp-tb\""@);
    if readable(at.w.text, t, k.terms) {
        lemma_still_readable(at.w, end.w, t, k.terms);
    }
}

} // verus!
