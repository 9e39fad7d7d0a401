//! What the shapes of a slide come to.

use vstd::prelude::*;
use crate::html::{attr_text, decl, group_goes_on, style_text};
use crate::markup::open_text;
use crate::media::shown_as;
use crate::model::words::{holds, lemma_opened_holds, lemma_raw_holds, lemma_still_holds};
use crate::odf::draw::{is_object, part_of, want_of};
use crate::odf::length::Px;
use crate::odf::slide::place::{line_place, place_of, Place, MAX_SHAPE_PX};
use crate::odf::slide::{
    box_written, class_style, edge_of, image_drawn, line_drawn, place_css, shape_drawn, shape_props,
    shape_walked, shapes_each, Shaped, NOTE_OBJECT,
};
use crate::odf::text::{CtxView, EnvView};
use crate::xml::Tree;

verus! {

/// A picture fills its box: the image that was handed in for it, with the shape's own name
/// to read in its place; or a box that says why there is none. One that was not handed in
/// is asked for.
pub proof fn law_a_picture_fills_its_box(
    k: EnvView,
    s: CtxView,
    img: Tree,
    b: Place,
    label: Seq<char>,
    part: Seq<char>,
)
    requires
        part_of(k.entries, img) == Some(part),
    ensures
        ({
            let shown = shown_as(k.pictures, part, want_of(b.w, MAX_SHAPE_PX));
            let t = image_drawn(k, s, img, b, label);
            &&& shown is Some && shown->0 is DataUri && !t.w.full ==> holds(
                t.w.text,
                open_text(
                    "img"@,
                    attr_text("class"@, "pp-img"@) + attr_text("src"@, shown->0->DataUri_0)
                        + attr_text("alt"@, label) + style_text(place_css(b)),
                ),
            )
            &&& shown is Some && shown->0 is Placeholder && !t.w.full ==> holds(
                t.w.text,
                crate::html::escaped(shown->0->Placeholder_0, false),
            )
            &&& shown is None ==> t.wanted == s.wanted.push((part, want_of(b.w, MAX_SHAPE_PX)))
            &&& shown is Some ==> t.wanted == s.wanted
        }),
{
    let shown = shown_as(k.pictures, part, want_of(b.w, MAX_SHAPE_PX));
    let t = image_drawn(k, s, img, b, label);
    if !t.w.full && shown is Some {
        if shown->0 is DataUri {
            lemma_raw_holds(
                s.w,
                open_text(
                    "img"@,
                    attr_text("class"@, "pp-img"@) + attr_text("src"@, shown->0->DataUri_0)
                        + attr_text("alt"@, label) + style_text(place_css(b)),
                ),
            );
        } else {
            lemma_box_says(s.w, b, shown->0->Placeholder_0);
        }
    }
}

proof fn lemma_box_says(w: crate::html::Written, b: Place, label: Seq<char>)
    requires
        !box_written(w, b, label).full,
    ensures
        holds(box_written(w, b, label).text, crate::html::escaped(label, false)),
{
    broadcast use group_goes_on;

    let o = w.opened("div"@, class_style("pp-ph"@, place_css(b)));
    let t = crate::html::escaped(label, false);
    let r = o.raw(t);
    assert(!r.full);
    lemma_raw_holds(o, t);
    lemma_still_holds(r, box_written(w, b, label), t);
}

/// A shape with an object in it says so, in a box and in a note, and shows nothing else.
pub proof fn law_objects_are_noted(k: EnvView, s: CtxView, n: Tree, b: Place, i: int)
    requires
        n.child("image"@) is None,
        0 <= i < n.elems().len(),
        n.elems()[i].name == "object"@ || n.elems()[i].name == "object-ole"@ || n.elems()[i].name
            == "plugin"@ || n.elems()[i].name == "applet"@ || n.elems()[i].name
            == "floating-frame"@,
    ensures
        shape_drawn(k, s, n, b).notes == s.noting(NOTE_OBJECT@).notes,
        shape_drawn(k, s, n, b).paras == s.paras,
{
    assert(is_object(n.elems()[i].name));
}

/// The paint of a shape that is no picture is drawn in its place.
pub proof fn law_a_line_is_drawn(k: EnvView, s: CtxView, n: Tree, b: Place)
    requires
        !line_drawn(k, s, n, b).w.full,
    ensures
        holds(
            line_drawn(k, s, n, b).w.text,
            open_text(
                "div"@,
                attr_text("class"@, "pp-sp"@) + style_text(
                    place_css(b) + decl("border-top"@, edge_of(shape_props(k.styles, n))),
                ),
            ),
        ),
{
    broadcast use group_goes_on;

    let attrs = class_style(
        "pp-sp"@,
        place_css(b) + decl("border-top"@, edge_of(shape_props(k.styles, n))),
    );
    let o = s.w.opened("div"@, attrs);
    lemma_opened_holds(s.w, "div"@, attrs);
    lemma_still_holds(o, line_drawn(k, s, n, b).w, open_text("div"@, attrs));
}

/// Which shapes are drawn: lines, connectors and polylines between their ends, a group by
/// what is in it, and nothing that the document hides. A shape that is drawn is counted.
pub proof fn law_which_shapes_are_drawn(
    k: EnvView,
    x: Shaped,
    n: Tree,
    canvas: (Px, Px),
    below: nat,
)
    requires
        x.count < 1000,
    ensures
        n.attr("display"@) == Some("none"@) ==> shape_walked(k, x, n, canvas, below, false) == x,
        n.attr("display"@) != Some("none"@) && (n.name == "line"@ || n.name == "connector"@
            || n.name == "polyline"@) && line_place(n) is Some ==> shape_walked(
            k,
            x,
            n,
            canvas,
            below,
            false,
        ) == (Shaped { s: line_drawn(k, x.s, n, line_place(n)->0), count: (x.count + 1) as usize }),
        n.attr("display"@) != Some("none"@) && n.name == "g"@ && below > 0 ==> shape_walked(
            k,
            x,
            n,
            canvas,
            below,
            false,
        ) == shapes_each(k, x, n.elems(), canvas, (below - 1) as nat, false),
        n.attr("display"@) != Some("none"@) && n.name == "frame"@ && place_of(n, canvas) is None
            ==> shape_walked(k, x, n, canvas, below, false) == x,
        n.attr("display"@) != Some("none"@) && n.name == "frame"@ && place_of(n, canvas) is Some
            ==> shape_walked(k, x, n, canvas, below, false).count == x.count + 1,
{
    reveal_strlit("line");
    reveal_strlit("connector");
    reveal_strlit("polyline");
    reveal_strlit("g");
    reveal_strlit("frame");
    reveal_strlit("custom-shape");
    reveal_strlit("rect");
    reveal_strlit("ellipse");
    reveal_strlit("circle");
    reveal_strlit("polygon");
    reveal_strlit("regular-polygon");
    reveal_strlit("path");
    reveal_strlit("caption");
    reveal_strlit("measure");
    assert("line"@[0] == 'l' && "connector"@.len() == 9 && "polyline"@.len() == 8 && "g"@.len() == 1
        && "frame"@.len() == 5 && "custom-shape"@.len() == 12 && "rect"@[0] == 'r'
        && "ellipse"@.len() == 7 && "circle"@.len() == 6 && "polygon"@.len() == 7
        && "regular-polygon"@.len() == 15 && "path"@[0] == 'p' && "caption"@.len() == 7
        && "measure"@.len() == 7 && "line"@.len() == 4 && "rect"@.len() == 4 && "path"@.len() == 4
        && "frame"@[0] == 'f');
}

} // verus!
