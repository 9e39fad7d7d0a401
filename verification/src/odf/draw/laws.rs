//! What a frame shows, how large it is, and how it joins the text.

use vstd::prelude::*;
use crate::chars::trimmed;
use crate::media::shown_as;
use crate::model::{Break, Graphic, GraphicView, Run, Side};
use crate::odf::draw::{
    box_of, content_of, described, first_part, fit_of, label_of, part_of, placed, stated_px,
    want_of, wrap_of, Wrap, DEFAULT_BOX_PX, MAX_BOX_PX, MAX_GRAPHICS,
};
use crate::odf::length::{Px, PX};
use crate::odf::style::{GraphicProps, HPos, WrapMode};
use crate::odf::text::runs::Drawn;
use crate::odf::text::{CtxView, EnvView};
use crate::xml::Tree;

verus! {

/// A frame is as large as it states; or, where it states no size, as the least that its
/// style states; and of a size of its own where either side is missing.
pub proof fn law_how_large_a_frame_is(frame: Tree, gp: GraphicProps, column: Px)
    ensures
        ({
            let w = stated_px(frame, "width"@);
            let h = stated_px(frame, "height"@);
            &&& w is Some && h is Some ==> box_of(frame, gp, column) == fit_of(w->0, h->0, column)
            &&& w is None && h is Some && gp.min_width_px is Some && gp.min_width_px->0 > 0
                ==> box_of(frame, gp, column) == fit_of(gp.min_width_px->0, h->0, column)
            &&& w is Some && h is None && gp.min_height_px is Some && gp.min_height_px->0 > 0
                ==> box_of(frame, gp, column) == fit_of(w->0, gp.min_height_px->0, column)
            &&& w is None && gp.min_width_px is None ==> box_of(frame, gp, column) == (
                DEFAULT_BOX_PX,
                DEFAULT_BOX_PX,
            )
            &&& h is None && gp.min_height_px is None ==> box_of(frame, gp, column) == (
                DEFAULT_BOX_PX,
                DEFAULT_BOX_PX,
            )
        }),
{
}

/// A box that is too wide for its column is as wide as the column, and keeps its
/// proportions: its height is to its width as before, to the nearest unit.
pub proof fn law_a_wide_box_keeps_its_proportions(w: Px, h: Px, column: Px)
    requires
        PX <= column <= MAX_BOX_PX,
        w > column,
        0 < h <= MAX_BOX_PX,
        column * h <= MAX_BOX_PX * w,
    ensures
        ({
            let f = fit_of(w, h, column);
            &&& f.0 == column
            &&& f.1 > PX ==> -w <= 2 * (f.1 * w - h * column) <= w
        }),
{
    let n = column as int;
    let d = w as int;
    let v = h as int;
    let q = (2 * (v * n) + d) / (2 * d);
    assert(0 <= v * n <= 2_500_000_000_000_000_000_000_000) by (nonlinear_arith)
        requires
            0 < v <= 1_560_576_000_000,
            0 < n <= 1_560_576_000_000,
    ;
    assert(2 * d * q <= 2 * (v * n) + d < 2 * d * q + 2 * d) by (nonlinear_arith)
        requires
            d > 0,
            q == (2 * (v * n) + d) / (2 * d),
    ;
    assert(2 * d * q == 2 * (q * d)) by (nonlinear_arith);
    assert(q >= 0 && q <= v * n + 1) by (nonlinear_arith)
        requires
            d > 0,
            v * n >= 0,
            2 * d * q <= 2 * (v * n) + d < 2 * d * q + 2 * d,
    ;
    assert(q <= v) by (nonlinear_arith)
        requires
            2 * d * q <= 2 * (v * n) + d,
            d > n,
            v >= 1,
            n > 0,
    ;
}

/// What a frame is called: its description; or else its title; or else its name.
pub proof fn law_what_a_frame_is_called(frame: Tree)
    ensures
        ({
            let d = described(frame, "desc"@);
            let t = described(frame, "title"@);
            let n = trimmed(frame.text_attr("name"@));
            &&& d is Some && d->0.len() <= 60 ==> label_of(frame) == d->0
            &&& d is None && t is Some && t->0.len() <= 60 ==> label_of(frame) == t->0
            &&& d is None && t is None && n.len() <= 60 ==> label_of(frame) == n
        }),
        forall|name: Seq<char>|
            frame.child(name) is Some && trimmed(frame.child(name)->0.inner_text()).len() > 0
                ==> #[trigger] described(frame, name) == Some(
                trimmed(frame.child(name)->0.inner_text()),
            ),
{
}

proof fn lemma_first_part(entries: Seq<Seq<char>>, v: Seq<Tree>, k: int)
    requires
        0 <= k < v.len(),
        v[k].name == "image"@,
        part_of(entries, v[k]) is Some,
        forall|j: int|
            0 <= j < k ==> (#[trigger] v[j]).name != "image"@ || part_of(entries, v[j]) is None,
    ensures
        first_part(entries, v) == part_of(entries, v[k]),
    decreases k,
{
    if k > 0 {
        assert(v[0].name != "image"@ || part_of(entries, v[0]) is None);
        assert forall|j: int| 0 <= j < k - 1 implies (#[trigger] v.skip(1)[j]).name != "image"@
            || part_of(entries, v.skip(1)[j]) is None by {
            assert(v.skip(1)[j] == v[j + 1]);
        }
        assert(v.skip(1)[k - 1] == v[k]);
        lemma_first_part(entries, v.skip(1), k - 1);
    }
}

/// A frame shows the first of its pictures that the package holds, as large as the frame;
/// and where the picture cannot be shown, a box with the frame's name, or else with the
/// reason.
pub proof fn law_a_frame_shows_its_picture(
    k: EnvView,
    s: CtxView,
    frame: Tree,
    w: Px,
    h: Px,
    label: Seq<char>,
    i: int,
)
    requires
        0 <= i < frame.elems().len(),
        frame.elems()[i].name == "image"@,
        part_of(k.entries, frame.elems()[i]) is Some,
        forall|j: int|
            0 <= j < i ==> (#[trigger] frame.elems()[j]).name != "image"@ || part_of(
                k.entries,
                frame.elems()[j],
            ) is None,
    ensures
        ({
            let c = content_of(k, s, frame, w, h, label);
            let part = part_of(k.entries, frame.elems()[i])->0;
            let shown = shown_as(k.pictures, part, want_of(w, MAX_BOX_PX));
            &&& c.1.w_px == w && c.1.h_px == h && c.1.float is None
            &&& shown is Some && shown->0 is DataUri ==> c.1.src == Some(shown->0->DataUri_0)
                && c.1.label == label
            &&& shown is Some && shown->0 is Placeholder ==> c.1.src is None && c.1.label == (
            if label.len() == 0 {
                shown->0->Placeholder_0
            } else {
                label
            })
            &&& shown is Some ==> c.0 == s
            &&& shown is None ==> c.1.src is None && c.0.wanted == s.wanted.push(
                (part, want_of(w, MAX_BOX_PX)),
            )
        }),
{
    lemma_first_part(k.entries, frame.elems(), i);
}

/// How a frame joins the text. One that stands like a character is in the line. One with
/// text on one side of it floats on the other; one with text on neither has a line to
/// itself; one with text on both floats where it stands.
pub proof fn law_how_a_frame_joins_the_text(frame: Tree, gp: GraphicProps)
    ensures
        ({
            let a = frame.attr("anchor-type"@);
            let apart = a is Some && a != Some("as-char"@) && a != Some("char"@);
            let w = wrap_of(frame, gp);
            &&& !apart ==> w == (Wrap::Inline, false)
            &&& apart && gp.wrap_mode == Some(WrapMode::Alone) ==> w == (Wrap::OwnLine, false)
            &&& apart && gp.wrap_mode == Some(WrapMode::Left) ==> w == (
                Wrap::Float(Side::Right),
                false,
            )
            &&& apart && gp.wrap_mode == Some(WrapMode::Right) ==> w == (
                Wrap::Float(Side::Left),
                false,
            )
            &&& apart && (gp.wrap_mode == Some(WrapMode::Parallel) || gp.wrap_mode == Some(
                WrapMode::Dynamic,
            )) && gp.h_pos == Some(HPos::Left) ==> w == (Wrap::Float(Side::Left), false)
            &&& apart && (gp.wrap_mode == Some(WrapMode::Parallel) || gp.wrap_mode == Some(
                WrapMode::Dynamic,
            )) && gp.h_pos == Some(HPos::Right) ==> w == (Wrap::Float(Side::Right), false)
            &&& apart && gp.wrap_mode == Some(WrapMode::RunThrough) ==> w == (Wrap::Inline, true)
            &&& apart && gp.wrap_mode is None ==> w == (Wrap::Inline, true)
        }),
{
}

/// A picture is a run: in the line, floating on its side, or between two breaks. Past the
/// last that is drawn none is.
pub proof fn law_a_picture_is_a_run(d: Drawn, g: GraphicView, side: Side)
    ensures
        d.s.images >= MAX_GRAPHICS ==> placed(d, g, Wrap::Inline).out == d.out,
        d.s.images < MAX_GRAPHICS ==> ({
            &&& placed(d, g, Wrap::Inline).out == d.out.push(Run::Graphic(g))
            &&& placed(d, g, Wrap::Float(side)).out.last() == Run::Graphic(
                Graphic { float: Some(side), ..g },
            )
            &&& placed(d, g, Wrap::OwnLine).out == d.out + seq![
                Run::Break(Break::Line),
                Run::Graphic(g),
                Run::Break(Break::Line),
            ]
            &&& placed(d, g, Wrap::Inline).s.images == d.s.images + 1
        }),
{
    if d.s.images < MAX_GRAPHICS {
        assert(placed(d, g, Wrap::OwnLine).out =~= d.out + seq![
            Run::Break(Break::Line),
            Run::Graphic(g),
            Run::Break(Break::Line),
        ]);
    }
}

/// The width that a picture is made for is its own, in whole pixels, to the nearest.
pub proof fn law_pictures_are_made_for_their_width(w: Px, most: Px)
    requires
        PX <= w <= most <= 6_242_304_000_000,
    ensures
        -PX <= 2 * (want_of(w, most) * PX - w) <= PX,
{
    let q = (w + PX / 2) / PX as int;
    assert(0 <= q <= 100_000);
}

} // verus!
