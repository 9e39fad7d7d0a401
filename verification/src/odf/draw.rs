//! Frames: the pictures of a text document, and the boxes that stand for what is not
//! drawn.
//!
//! A frame becomes a run, so that it stands in the line it belongs to. A text frame holds
//! blocks, which no paragraph can hold: they follow the paragraph.

use vstd::prelude::*;
use crate::chars::{chars_of, string_of, trim, trimmed};
use crate::media::{shown_as, wanted_views, Shown, ShownView, Wanted};
use crate::model::{as_px, run_views, to_px, Break, Graphic, GraphicView, Run, Side};
use crate::odf::length::{clamp_px, clamped, Px, PX};
use crate::odf::list::{cut, cut_to};
use crate::odf::pkg::{sanitized, Entries};
use crate::odf::style::{Family, GraphicProps, HPos, WrapMode};
use crate::odf::style::props::{len, len_attr, or_else};
use crate::odf::text::{push_run, Ctx, CtxView, Env, EnvView};
use crate::odf::text::blocks::{hoist, hoisted};
use crate::odf::text::runs::Drawn;
use crate::xml::{trees, Element, Tree};

pub mod laws;

verus! {

/// Graphics per document, pictures and boxes alike.
pub const MAX_GRAPHICS: usize = 200;

/// The longest side of a box.
pub const MAX_BOX_PX: Px = 1_560_576_000_000;

/// The sides of a box that states no size.
pub const DEFAULT_BOX_PX: Px = 36_576_000_000;

/// Characters of a description kept.
pub const MAX_LABEL_CHARS: usize = 200;

pub const NOTE_COUNT: &'static str = "Some images not shown";

pub const NOTE_ANCHOR: &'static str = "Frames placed in the text flow";

pub const NOTE_OBJECT: &'static str = "Embedded objects not drawn";

pub const OBJECT: &'static str = "embedded object";

pub const UNAVAILABLE: &'static str = "image unavailable";

pub const NOT_LOADED: &'static str = "image not loaded";

pub const GRAPHIC: &'static str = "graphic";

// ── the box ──────────────────────────────────────────────────────────────────

/// A length times a fraction, to the nearest unit.
pub open spec fn scaled(v: int, n: int, d: int) -> Px {
    as_px((2 * (v * n) + d) / (2 * d))
}

/// No less than a pixel.
pub open spec fn visible(v: Px) -> Px {
    if v < PX {
        PX
    } else {
        v
    }
}

/// The widest box that a column holds.
pub open spec fn widest(column: Px) -> Px {
    if PX <= column <= MAX_BOX_PX {
        column
    } else {
        MAX_BOX_PX
    }
}

/// A box, made smaller until the column holds it, in its proportions.
pub open spec fn fit_of(w: Px, h: Px, column: Px) -> (Px, Px) {
    let most = widest(column);
    if w <= most && h <= MAX_BOX_PX {
        (visible(w), visible(h))
    } else if most * h <= MAX_BOX_PX * w {
        (most, visible(scaled(h as int, most as int, w as int)))
    } else {
        (visible(scaled(w as int, MAX_BOX_PX as int, h as int)), MAX_BOX_PX)
    }
}

fn scale(v: Px, n: Px, d: Px) -> (r: Px)
    requires
        0 < v,
        0 < n <= MAX_BOX_PX,
        0 < d,
    ensures
        r == scaled(v as int, n as int, d as int),
{
    assert(0 < v * n <= 0x7fff_ffff_ffff_ffff * 1_560_576_000_000) by (nonlinear_arith)
        requires
            0 < v <= 0x7fff_ffff_ffff_ffff,
            0 < n <= 1_560_576_000_000,
    ;
    let p: i128 = v as i128 * n as i128;
    let a: i128 = 2 * p + d as i128;
    let b: i128 = 2 * d as i128;
    to_px(a / b)
}

fn at_least_one(v: Px) -> (r: Px)
    ensures
        r == visible(v),
{
    if v < PX {
        PX
    } else {
        v
    }
}

/// Makes a box smaller until the column holds it.
pub fn fit(w: Px, h: Px, column: Px) -> (r: (Px, Px))
    requires
        w > 0,
        h > 0,
    ensures
        r == fit_of(w, h, column),
{
    let most: Px = if PX <= column && column <= MAX_BOX_PX {
        column
    } else {
        MAX_BOX_PX
    };
    if w <= most && h <= MAX_BOX_PX {
        return (at_least_one(w), at_least_one(h));
    }
    assert(0 < most * h <= 1_560_576_000_000 * 0x7fff_ffff_ffff_ffff) by (nonlinear_arith)
        requires
            0 < h <= 0x7fff_ffff_ffff_ffff,
            0 < most <= 1_560_576_000_000,
    ;
    assert(0 < MAX_BOX_PX * w <= 1_560_576_000_000 * 0x7fff_ffff_ffff_ffff) by (nonlinear_arith)
        requires
            0 < w <= 0x7fff_ffff_ffff_ffff,
            MAX_BOX_PX == 1_560_576_000_000,
    ;
    let a: i128 = most as i128 * h as i128;
    let b: i128 = MAX_BOX_PX as i128 * w as i128;
    if a <= b {
        (most, at_least_one(scale(h, most, w)))
    } else {
        (at_least_one(scale(w, MAX_BOX_PX, h)), MAX_BOX_PX)
    }
}

/// A box of any size ends up within the column and the longest side, and one that was
/// within them is kept.
pub proof fn law_fitted_box_is_bounded(w: Px, h: Px, column: Px)
    requires
        w > 0,
        h > 0,
    ensures
        PX <= fit_of(w, h, column).0 <= widest(column),
        PX <= fit_of(w, h, column).1 <= MAX_BOX_PX,
        PX <= column ==> widest(column) <= column,
        PX <= w <= widest(column) && PX <= h <= MAX_BOX_PX ==> fit_of(w, h, column) == (w, h),
{
    let most = widest(column);
    if !(w <= most && h <= MAX_BOX_PX) {
        if most * h <= MAX_BOX_PX * w {
            lemma_scaled_at_most(h as int, most as int, w as int, MAX_BOX_PX as int);
        } else {
            assert(w * MAX_BOX_PX <= most * h) by (nonlinear_arith)
                requires
                    most * h > MAX_BOX_PX * w,
            ;
            lemma_scaled_at_most(w as int, MAX_BOX_PX as int, h as int, most as int);
        }
    }
}

proof fn lemma_scaled_at_most(v: int, n: int, d: int, m: int)
    requires
        0 <= v,
        0 <= n,
        0 < d,
        v * n <= m * d || n * v <= m * d,
        0 <= m <= MAX_BOX_PX,
    ensures
        scaled(v, n, d) <= m,
{
    let a = 2 * (v * n) + d;
    let b = 2 * d;
    let q = a / b;
    assert(0 <= v * n) by (nonlinear_arith)
        requires
            0 <= v,
            0 <= n,
    ;
    assert(v * n == n * v) by (nonlinear_arith);
    assert(a < b * (m + 1)) by (nonlinear_arith)
        requires
            a == 2 * (v * n) + d,
            b == 2 * d,
            v * n <= m * d,
            d > 0,
    ;
    assert(q <= m) by (nonlinear_arith)
        requires
            q == a / b,
            b > 0,
            a < b * (m + 1),
    ;
    assert(q >= 0) by (nonlinear_arith)
        requires
            q == a / b,
            b > 0,
            a >= 0,
    ;
}

/// A length that is more than nothing.
pub open spec fn stated_px(e: Tree, attr: Seq<char>) -> Option<Px> {
    match len_attr(e, attr) {
        Some(v) => if v > 0 {
            Some(v)
        } else {
            None
        },
        None => None,
    }
}

/// The box of a frame: the size it states, or else the style's least size. Half a box is
/// none.
pub open spec fn box_of(frame: Tree, gp: GraphicProps, column: Px) -> (Px, Px) {
    let w = or_else(stated_px(frame, "width"@), gp.min_width_px);
    let h = or_else(stated_px(frame, "height"@), gp.min_height_px);
    if w is Some && h is Some && w->0 > 0 && h->0 > 0 {
        fit_of(w->0, h->0, column)
    } else {
        (DEFAULT_BOX_PX, DEFAULT_BOX_PX)
    }
}

fn side_px(frame: &Element, attr: &str, least: Option<Px>) -> (r: Option<Px>)
    ensures
        r == or_else(stated_px(frame@, attr@), least),
{
    match len(frame, attr) {
        Some(v) => if v > 0 {
            Some(v)
        } else {
            least
        },
        None => least,
    }
}

fn frame_box(frame: &Element, gp: &GraphicProps, column: Px) -> (r: (Px, Px))
    ensures
        r == box_of(frame@, *gp, column),
{
    let w: Option<Px> = side_px(frame, "width", gp.min_width_px);
    let h: Option<Px> = side_px(frame, "height", gp.min_height_px);
    if let Some(w) = w {
        if let Some(h) = h {
            if w > 0 && h > 0 {
                return fit(w, h, column);
            }
        }
    }
    (DEFAULT_BOX_PX, DEFAULT_BOX_PX)
}

// ── the label ────────────────────────────────────────────────────────────────

/// The text of a child, where it is not blank.
pub open spec fn described(e: Tree, name: Seq<char>) -> Option<Seq<char>> {
    match e.child(name) {
        Some(c) => if trimmed(c.inner_text()).len() > 0 {
            Some(trimmed(c.inner_text()))
        } else {
            None
        },
        None => None,
    }
}

/// What a frame says it shows: its description, or its title, or its name.
pub open spec fn label_of(frame: Tree) -> Seq<char> {
    cut(
        match described(frame, "desc"@) {
            Some(t) => t,
            None => match described(frame, "title"@) {
                Some(t) => t,
                None => trimmed(frame.text_attr("name"@)),
            },
        },
        MAX_LABEL_CHARS as int,
    )
}

fn describe(e: &Element, name: &str) -> (r: Option<Vec<char>>)
    ensures
        r is Some == described(e@, name@) is Some,
        r matches Some(t) ==> t@ == described(e@, name@)->0,
{
    match e.child(name) {
        Some(c) => {
            let t: Vec<char> = trim(&c.inner_text());
            if t.len() > 0 {
                Some(t)
            } else {
                None
            }
        },
        None => None,
    }
}

pub fn frame_label(frame: &Element) -> (r: String)
    ensures
        r@ == label_of(frame@),
{
    let t: Vec<char> = match describe(frame, "desc") {
        Some(t) => t,
        None => match describe(frame, "title") {
            Some(t) => t,
            None => trim(&chars_of(frame.text_attr("name"))),
        },
    };
    cut_to(string_of(&t).as_str(), MAX_LABEL_CHARS)
}

// ── the content ──────────────────────────────────────────────────────────────

/// The entry of the package that a reference names.
pub open spec fn part_of(entries: Seq<Seq<char>>, e: Tree) -> Option<Seq<char>> {
    match e.attr("href"@) {
        Some(href) => match sanitized(href) {
            Some(name) => if entries.contains(name) {
                Some(name)
            } else {
                None
            },
            None => None,
        },
        None => None,
    }
}

pub fn part<'a>(entries: &'a Entries, e: &Element) -> (r: Option<&'a str>)
    ensures
        r is Some == part_of(entries@, e@) is Some,
        r matches Some(s) ==> s@ == part_of(entries@, e@)->0,
{
    match e.attr_local("href") {
        Some(href) => entries.resolve_href(href),
        None => None,
    }
}

/// The first picture that the package holds.
pub open spec fn first_part(entries: Seq<Seq<char>>, v: Seq<Tree>) -> Option<Seq<char>>
    decreases v.len(),
{
    if v.len() == 0 {
        None
    } else if v[0].name == "image"@ && part_of(entries, v[0]) is Some {
        part_of(entries, v[0])
    } else {
        first_part(entries, v.skip(1))
    }
}

pub open spec fn is_object(name: Seq<char>) -> bool {
    name == "object"@ || name == "object-ole"@ || name == "plugin"@ || name == "applet"@ || name
        == "floating-frame"@
}

pub open spec fn any_object(v: Seq<Tree>) -> bool {
    exists|i: int| 0 <= i < v.len() && is_object((#[trigger] v[i]).name)
}

pub open spec fn any_image(v: Seq<Tree>) -> bool {
    exists|i: int| 0 <= i < v.len() && (#[trigger] v[i]).name == "image"@
}

/// The box of a graphic that is not drawn, with the frame's own label or else a reason.
pub open spec fn boxed(w: Px, h: Px, label: Seq<char>, reason: Seq<char>) -> GraphicView {
    Graphic {
        src: None,
        w_px: w,
        h_px: h,
        label: if label.len() == 0 {
            reason
        } else {
            label
        },
        float: None,
    }
}

pub fn placeholder(w: Px, h: Px, label: String, reason: &str) -> (r: Graphic)
    ensures
        r@ == boxed(w, h, label@, reason@),
{
    let v: Vec<char> = chars_of(label.as_str());
    Graphic {
        src: None,
        w_px: w,
        h_px: h,
        label: if v.len() == 0 {
            String::from_str(reason)
        } else {
            label
        },
        float: None,
    }
}

/// The width in whole pixels that a picture is made for.
pub open spec fn want_of(w: Px, most: Px) -> u32 {
    ((clamped(w as int, PX as int, most as int) + PX / 2) / PX as int) as u32
}

pub fn want(w: Px, most: Px) -> (r: u32)
    requires
        PX <= most <= 0x1000_0000_0000,
    ensures
        r == want_of(w, most),
{
    ((clamp_px(w, PX, most) + PX / 2) / PX) as u32
}

/// What a picture of the package is shown as. One that was not handed in is asked for.
pub open spec fn fetched(k: EnvView, s: CtxView, part: Seq<char>, want: u32) -> (
    CtxView,
    ShownView,
) {
    match shown_as(k.pictures, part, want) {
        Some(shown) => (s, shown),
        None => (
            CtxView { wanted: s.wanted.push((part, want)), ..s },
            Shown::Placeholder(NOT_LOADED@),
        ),
    }
}

pub fn fetch<'a>(k: &Env<'a>, ctx: &mut Ctx<'a>, part: &str, want: u32) -> (r: Shown)
    ensures
        (final(ctx)@, r@) == fetched(k@, old(ctx)@, part@, want),
{
    match k.pictures.get(part, want) {
        Some(Shown::DataUri(uri)) => Shown::DataUri(String::from_str(uri.as_str())),
        Some(Shown::Placeholder(reason)) => Shown::Placeholder(String::from_str(reason.as_str())),
        None => {
            let ghost before = ctx.wanted@;
            let x = Wanted { part: String::from_str(part), want };
            ctx.wanted.push(x);
            assert(wanted_views(ctx.wanted@) =~= wanted_views(before).push(x@));
            Shown::Placeholder(String::from_str(NOT_LOADED))
        },
    }
}

/// A picture of the package.
pub open spec fn pictured(
    k: EnvView,
    s: CtxView,
    part: Seq<char>,
    w: Px,
    h: Px,
    label: Seq<char>,
) -> (CtxView, GraphicView) {
    let f = fetched(k, s, part, want_of(w, MAX_BOX_PX));
    (
        f.0,
        match f.1 {
            Shown::DataUri(uri) => Graphic { src: Some(uri), w_px: w, h_px: h, label, float: None },
            Shown::Placeholder(reason) => boxed(w, h, label, reason),
        },
    )
}

fn picture<'a>(
    k: &Env<'a>,
    ctx: &mut Ctx<'a>,
    part: &str,
    w: Px,
    h: Px,
    label: String,
) -> (g: Graphic)
    ensures
        (final(ctx)@, g@) == pictured(k@, old(ctx)@, part@, w, h, label@),
{
    match fetch(k, ctx, part, want(w, MAX_BOX_PX)) {
        Shown::DataUri(uri) => Graphic { src: Some(uri), w_px: w, h_px: h, label, float: None },
        Shown::Placeholder(reason) => placeholder(w, h, label, reason.as_str()),
    }
}

/// What a frame frames: the first picture that the package holds, whatever stands beside
/// it; or else a box that says what is missing.
pub open spec fn content_of(
    k: EnvView,
    s: CtxView,
    frame: Tree,
    w: Px,
    h: Px,
    label: Seq<char>,
) -> (CtxView, GraphicView) {
    let v = frame.elems();
    match first_part(k.entries, v) {
        Some(part) => pictured(k, s, part, w, h, label),
        None => if any_object(v) {
            (s.noting(NOTE_OBJECT@), boxed(w, h, label, OBJECT@))
        } else if any_image(v) {
            (s, boxed(w, h, label, UNAVAILABLE@))
        } else {
            (s, boxed(w, h, label, GRAPHIC@))
        },
    }
}

fn content<'a>(
    k: &Env<'a>,
    ctx: &mut Ctx<'a>,
    frame: &'a Element,
    w: Px,
    h: Px,
    label: String,
) -> (g: Graphic)
    ensures
        (final(ctx)@, g@) == content_of(k@, old(ctx)@, frame@, w, h, label@),
{
    let v: Vec<&Element> = frame.elems();
    let ghost ts = trees(v@);
    let mut object: bool = false;
    let mut linked: bool = false;
    assert(ts.skip(0) =~= ts);
    for i in 0..v.len()
        invariant
            ts == trees(v@),
            ts == frame@.elems(),
            ctx@ == old(ctx)@,
            first_part(k@.entries, ts) == first_part(k@.entries, ts.skip(i as int)),
            object == exists|n: int| 0 <= n < i && is_object((#[trigger] ts[n]).name),
            linked == exists|n: int| 0 <= n < i && (#[trigger] ts[n]).name == "image"@,
    {
        let c: &Element = v[i];
        assert(ts[i as int] == c@);
        assert(ts.skip(i as int)[0] == c@);
        assert(ts.skip(i as int).skip(1) =~= ts.skip(i + 1));
        if c.is("image") {
            match part(k.entries, c) {
                Some(p) => {
                    return picture(k, ctx, p, w, h, label);
                },
                None => {
                    linked = true;
                },
            }
        }
        if c.is("object") || c.is("object-ole") || c.is("plugin") || c.is("applet") || c.is(
            "floating-frame",
        ) {
            object = true;
        }
    }
    if object {
        ctx.note(NOTE_OBJECT);
        return placeholder(w, h, label, OBJECT);
    }
    if linked {
        return placeholder(w, h, label, UNAVAILABLE);
    }
    placeholder(w, h, label, GRAPHIC)
}

// ── anchoring ────────────────────────────────────────────────────────────────

/// How a frame joins the text.
#[derive(Clone, Copy, PartialEq, Eq, Debug, Structural)]
pub enum Wrap {
    Inline,
    Float(Side),
    /// Text above and below it, none beside it.
    OwnLine,
}

/// How a frame joins the text, and whether that is a position other than the document's.
pub open spec fn wrap_of(frame: Tree, gp: GraphicProps) -> (Wrap, bool) {
    let anchor = frame.attr("anchor-type"@);
    if anchor is None || anchor == Some("as-char"@) || anchor == Some("char"@) {
        (Wrap::Inline, false)
    } else {
        match gp.wrap_mode {
            Some(WrapMode::Alone) => (Wrap::OwnLine, false),
            Some(WrapMode::Left) => (Wrap::Float(Side::Right), false),
            Some(WrapMode::Right) => (Wrap::Float(Side::Left), false),
            Some(WrapMode::Parallel) | Some(WrapMode::Dynamic) => match gp.h_pos {
                Some(HPos::Left) => (Wrap::Float(Side::Left), false),
                Some(HPos::Right) => (Wrap::Float(Side::Right), false),
                _ => (Wrap::Inline, true),
            },
            _ => (Wrap::Inline, true),
        }
    }
}

fn wrap(frame: &Element, gp: &GraphicProps) -> (r: (Wrap, bool))
    ensures
        r == wrap_of(frame@, *gp),
{
    match frame.attr_local("anchor-type") {
        None => {
            return (Wrap::Inline, false);
        },
        Some(a) => {
            if *a == *"as-char" || *a == *"char" {
                return (Wrap::Inline, false);
            }
        },
    }
    match gp.wrap_mode {
        Some(WrapMode::Alone) => (Wrap::OwnLine, false),
        Some(WrapMode::Left) => (Wrap::Float(Side::Right), false),
        Some(WrapMode::Right) => (Wrap::Float(Side::Left), false),
        Some(WrapMode::Parallel) | Some(WrapMode::Dynamic) => match gp.h_pos {
            Some(HPos::Left) => (Wrap::Float(Side::Left), false),
            Some(HPos::Right) => (Wrap::Float(Side::Right), false),
            _ => (Wrap::Inline, true),
        },
        _ => (Wrap::Inline, true),
    }
}

/// The runs after a graphic, in the shape that its wrap asks for.
pub open spec fn placed(d: Drawn, g: GraphicView, wrap: Wrap) -> Drawn {
    if d.s.images >= MAX_GRAPHICS {
        Drawn { s: d.s.noting(NOTE_COUNT@), ..d }
    } else {
        Drawn {
            s: CtxView { images: (d.s.images + 1) as usize, ..d.s },
            out: match wrap {
                Wrap::Inline => d.out.push(Run::Graphic(g)),
                Wrap::Float(side) => d.out.push(
                    Run::Graphic(Graphic { float: Some(side), ..g }),
                ),
                Wrap::OwnLine => d.out.push(Run::Break(Break::Line)).push(Run::Graphic(g)).push(
                    Run::Break(Break::Line),
                ),
            },
        }
    }
}

fn place<'a>(ctx: &mut Ctx<'a>, out: &mut Vec<Run>, g: Graphic, wrap: Wrap)
    ensures
        (Drawn { s: final(ctx)@, out: run_views(final(out)@) }) == placed(
            Drawn { s: old(ctx)@, out: run_views(old(out)@) },
            g@,
            wrap,
        ),
{
    if ctx.images >= MAX_GRAPHICS {
        ctx.note(NOTE_COUNT);
        return;
    }
    ctx.images = ctx.images + 1;
    match wrap {
        Wrap::Inline => {
            push_run(out, Run::Graphic(g));
        },
        Wrap::Float(side) => {
            let mut g = g;
            g.float = Some(side);
            push_run(out, Run::Graphic(g));
        },
        Wrap::OwnLine => {
            push_run(out, Run::Break(Break::Line));
            push_run(out, Run::Graphic(g));
            push_run(out, Run::Break(Break::Line));
        },
    }
}

/// The runs after a frame that holds no text.
pub open spec fn pictured_frame(k: EnvView, d: Drawn, frame: Tree) -> Drawn {
    let gp = k.styles.resolved(Family::Graphic, frame.text_attr("style-name"@)).graphic;
    let b = box_of(frame, gp, k.column_px);
    let c = content_of(k, d.s, frame, b.0, b.1, label_of(frame));
    let wr = wrap_of(frame, gp);
    placed(
        Drawn {
            s: if wr.1 {
                c.0.noting(NOTE_ANCHOR@)
            } else {
                c.0
            },
            ..d
        },
        c.1,
        wr.0,
    )
}

fn emit_picture<'a>(k: &Env<'a>, ctx: &mut Ctx<'a>, out: &mut Vec<Run>, frame: &'a Element)
    ensures
        (Drawn { s: final(ctx)@, out: run_views(final(out)@) }) == pictured_frame(
            k@,
            Drawn { s: old(ctx)@, out: run_views(old(out)@) },
            frame@,
        ),
{
    let gp: GraphicProps = k.styles.resolve(
        Family::Graphic,
        frame.text_attr("style-name"),
    ).graphic;
    let (w, h): (Px, Px) = frame_box(frame, &gp, k.column_px);
    let label: String = frame_label(frame);
    let g: Graphic = content(k, ctx, frame, w, h, label);
    let (how, moved): (Wrap, bool) = wrap(frame, &gp);
    if moved {
        ctx.note(NOTE_ANCHOR);
    }
    place(ctx, out, g, how);
}

/// The runs after a frame. A text frame adds none: its blocks follow the paragraph.
pub open spec fn framed(k: EnvView, d: Drawn, frame: Tree, boxes: usize) -> Drawn
    decreases boxes, 0int, 0int, 0int, 1int, 0int,
{
    let tb = frame.child("text-box"@);
    if tb is Some && tb->0.elems().len() > 0 {
        Drawn { s: hoisted(k, d.s, tb->0, boxes), ..d }
    } else {
        pictured_frame(k, d, frame)
    }
}

/// Adds the runs of a frame.
pub fn emit_frame<'a>(
    k: &Env<'a>,
    ctx: &mut Ctx<'a>,
    out: &mut Vec<Run>,
    frame: &'a Element,
    boxes: usize,
)
    ensures
        (Drawn { s: final(ctx)@, out: run_views(final(out)@) }) == framed(
            k@,
            Drawn { s: old(ctx)@, out: run_views(old(out)@) },
            frame@,
            boxes,
        ),
    decreases boxes, 0int, 0int, 0int, 1int, 0int,
{
    if let Some(tb) = frame.child("text-box") {
        let v: Vec<&Element> = tb.elems();
        assert(trees(v@).len() == v@.len());
        if v.len() > 0 {
            hoist(k, ctx, tb, boxes);
            return;
        }
    }
    emit_picture(k, ctx, out, frame);
}

} // verus!
