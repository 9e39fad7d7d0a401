//! Presentations: one slide at a time, on a canvas of boxes.
//!
//! A master page holds both what every slide shows and the prompts that only an editor
//! shows. The first are drawn beneath the slide, the second are not.

use vstd::prelude::*;
use place::{line_box, line_place, moved_by, place, place_css, place_of, Place, MAX_SHAPE_PX};
use crate::xml;
use crate::cellstyle::VAlign;
use crate::chars::{
    all_digits, chars_of, decimal, digit, is_digit, push_text, push_u64, starts_with, string_of,
    trim, trimmed,
};
use crate::document::{DocView, OfficeDoc, Shape};
use crate::highlight::{terms_of, Terms};
use crate::html::{
    attr_text, decl, no_attrs, opt_px, opt_view, push_attr, style_text, Style, Writer, Written,
};
use crate::markup::{are_attrs, balanced, is_name, is_void, lemma_attr_names, lemma_tags, plain};
use crate::media::{picture_views, Pictures, Shown};
use crate::model::HtmlStyle;
use crate::notes::{note_texts, Notes};
use crate::odf::draw::{
    any_object, fetch, fetched, frame_label, is_object, label_of, part, part_of, want, want_of,
    OBJECT, UNAVAILABLE,
};
use crate::odf::length::{join_by, joined_by, push_px, px_text, words, words_from, Px, PX};
use crate::odf::list::{cut, cut_to, Lists};
use crate::odf::pkg::{Entries, Package, MALFORMED};
use crate::odf::style::{
    merge, merged, not_below_zero, pad, unstated, Family, FillProps, GraphicProps, PageSetup,
    Resolved, Styles,
};
use crate::odf::style::store::{opt_tree, SetupView, Store};
use crate::odf::text::{
    doc_from, finish, input_of, lists_of, Classes, Ctx, CtxView, Env, EnvView, Input, Room,
};
use crate::odf::text::blocks::{walk as walk_blocks, walked};
use crate::paint::{fill_css, line_css, push_fill, push_line, Fill};
use crate::slideshape::{
    canvas_css, canvas_decls, fits_canvas, in_range, BASE_CSS, DEFAULT_HEIGHT, DEFAULT_WIDTH,
};
use crate::xml::{document, trees, Element, Tree};

pub mod laws;
pub mod place;

verus! {

/// The bytes of a slide.
pub const HTML_CAP: usize = 6_291_456;

pub const MAX_SLIDES: usize = 500;

/// Shapes drawn on a slide, the master's and its own.
pub const MAX_SHAPES: usize = 400;

/// How deep groups may be nested, plus one.
pub const GROUPS: usize = 9;

pub const MAX_TITLE_CHARS: usize = 72;

pub const NOTE_TRANSFORM: &'static str = "Some shapes drawn upright";

pub const NOTE_OBJECT: &'static str = "Embedded objects not drawn";

pub const NOTE_SHAPES: &'static str = "Some shapes not shown";

pub const NOTE_CUSTOM: &'static str = "Custom shapes drawn as rectangles";

pub const NOTE_BODY: &'static str = "Slides unreadable";

/// The names of a canvas's stylesheet.
pub open spec fn slide_classes() -> Classes {
    Classes {
        html: HtmlStyle {
            para_class: "pp-p",
            list_class: "pp-p pp-li",
            marker_class: "pp-bu",
            text_class: "pp-tx",
            break_class: "",
            img_class: "pp-img-i",
            graphic_class: "pp-ph-i",
            scalable: false,
        },
        table: "pp-tbl",
        table_auto: "pp-tbl",
        cell: "",
    }
}

impl Classes {
    /// The names of a canvas's stylesheet.
    pub fn slide() -> (r: Classes)
        ensures
            r == slide_classes(),
    {
        Classes {
            html: HtmlStyle {
                para_class: "pp-p",
                list_class: "pp-p pp-li",
                marker_class: "pp-bu",
                text_class: "pp-tx",
                break_class: "",
                img_class: "pp-img-i",
                graphic_class: "pp-ph-i",
                scalable: false,
            },
            table: "pp-tbl",
            table_auto: "pp-tbl",
            cell: "",
        }
    }
}

// ── the deck ─────────────────────────────────────────────────────────────────

pub open spec fn is_title(e: Tree) -> bool {
    e.attr("class"@) == Some("title"@) || e.attr("class"@) == Some("subtitle"@) || e.attr("class"@)
        == Some("outline"@)
}

pub open spec fn first_title(v: Seq<Tree>) -> Option<Tree>
    decreases v.len(),
{
    if v.len() == 0 {
        None
    } else if is_title(v[0]) {
        Some(v[0])
    } else {
        first_title(v.skip(1))
    }
}

/// The text of the shape that a slide calls its title.
pub open spec fn title_of(page: Tree) -> Option<Seq<char>> {
    match first_title(page.elems()) {
        Some(e) => {
            let t = cut(joined_by(words_from(e.inner_text(), 0), ' '), MAX_TITLE_CHARS as int);
            if t.len() > 0 {
                Some(t)
            } else {
                None
            }
        },
        None => None,
    }
}

fn titled(e: &Element) -> (r: bool)
    ensures
        r == is_title(e@),
{
    match e.attr_local("class") {
        Some(c) => *c == *"title" || *c == *"subtitle" || *c == *"outline",
        None => false,
    }
}

fn title(page: &Element) -> (r: Option<String>)
    ensures
        opt_view(r) == title_of(page@),
{
    let v: Vec<&Element> = page.elems();
    let ghost ts = trees(v@);
    assert(ts.skip(0) =~= ts);
    for i in 0..v.len()
        invariant
            ts == trees(v@),
            ts == page@.elems(),
            first_title(ts) == first_title(ts.skip(i as int)),
    {
        assert(ts.skip(i as int)[0] == v@[i as int]@);
        assert(ts.skip(i as int).skip(1) =~= ts.skip(i + 1));
        if titled(v[i]) {
            let t: Vec<char> = join_by(&words(&v[i].inner_text()), ' ');
            if t.len() == 0 {
                return None;
            }
            return Some(cut_to(string_of(&t).as_str(), MAX_TITLE_CHARS));
        }
    }
    None
}

/// A name that the producer gave: `page` and a number.
pub open spec fn is_default_name(s: Seq<char>) -> bool {
    "page"@.is_prefix_of(s) && s.len() > "page"@.len() && all_digits(s.skip("page"@.len() as int))
}

fn default_name(s: &Vec<char>) -> (r: bool)
    ensures
        r == is_default_name(s@),
{
    proof {
        reveal_strlit("page");
    }
    if !starts_with(s, "page") || s.len() <= 4 {
        return false;
    }
    for i in 4..s.len()
        invariant
            s@.len() > 4,
            "page"@.len() == 4,
            forall|n: int| 4 <= n < i ==> is_digit(#[trigger] s@[n]),
    {
        if !digit(s[i]) {
            assert(s@.skip(4)[i - 4] == s@[i as int]);
            return false;
        }
    }
    true
}

/// The name of a slide: its title, or the name that its author gave it, or its number.
pub open spec fn page_name_of(page: Tree, i: nat) -> Seq<char> {
    let name = trimmed(page.text_attr("name"@));
    match title_of(page) {
        Some(t) => t,
        None => if name.len() > 0 && !is_default_name(name) {
            cut(name, MAX_TITLE_CHARS as int)
        } else {
            "Slide "@ + decimal(i + 1)
        },
    }
}

fn page_name(page: &Element, i: usize) -> (r: String)
    requires
        i < MAX_SLIDES,
    ensures
        r@ == page_name_of(page@, i as nat),
{
    if let Some(t) = title(page) {
        return t;
    }
    let name: Vec<char> = trim(&chars_of(page.text_attr("name")));
    if name.len() > 0 && !default_name(&name) {
        return cut_to(string_of(&name).as_str(), MAX_TITLE_CHARS);
    }
    let mut v: Vec<char> = Vec::new();
    push_text(&mut v, "Slide ");
    push_u64(&mut v, i as u64 + 1);
    assert(v@ =~= "Slide "@ + decimal((i + 1) as nat));
    string_of(&v)
}

/// The slides of a deck, as many as are kept.
pub open spec fn pages_in(v: Seq<Tree>) -> Seq<Tree>
    decreases v.len(),
{
    if v.len() == 0 {
        Seq::empty()
    } else {
        let before = pages_in(v.drop_last());
        if v.last().name == "page"@ && before.len() < MAX_SLIDES {
            before.push(v.last())
        } else {
            before
        }
    }
}

pub open spec fn pages_of(root: Tree) -> Seq<Tree> {
    match root.child("body"@) {
        Some(b) => match b.child("presentation"@) {
            Some(p) => pages_in(p.elems()),
            None => Seq::empty(),
        },
        None => Seq::empty(),
    }
}

fn pages(root: &Element) -> (r: Vec<&Element>)
    ensures
        trees(r@) == pages_of(root@),
        r@.len() <= MAX_SLIDES,
{
    let mut r: Vec<&Element> = Vec::new();
    assert(trees(r@) =~= Seq::<Tree>::empty());
    let pres: &Element = match root.child("body") {
        Some(b) => match b.child("presentation") {
            Some(p) => p,
            None => {
                return r;
            },
        },
        None => {
            return r;
        },
    };
    let v: Vec<&Element> = pres.elems();
    let ghost ts = trees(v@);
    assert(ts.take(0) =~= Seq::<Tree>::empty());
    for i in 0..v.len()
        invariant
            ts == trees(v@),
            trees(r@) == pages_in(ts.take(i as int)),
            r@.len() <= MAX_SLIDES,
    {
        assert(ts.take(i + 1).drop_last() =~= ts.take(i as int));
        assert(ts.take(i + 1).last() == v@[i as int]@);
        assert(trees(r@).len() == r@.len());
        let ghost before = r@;
        if v[i].is("page") && r.len() < MAX_SLIDES {
            r.push(v[i]);
            assert(trees(r@) =~= trees(before).push(v@[i as int]@));
        }
    }
    assert(ts.take(ts.len() as int) =~= ts);
    r
}

pub open spec fn names_of(v: Seq<Tree>) -> Seq<Seq<char>> {
    Seq::new(v.len(), |i: int| page_name_of(v[i], i as nat))
}

fn page_names(v: &Vec<&Element>) -> (r: Vec<String>)
    requires
        v@.len() <= MAX_SLIDES,
    ensures
        note_texts(r@) == names_of(trees(v@)),
{
    let mut r: Vec<String> = Vec::new();
    for i in 0..v.len()
        invariant
            v@.len() <= MAX_SLIDES,
            r@.len() == i,
            forall|n: int| 0 <= n < i ==> (#[trigger] r@[n])@ == page_name_of(v@[n]@, n as nat),
    {
        r.push(page_name(v[i], i));
    }
    assert(note_texts(r@) =~= names_of(trees(v@)));
    r
}

pub open spec fn master_named(v: Seq<Tree>, name: Seq<char>) -> Option<Tree>
    decreases v.len(),
{
    if v.len() == 0 {
        None
    } else if v[0].name == "master-page"@ && v[0].attr("name"@) == Some(name) {
        Some(v[0])
    } else {
        master_named(v.skip(1), name)
    }
}

/// The master page of a slide: the one named, or else the first.
pub open spec fn master_page_of(root: Tree, name: Seq<char>) -> Option<Tree> {
    match root.child("master-styles"@) {
        Some(m) => match master_named(m.elems(), name) {
            Some(e) => Some(e),
            None => m.child("master-page"@),
        },
        None => None,
    }
}

fn master_page<'d>(root: &'d Element, name: &str) -> (r: Option<&'d Element>)
    ensures
        r is Some == master_page_of(root@, name@) is Some,
        r matches Some(e) ==> e@ == master_page_of(root@, name@)->0,
{
    let masters: &'d Element = match root.child("master-styles") {
        Some(m) => m,
        None => {
            return None;
        },
    };
    let v: Vec<&'d Element> = masters.elems();
    let ghost ts = trees(v@);
    assert(ts.skip(0) =~= ts);
    for i in 0..v.len()
        invariant
            ts == trees(v@),
            ts == masters@.elems(),
            root@.child("master-styles"@) == Some(masters@),
            master_named(ts, name@) == master_named(ts.skip(i as int), name@),
    {
        assert(ts.skip(i as int)[0] == v@[i as int]@);
        assert(ts.skip(i as int).skip(1) =~= ts.skip(i + 1));
        if v[i].is("master-page") {
            if let Some(n) = v[i].attr_local("name") {
                if *n == *name {
                    return Some(v[i]);
                }
            }
        }
    }
    masters.child("master-page")
}

/// The fill of the canvas: the slide's own where it states one, or else the master's.
pub open spec fn background_of(store: Store, setup: SetupView, page: Tree) -> Option<Fill> {
    let own = match page.attr("style-name"@) {
        Some(n) => {
            let f = store.resolved(Family::DrawingPage, n).page.fill;
            if f.kind is Some || f.color is Some {
                Some(f)
            } else {
                None
            }
        },
        None => None,
    };
    match own {
        Some(f) => f.value(),
        None => match setup.drawing_page_style {
            Some(n) => store.resolved(Family::DrawingPage, n).page.fill.value(),
            None => None,
        },
    }
}

fn background(styles: &Styles, setup: &PageSetup, page: &Element) -> (r: Option<Fill>)
    ensures
        r == background_of(styles@, setup@, page@),
{
    if let Some(n) = page.attr_local("style-name") {
        let f: FillProps = styles.resolve(Family::DrawingPage, n).page.fill;
        if f.kind.is_some() || f.color.is_some() {
            return f.fill();
        }
    }
    match &setup.drawing_page_style {
        Some(n) => styles.resolve(Family::DrawingPage, n.as_str()).page.fill.fill(),
        None => None,
    }
}

// ── shapes ───────────────────────────────────────────────────────────────────

/// The state of a walk over a slide: the shapes drawn beside the rest.
pub struct Shaped {
    pub s: CtxView,
    pub count: usize,
}

/// A class that names a prompt of the editor.
pub open spec fn is_prompt(c: Seq<char>) -> bool {
    c == "title"@ || c == "outline"@ || c == "subtitle"@ || c == "text"@ || c == "notes"@ || c
        == "page-number"@ || c == "date-time"@ || c == "header"@ || c == "footer"@
}

fn prompt(c: &str) -> (r: bool)
    ensures
        r == is_prompt(c@),
{
    *c == *"title" || *c == *"outline" || *c == *"subtitle" || *c == *"text" || *c == *"notes"
        || *c == *"page-number" || *c == *"date-time" || *c == *"header" || *c == *"footer"
}

pub open spec fn holds_media(v: Seq<Tree>) -> bool {
    exists|i: int|
        0 <= i < v.len() && ((#[trigger] v[i]).name == "image"@ || is_object(v[i].name))
}

/// A shape of a master that slides show. A frame that is blank and holds no picture is a
/// prompt, whatever it is called.
pub open spec fn is_furniture(n: Tree) -> bool {
    if n.attr("placeholder"@) == Some("true"@) {
        false
    } else if n.attr("class"@) matches Some(c) && is_prompt(c) {
        false
    } else {
        n.name != "frame"@ || holds_media(n.elems()) || trimmed(n.inner_text()).len() > 0
    }
}

fn object(c: &Element) -> (r: bool)
    ensures
        r == is_object(c@.name),
{
    c.is("object") || c.is("object-ole") || c.is("plugin") || c.is("applet") || c.is(
        "floating-frame",
    )
}

fn has_media(n: &Element) -> (r: bool)
    ensures
        r == holds_media(n@.elems()),
{
    let v: Vec<&Element> = n.elems();
    let ghost ts = trees(v@);
    for i in 0..v.len()
        invariant
            ts == trees(v@),
            ts == n@.elems(),
            forall|j: int|
                0 <= j < i ==> (#[trigger] ts[j]).name != "image"@ && !is_object(ts[j].name),
    {
        assert(ts[i as int] == v@[i as int]@);
        if v[i].is("image") || object(v[i]) {
            return true;
        }
    }
    false
}

fn has_object(n: &Element) -> (r: bool)
    ensures
        r == any_object(n@.elems()),
{
    let v: Vec<&Element> = n.elems();
    let ghost ts = trees(v@);
    for i in 0..v.len()
        invariant
            ts == trees(v@),
            ts == n@.elems(),
            forall|j: int| 0 <= j < i ==> !is_object((#[trigger] ts[j]).name),
    {
        assert(ts[i as int] == v@[i as int]@);
        if object(v[i]) {
            return true;
        }
    }
    false
}

fn master_shape(n: &Element) -> (r: bool)
    ensures
        r == is_furniture(n@),
{
    if let Some(p) = n.attr_local("placeholder") {
        if *p == *"true" {
            return false;
        }
    }
    if let Some(c) = n.attr_local("class") {
        if prompt(c) {
            return false;
        }
    }
    if !n.is("frame") || has_media(n) {
        return true;
    }
    trim(&n.inner_text()).len() > 0
}

/// Outlines that a rectangle loses nothing of.
pub open spec fn is_rect_type(t: Seq<char>) -> bool {
    t == "rectangle"@ || t == "ooxml-rect"@ || t == "ooxml-rectangle"@
}

/// Whether a rectangle loses the outline of a shape.
pub open spec fn loses_outline(n: Tree) -> bool {
    match n.child("enhanced-geometry"@) {
        Some(g) => match g.attr("type"@) {
            Some(t) => !is_rect_type(t),
            None => match n.attr("type"@) {
                Some(t) => !is_rect_type(t),
                None => true,
            },
        },
        None => false,
    }
}

fn rect_type(t: &str) -> (r: bool)
    ensures
        r == is_rect_type(t@),
{
    *t == *"rectangle" || *t == *"ooxml-rect" || *t == *"ooxml-rectangle"
}

fn is_degraded_outline(n: &Element) -> (r: bool)
    ensures
        r == loses_outline(n@),
{
    match n.child("enhanced-geometry") {
        Some(g) => match g.attr_local("type") {
            Some(t) => !rect_type(t),
            None => match n.attr_local("type") {
                Some(t) => !rect_type(t),
                None => true,
            },
        },
        None => false,
    }
}

/// The properties of a shape: those of a presentation style, and those of a graphic style
/// over them.
pub open spec fn shape_props(store: Store, n: Tree) -> GraphicProps {
    match n.attr("style-name"@) {
        Some(name) => merged(
            merged(unstated(), store.resolved(Family::Presentation, name)),
            store.resolved(Family::Graphic, name),
        ).graphic,
        None => unstated().graphic,
    }
}

fn props_of(styles: &Styles, n: &Element) -> (r: GraphicProps)
    ensures
        r == shape_props(styles@, n@),
{
    let mut out: Resolved = Resolved::default();
    if let Some(name) = n.attr_local("style-name") {
        merge(&mut out, &styles.resolve(Family::Presentation, name));
        merge(&mut out, &styles.resolve(Family::Graphic, name));
    }
    out.graphic
}

/// The fill and the outline of a shape.
pub open spec fn paint_css(gp: GraphicProps) -> Seq<char> {
    (match gp.fill.value() {
        Some(f) => fill_css(f),
        None => Seq::empty(),
    }) + (match gp.stroke.value() {
        Some(l) => line_css(l),
        None => Seq::empty(),
    })
}

fn paint(s: &mut Style, gp: &GraphicProps)
    ensures
        final(s).css@ == old(s).css@ + paint_css(*gp),
{
    let ghost before = s.css@;
    if let Some(f) = gp.fill.fill() {
        push_fill(s, f);
    }
    if let Some(l) = gp.stroke.line() {
        push_line(s, &l);
    }
    assert(s.css@ =~= before + paint_css(*gp));
}

/// An element of a class, with a style.
pub open spec fn class_style(class: Seq<char>, css: Seq<char>) -> Seq<char> {
    attr_text("class"@, class) + style_text(css)
}

fn attrs_of(class: &str, s: &Style) -> (r: Vec<char>)
    ensures
        r@ == class_style(class@, s.css@),
        are_attrs(r@),
{
    let mut a: Vec<char> = no_attrs();
    assert(plain("class"@)) by {
        lemma_attr_names();
    }
    push_attr(&mut a, "class", &chars_of(class));
    s.push_to(&mut a);
    assert(a@ =~= class_style(class@, s.css@));
    a
}

/// After a box that says what is missing.
pub open spec fn box_written(w: Written, b: Place, label: Seq<char>) -> Written {
    w.opened("div"@, class_style("pp-ph"@, place_css(b))).text(label).closed()
}

fn emit_placeholder<'a>(ctx: &mut Ctx<'a>, b: &Place, label: &str)
    ensures
        final(ctx)@ == (CtxView { w: box_written(old(ctx)@.w, *b, label@), ..old(ctx)@ }),
{
    assert(is_name("div"@) && !is_void("div"@)) by {
        lemma_tags();
    }
    ctx.w.open("div", &attrs_of("pp-ph", &b.css()));
    ctx.w.text(label);
    ctx.w.close();
}

/// After a picture: the image is the box.
pub open spec fn image_drawn(
    k: EnvView,
    s: CtxView,
    img: Tree,
    b: Place,
    label: Seq<char>,
) -> CtxView {
    match part_of(k.entries, img) {
        Some(part) => {
            let f = fetched(k, s, part, want_of(b.w, MAX_SHAPE_PX));
            match f.1 {
                Shown::DataUri(uri) => CtxView {
                    w: f.0.w.void(
                        "img"@,
                        attr_text("class"@, "pp-img"@) + attr_text("src"@, uri) + attr_text(
                            "alt"@,
                            label,
                        ) + style_text(place_css(b)),
                    ),
                    ..f.0
                },
                Shown::Placeholder(reason) => CtxView {
                    w: box_written(f.0.w, b, reason),
                    ..f.0
                },
            }
        },
        None => CtxView { w: box_written(s.w, b, UNAVAILABLE@), ..s },
    }
}

fn emit_image<'a>(
    k: &Env<'a>,
    ctx: &mut Ctx<'a>,
    img: &Element,
    b: &Place,
    label: &str,
)
    ensures
        final(ctx)@ == image_drawn(k@, old(ctx)@, img@, *b, label@),
{
    match part(k.entries, img) {
        Some(p) => match fetch(k, ctx, p, want(b.w, MAX_SHAPE_PX)) {
            Shown::DataUri(uri) => {
                let mut a: Vec<char> = no_attrs();
                assert(plain("class"@)) by {
                    lemma_attr_names();
                }
                push_attr(&mut a, "class", &chars_of("pp-img"));
                assert(plain("src"@)) by {
                    lemma_attr_names();
                }
                push_attr(&mut a, "src", &chars_of(uri.as_str()));
                assert(plain("alt"@)) by {
                    lemma_attr_names();
                }
                push_attr(&mut a, "alt", &chars_of(label));
                b.css().push_to(&mut a);
                assert(a@ =~= attr_text("class"@, "pp-img"@) + attr_text("src"@, uri@)
                    + attr_text("alt"@, label@) + style_text(place_css(*b)));
                assert(is_name("img"@) && is_void("img"@)) by {
                    lemma_tags();
                }
                ctx.w.void("img", &a);
            },
            Shown::Placeholder(reason) => emit_placeholder(ctx, b, reason.as_str()),
        },
        None => emit_placeholder(ctx, b, UNAVAILABLE),
    }
}

pub open spec fn is_block(name: Seq<char>) -> bool {
    name == "p"@ || name == "h"@ || name == "list"@ || name == "table"@ || name == "section"@
}

pub open spec fn any_block(v: Seq<Tree>) -> bool {
    exists|i: int| 0 <= i < v.len() && is_block((#[trigger] v[i]).name)
}

/// What holds the text of a shape: its text box, or the shape itself.
pub open spec fn text_content(n: Tree) -> Tree {
    match n.child("text-box"@) {
        Some(t) => t,
        None => n,
    }
}

/// Whether a shape has text. A table counts even where its cells are empty.
pub open spec fn has_text(content: Tree) -> bool {
    any_block(content.elems()) && (content.child("table"@) is Some || trimmed(
        content.inner_text(),
    ).len() > 0)
}

fn holds_text(content: &Element) -> (r: bool)
    ensures
        r == has_text(content@),
{
    let v: Vec<&Element> = content.elems();
    let ghost ts = trees(v@);
    let mut any: bool = false;
    for i in 0..v.len()
        invariant
            ts == trees(v@),
            any == exists|j: int| 0 <= j < i && is_block((#[trigger] ts[j]).name),
    {
        assert(ts[i as int] == v@[i as int]@);
        if v[i].is("p") || v[i].is("h") || v[i].is("list") || v[i].is("table") || v[i].is(
            "section",
        ) {
            any = true;
        }
    }
    any && (content.child("table").is_some() || trim(&content.inner_text()).len() > 0)
}

/// Where the text stands between the top and the bottom of its box.
pub open spec fn anchor_of(v: Option<VAlign>) -> Seq<char> {
    match v {
        Some(VAlign::Bottom) => "flex-end"@,
        Some(VAlign::Center) => "center"@,
        Some(VAlign::Justify) => "space-between"@,
        _ => "flex-start"@,
    }
}

fn v_anchor(v: Option<VAlign>) -> (r: &'static str)
    ensures
        r@ == anchor_of(v),
{
    match v {
        Some(VAlign::Bottom) => "flex-end",
        Some(VAlign::Center) => "center",
        Some(VAlign::Justify) => "space-between",
        _ => "flex-start",
    }
}

pub open spec fn text_css(b: Place, gp: GraphicProps) -> Seq<char> {
    place_css(b) + opt_px("padding-left"@, not_below_zero(gp.padding.left)) + opt_px(
        "padding-right"@,
        not_below_zero(gp.padding.right),
    ) + opt_px("padding-top"@, not_below_zero(gp.padding.top)) + opt_px(
        "padding-bottom"@,
        not_below_zero(gp.padding.bottom),
    ) + decl("justify-content"@, anchor_of(gp.text_v_align))
}

pub open spec fn at_least_px(v: Px) -> Px {
    if v < PX {
        PX
    } else {
        v
    }
}

/// After the text of a shape, in a box of its own. A picture in it is fitted to that box.
pub open spec fn text_drawn(
    k: EnvView,
    s: CtxView,
    n: Tree,
    b: Place,
    gp: GraphicProps,
) -> CtxView {
    let content = text_content(n);
    if has_text(content) {
        let w = s.w.opened("div"@, class_style("pp-tb"@, text_css(b, gp))).opened(
            "div"@,
            attr_text("class"@, "pp-tbi"@),
        );
        let t = walked(
            EnvView { column_px: at_least_px(b.w), ..k },
            CtxView { w, prev_style: None, ..s },
            content,
            Room::whole(),
        );
        CtxView { w: t.w.closed().closed(), ..t }
    } else {
        s
    }
}

fn emit_text<'a>(
    k: &Env<'a>,
    ctx: &mut Ctx<'a>,
    n: &'a Element,
    b: &Place,
    gp: &GraphicProps,
)
    ensures
        final(ctx)@ == text_drawn(k@, old(ctx)@, n@, *b, *gp),
{
    let content: &'a Element = match n.child("text-box") {
        Some(t) => t,
        None => n,
    };
    if !holds_text(content) {
        return;
    }
    let mut s: Style = b.css();
    s.push_opt_px("padding-left", pad(gp.padding.left));
    s.push_opt_px("padding-right", pad(gp.padding.right));
    s.push_opt_px("padding-top", pad(gp.padding.top));
    s.push_opt_px("padding-bottom", pad(gp.padding.bottom));
    s.push("justify-content", v_anchor(gp.text_v_align));
    assert(is_name("div"@) && !is_void("div"@)) by {
        lemma_tags();
    }
    ctx.w.open("div", &attrs_of("pp-tb", &s));
    let mut a: Vec<char> = no_attrs();
    assert(plain("class"@)) by {
        lemma_attr_names();
    }
    push_attr(&mut a, "class", &chars_of("pp-tbi"));
    assert(a@ =~= attr_text("class"@, "pp-tbi"@));
    assert(is_name("div"@) && !is_void("div"@)) by {
        lemma_tags();
    }
    ctx.w.open("div", &a);
    let column: Px = if b.w < PX {
        PX
    } else {
        b.w
    };
    let inner: Env<'a> = k.with_column(column);
    ctx.prev_style = None;
    walk_blocks(&inner, ctx, content, Room::full());
    ctx.w.close();
    ctx.w.close();
}

/// After a shape: its box, its paint, and what it holds.
pub open spec fn shape_drawn(k: EnvView, s: CtxView, n: Tree, b: Place) -> CtxView {
    let gp = shape_props(k.styles, n);
    match n.child("image"@) {
        Some(img) => image_drawn(k, s, img, b, label_of(n)),
        None => if any_object(n.elems()) {
            CtxView { w: box_written(s.w, b, OBJECT@), ..s.noting(NOTE_OBJECT@) }
        } else {
            let s1 = if n.name == "custom-shape"@ && loses_outline(n) {
                s.noting(NOTE_CUSTOM@)
            } else {
                s
            };
            let w = s1.w.opened(
                "div"@,
                class_style("pp-sp"@, place_css(b) + paint_css(gp)),
            ).closed();
            text_drawn(k, CtxView { w, ..s1 }, n, b, gp)
        },
    }
}

fn emit_shape<'a>(k: &Env<'a>, ctx: &mut Ctx<'a>, n: &'a Element, b: &Place)
    ensures
        final(ctx)@ == shape_drawn(k@, old(ctx)@, n@, *b),
{
    let gp: GraphicProps = props_of(k.styles, n);
    if let Some(img) = n.child("image") {
        let label: String = frame_label(n);
        emit_image(k, ctx, img, b, label.as_str());
        return;
    }
    if has_object(n) {
        ctx.note(NOTE_OBJECT);
        emit_placeholder(ctx, b, OBJECT);
        return;
    }
    if n.is("custom-shape") && is_degraded_outline(n) {
        ctx.note(NOTE_CUSTOM);
    }
    let mut s: Style = b.css();
    paint(&mut s, &gp);
    assert(is_name("div"@) && !is_void("div"@)) by {
        lemma_tags();
    }
    ctx.w.open("div", &attrs_of("pp-sp", &s));
    ctx.w.close();
    emit_text(k, ctx, n, b, &gp);
}

/// The edge that a line is drawn as. One that states no stroke can still be seen.
pub open spec fn edge_of(gp: GraphicProps) -> Seq<char> {
    match gp.stroke.value() {
        Some(l) => px_text(at_least_px(l.width_px)) + " solid "@ + l.stroke().css_text(),
        None => "1px solid #808080"@,
    }
}

/// After a line: one edge of the box between its ends.
pub open spec fn line_drawn(k: EnvView, s: CtxView, n: Tree, b: Place) -> CtxView {
    CtxView {
        w: s.w.opened(
            "div"@,
            class_style(
                "pp-sp"@,
                place_css(b) + decl("border-top"@, edge_of(shape_props(k.styles, n))),
            ),
        ).closed(),
        ..s
    }
}

fn emit_stroke<'a>(k: &Env<'a>, ctx: &mut Ctx<'a>, n: &Element, b: &Place)
    ensures
        final(ctx)@ == line_drawn(k@, old(ctx)@, n@, *b),
{
    let gp: GraphicProps = props_of(k.styles, n);
    let mut v: Vec<char> = Vec::new();
    match gp.stroke.line() {
        Some(l) => {
            let width: Px = if l.width_px < PX {
                PX
            } else {
                l.width_px
            };
            push_px(&mut v, width);
            push_text(&mut v, " solid ");
            push_text(&mut v, l.stroke_color().css().as_str());
        },
        None => push_text(&mut v, "1px solid #808080"),
    }
    assert(v@ =~= edge_of(gp));
    let mut s: Style = b.css();
    s.push_chars("border-top", &v);
    assert(is_name("div"@) && !is_void("div"@)) by {
        lemma_tags();
    }
    ctx.w.open("div", &attrs_of("pp-sp", &s));
    ctx.w.close();
}

/// Shapes that are boxes.
pub open spec fn is_boxed(name: Seq<char>) -> bool {
    name == "frame"@ || name == "custom-shape"@ || name == "rect"@ || name == "ellipse"@ || name
        == "circle"@ || name == "polygon"@ || name == "regular-polygon"@ || name == "path"@
        || name == "caption"@ || name == "measure"@
}

/// Shapes that are two points.
pub open spec fn is_lined(name: Seq<char>) -> bool {
    name == "line"@ || name == "connector"@ || name == "polyline"@
}

fn boxed(n: &Element) -> (r: bool)
    ensures
        r == is_boxed(n@.name),
{
    n.is("frame") || n.is("custom-shape") || n.is("rect") || n.is("ellipse") || n.is("circle")
        || n.is("polygon") || n.is("regular-polygon") || n.is("path") || n.is("caption") || n.is(
        "measure",
    )
}

/// Whether a shape is passed over: one that the document hides, or a master's prompt.
pub open spec fn is_skipped(n: Tree, master: bool) -> bool {
    n.attr("display"@) == Some("none"@) || (master && !is_furniture(n))
}

fn skipped(n: &Element, master: bool) -> (r: bool)
    ensures
        r == is_skipped(n@, master),
{
    if let Some(d) = n.attr_local("display") {
        if *d == *"none" {
            return true;
        }
    }
    master && !master_shape(n)
}

/// After the shapes of a slide, a master or a group.
pub open spec fn shapes_walked(
    k: EnvView,
    x: Shaped,
    e: Tree,
    canvas: (Px, Px),
    room: nat,
    master: bool,
) -> Shaped
    decreases room, 0int, 0int,
{
    if room == 0 {
        x
    } else {
        shapes_each(k, x, e.elems(), canvas, (room - 1) as nat, master)
    }
}

pub open spec fn shapes_each(
    k: EnvView,
    x: Shaped,
    v: Seq<Tree>,
    canvas: (Px, Px),
    below: nat,
    master: bool,
) -> Shaped
    decreases below, 2int, v.len(),
{
    if v.len() == 0 || x.s.w.full {
        x
    } else if x.count >= MAX_SHAPES {
        Shaped { s: x.s.noting(NOTE_SHAPES@), ..x }
    } else {
        shapes_each(
            k,
            shape_walked(k, x, v[0], canvas, below, master),
            v.skip(1),
            canvas,
            below,
            master,
        )
    }
}

/// After one shape. A transform that a box cannot follow is noted.
pub open spec fn shape_walked(
    k: EnvView,
    x: Shaped,
    n: Tree,
    canvas: (Px, Px),
    below: nat,
    master: bool,
) -> Shaped
    decreases below, 1int, 0int,
{
    if is_skipped(n, master) {
        x
    } else if n.name == "g"@ {
        shapes_walked(k, x, n, canvas, below, master)
    } else if is_boxed(n.name) {
        match place_of(n, canvas) {
            Some(b) => Shaped {
                s: shape_drawn(
                    k,
                    if moved_by(n).odd {
                        x.s.noting(NOTE_TRANSFORM@)
                    } else {
                        x.s
                    },
                    n,
                    b,
                ),
                count: (x.count + 1) as usize,
            },
            None => x,
        }
    } else if is_lined(n.name) {
        match line_place(n) {
            Some(b) => Shaped { s: line_drawn(k, x.s, n, b), count: (x.count + 1) as usize },
            None => x,
        }
    } else {
        x
    }
}

fn walk<'a>(
    k: &Env<'a>,
    ctx: &mut Ctx<'a>,
    count: &mut usize,
    e: &'a Element,
    canvas: (Px, Px),
    room: usize,
    master: bool,
)
    ensures
        (Shaped { s: final(ctx)@, count: *final(count) }) == shapes_walked(
            k@,
            Shaped { s: old(ctx)@, count: *old(count) },
            e@,
            canvas,
            room as nat,
            master,
        ),
    decreases room, 0int, 0int,
{
    if room == 0 {
        return;
    }
    let below: usize = room - 1;
    let v: Vec<&'a Element> = e.elems();
    let ghost ts = trees(v@);
    let ghost goal = shapes_each(
        k@,
        Shaped { s: ctx@, count: *count },
        ts,
        canvas,
        below as nat,
        master,
    );
    assert(ts.skip(0) =~= ts);
    let mut i: usize = 0;
    while i < v.len() && !ctx.w.is_full()
        invariant
            i <= v@.len(),
            below + 1 == room,
            ts == trees(v@),
            ts == e@.elems(),
            goal == shapes_walked(
                k@,
                Shaped { s: old(ctx)@, count: *old(count) },
                e@,
                canvas,
                room as nat,
                master,
            ),
            shapes_each(
                k@,
                Shaped { s: ctx@, count: *count },
                ts.skip(i as int),
                canvas,
                below as nat,
                master,
            ) == goal,
        decreases v@.len() - i,
    {
        assert(ts.skip(i as int)[0] == v@[i as int]@);
        assert(ts.skip(i as int).skip(1) =~= ts.skip(i + 1));
        if *count >= MAX_SHAPES {
            ctx.note(NOTE_SHAPES);
            return;
        }
        emit_one(k, ctx, count, v[i], canvas, below, master);
        i = i + 1;
    }
}

fn emit_one<'a>(
    k: &Env<'a>,
    ctx: &mut Ctx<'a>,
    count: &mut usize,
    n: &'a Element,
    canvas: (Px, Px),
    below: usize,
    master: bool,
)
    requires
        *old(count) < MAX_SHAPES,
    ensures
        (Shaped { s: final(ctx)@, count: *final(count) }) == shape_walked(
            k@,
            Shaped { s: old(ctx)@, count: *old(count) },
            n@,
            canvas,
            below as nat,
            master,
        ),
    decreases below, 1int, 0int,
{
    if skipped(n, master) {
        return;
    }
    if n.is("g") {
        walk(k, ctx, count, n, canvas, below, master);
    } else if boxed(n) {
        if let Some((b, odd)) = place(n, canvas) {
            *count = *count + 1;
            if odd {
                ctx.note(NOTE_TRANSFORM);
            }
            emit_shape(k, ctx, n, &b);
        }
    } else if n.is("line") || n.is("connector") || n.is("polyline") {
        if let Some(b) = line_box(n) {
            *count = *count + 1;
            emit_stroke(k, ctx, n, &b);
        }
    }
}

/// No slide shows more shapes than `MAX_SHAPES`.
pub proof fn law_shapes_are_capped(
    k: EnvView,
    x: Shaped,
    e: Tree,
    canvas: (Px, Px),
    room: nat,
    master: bool,
)
    requires
        x.count <= MAX_SHAPES,
    ensures
        shapes_walked(k, x, e, canvas, room, master).count <= MAX_SHAPES,
    decreases room, 0int, 0int,
{
    if room > 0 {
        lemma_each_capped(k, x, e.elems(), canvas, (room - 1) as nat, master);
    }
}

proof fn lemma_each_capped(
    k: EnvView,
    x: Shaped,
    v: Seq<Tree>,
    canvas: (Px, Px),
    below: nat,
    master: bool,
)
    requires
        x.count <= MAX_SHAPES,
    ensures
        shapes_each(k, x, v, canvas, below, master).count <= MAX_SHAPES,
    decreases below, 2int, v.len(),
{
    if v.len() > 0 && !x.s.w.full && x.count < MAX_SHAPES {
        if !is_skipped(v[0], master) && v[0].name == "g"@ {
            law_shapes_are_capped(k, x, v[0], canvas, below, master);
        }
        let y = shape_walked(k, x, v[0], canvas, below, master);
        assert(y.count <= MAX_SHAPES);
        lemma_each_capped(k, y, v.skip(1), canvas, below, master);
    }
}

// ── the slide ────────────────────────────────────────────────────────────────

/// Which slide is shown: the one asked for, or else the last before it, or else the
/// first.
pub open spec fn shown_page(section: Option<u32>, count: nat) -> nat {
    match section {
        Some(s) => if s < count {
            s as nat
        } else {
            (count - 1) as nat
        },
        None => 0,
    }
}

pub open spec fn canvas_of(setup: SetupView) -> (Px, Px) {
    if setup.stated && fits_canvas(setup.page.width) && fits_canvas(setup.page.height) {
        (setup.page.width, setup.page.height)
    } else {
        (DEFAULT_WIDTH, DEFAULT_HEIGHT)
    }
}

pub open spec fn slide_env(i: Input, canvas: (Px, Px)) -> EnvView {
    EnvView {
        entries: i.entries,
        column_px: canvas.0,
        classes: slide_classes(),
        styles: Store::of(i.styles, Some(i.root)),
        default_font: None,
        multi_col: Seq::empty(),
        terms: i.terms,
        pictures: i.pictures,
    }
}

pub open spec fn canvas_style(i: Input, setup: SetupView, page: Tree) -> Seq<char> {
    canvas_decls(canvas_of(setup)) + (match background_of(
        Store::of(i.styles, Some(i.root)),
        setup,
        page,
    ) {
        Some(f) => fill_css(f),
        None => Seq::empty(),
    })
}

/// The state once a slide is drawn: the master's shapes, then its own.
pub open spec fn slide_walked(i: Input, page: Tree, setup: SetupView, cap: nat) -> CtxView {
    let canvas = canvas_of(setup);
    let k = slide_env(i, canvas);
    let s = CtxView::fresh(
        Written::fresh(cap).opened(
            "div"@,
            class_style("pp-doc"@, canvas_style(i, setup, page)),
        ),
        lists_of(i.styles, Some(i.root)),
        i.notes,
    );
    let master = match i.styles {
        Some(root) => master_page_of(root, page.text_attr("master-page-name"@)),
        None => None,
    };
    let x = match master {
        Some(m) => shapes_walked(k, Shaped { s, count: 0 }, m, canvas, GROUPS as nat, true),
        None => Shaped { s, count: 0 },
    };
    shapes_walked(k, x, page, canvas, GROUPS as nat, false).s
}

/// The HTML of a slide, without its stylesheet.
pub open spec fn slide_html(i: Input, page: Tree, setup: SetupView, cap: nat) -> Seq<char> {
    slide_walked(i, page, setup, cap).w.closed().finished()
}

/// The HTML of the slide that is shown.
pub open spec fn shown_html(i: Input, section: Option<u32>, cap: nat) -> Seq<char> {
    let pages = pages_of(i.root);
    let page = pages[shown_page(section, pages.len()) as int];
    slide_html(
        i,
        page,
        Store::of(i.styles, Some(i.root)).setup(page.attr("master-page-name"@)),
        cap,
    )
}

/// The preview of a slide.
pub open spec fn slide_doc(i: Input, section: Option<u32>, cap: nat) -> DocView {
    let pages = pages_of(i.root);
    let at = shown_page(section, pages.len());
    let page = pages[at as int];
    let setup = Store::of(i.styles, Some(i.root)).setup(page.attr("master-page-name"@));
    DocView {
        sections: names_of(pages),
        section: at as u32,
        ..doc_from(
            slide_walked(i, page, setup, cap),
            BASE_CSS@,
            Seq::empty(),
            Shape::Slide,
            Some(canvas_of(setup)),
            None,
            i.picture_notes,
        )
    }
}

/// Renders a slide. A deck without slides is an error.
pub fn render(
    package: Package,
    notes: Notes,
    section: Option<u32>,
    terms: &[String],
    pictures: &Pictures,
) -> (r: Result<OfficeDoc, String>)
    ensures
        r is Err == (document(package.content@) is None || pages_of(
            document(package.content@)->0,
        ).len() == 0),
        r matches Err(e) ==> e@ == (if document(package.content@) is None {
            MALFORMED@
        } else {
            NOTE_BODY@
        }),
        r matches Ok(d) ==> {
            &&& d@ == slide_doc(
                input_of(package, document(package.content@)->0, notes@, terms@, *pictures),
                section,
                HTML_CAP as nat,
            )
            &&& balanced(
                shown_html(
                    input_of(package, document(package.content@)->0, notes@, terms@, *pictures),
                    section,
                    HTML_CAP as nat,
                ),
            )
        },
{
    render_with(package, notes, section, terms, pictures, HTML_CAP)
}

/// Renders a slide in so many bytes.
pub fn render_with(
    package: Package,
    notes: Notes,
    section: Option<u32>,
    terms: &[String],
    pictures: &Pictures,
    cap: usize,
) -> (r: Result<OfficeDoc, String>)
    ensures
        r is Err == (document(package.content@) is None || pages_of(
            document(package.content@)->0,
        ).len() == 0),
        r matches Err(e) ==> e@ == (if document(package.content@) is None {
            MALFORMED@
        } else {
            NOTE_BODY@
        }),
        r matches Ok(d) ==> {
            &&& d@ == slide_doc(
                input_of(package, document(package.content@)->0, notes@, terms@, *pictures),
                section,
                cap as nat,
            )
            &&& balanced(
                shown_html(
                    input_of(package, document(package.content@)->0, notes@, terms@, *pictures),
                    section,
                    cap as nat,
                ),
            )
        },
{
    let root: Element = match xml::parse(package.content.as_str()) {
        Some(root) => root,
        None => {
            return Err(String::from_str(MALFORMED));
        },
    };
    let sheet: Option<Element> = match &package.styles {
        Some(s) => xml::parse(s.as_str()),
        None => None,
    };
    let ghost i = input_of(package, root@, notes@, terms@, *pictures);
    assert(i.styles == opt_tree(sheet));
    let content: Option<Element> = Some(root);
    let styles: Styles = Styles::of(&sheet, &content);
    let lists: Lists = Lists::of(&sheet, &content);
    let root: &Element = match &content {
        Some(r) => r,
        None => {
            return Err(String::from_str(MALFORMED));
        },
    };
    let all: Vec<&Element> = pages(root);
    assert(trees(all@).len() == all@.len());
    if all.len() == 0 {
        return Err(String::from_str(NOTE_BODY));
    }
    let last: usize = all.len() - 1;
    let at: usize = match section {
        Some(s) => if (s as u64) < all.len() as u64 {
            s as usize
        } else {
            last
        },
        None => 0,
    };
    let sections: Vec<String> = page_names(&all);
    let page: &Element = all[at];
    assert(page@ == trees(all@)[at as int]);
    let mut d: OfficeDoc = render_page(
        page,
        &sheet,
        &styles,
        lists,
        &package.entries,
        notes,
        terms,
        pictures,
        cap,
        Ghost(i),
    );
    d.sections = sections;
    d.section = at as u32;
    Ok(d)
}

fn render_page(
    page: &Element,
    sheet: &Option<Element>,
    styles: &Styles,
    lists: Lists,
    entries: &Entries,
    notes: Notes,
    terms: &[String],
    pictures: &Pictures,
    cap: usize,
    Ghost(i): Ghost<Input>,
) -> (d: OfficeDoc)
    requires
        opt_tree(*sheet) == i.styles,
        styles@ == Store::of(i.styles, Some(i.root)),
        lists@ == lists_of(i.styles, Some(i.root)),
        entries@ == i.entries,
        notes@ == i.notes,
        terms_of(terms@) == i.terms,
        picture_views(pictures.list@) == i.pictures,
        note_texts(pictures.notes@) == i.picture_notes,
    ensures
        ({
            let setup = styles@.setup(page@.attr("master-page-name"@));
            d@ == doc_from(
                slide_walked(i, page@, setup, cap as nat),
                BASE_CSS@,
                Seq::empty(),
                Shape::Slide,
                Some(canvas_of(setup)),
                None,
                i.picture_notes,
            )
        }),
        balanced(
            slide_html(i, page@, styles@.setup(page@.attr("master-page-name"@)), cap as nat),
        ),
{
    let setup: PageSetup = styles.page_setup(page.attr_local("master-page-name"));
    let canvas: (Px, Px) = if setup.stated && in_range(setup.page.width) && in_range(
        setup.page.height,
    ) {
        (setup.page.width, setup.page.height)
    } else {
        (DEFAULT_WIDTH, DEFAULT_HEIGHT)
    };
    let master: Option<&Element> = match sheet {
        Some(root) => master_page(root, page.text_attr("master-page-name")),
        None => None,
    };
    let query: Terms = Terms::new(terms);
    let k = Env {
        entries,
        column_px: canvas.0,
        classes: Classes::slide(),
        styles,
        default_font: None,
        multi_col: Vec::new(),
        terms: &query,
        pictures,
    };
    assert(k@.multi_col =~= Seq::<Seq<char>>::empty());
    assert(k@ == slide_env(i, canvas));
    let mut s: Style = canvas_css(canvas);
    match background(styles, &setup, page) {
        Some(f) => push_fill(&mut s, f),
        None => {
            assert(s.css@ =~= s.css@ + Seq::<char>::empty());
        },
    }
    assert(s.css@ == canvas_style(i, setup@, page@));
    let mut w: Writer = Writer::new(cap);
    assert(is_name("div"@) && !is_void("div"@)) by {
        lemma_tags();
    }
    w.open("div", &attrs_of("pp-doc", &s));
    let mut ctx: Ctx = Ctx::new(w, lists, notes);
    let mut count: usize = 0;
    if let Some(m) = master {
        walk(&k, &mut ctx, &mut count, m, canvas, GROUPS, true);
    }
    walk(&k, &mut ctx, &mut count, page, canvas, GROUPS, false);
    assert(ctx@ == slide_walked(i, page@, setup@, cap as nat));
    let none: Vec<char> = no_attrs();
    assert(none@ =~= Seq::<char>::empty());
    finish(ctx, BASE_CSS, &none, Shape::Slide, Some(canvas), None, pictures)
}

} // verus!
