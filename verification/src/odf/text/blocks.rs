//! Blocks: paragraphs, lists, sections, indexes, frames between paragraphs.

use vstd::prelude::*;
use crate::chars::chars_of;
use crate::html::{attr_text, no_attrs, push_attr, Markup, Writer, Written};
use crate::markup::{is_name, is_void, lemma_attr_names, lemma_tags, plain};
use crate::model::{marker_view, run_views, ListMarker, MarkerView, Para, Run, RunView};
use crate::notes::note_texts;
use crate::odf::draw::{emit_frame, framed};
use crate::odf::length::Px;
use crate::odf::list::{start_of, FollowedBy, LevelIndent, ListStart, MarkView, Marker};
use crate::odf::style::{
    para_of, size_in, size_pt, to_para, Family, ParaProps, ParaPropsView, Resolved,
    DEFAULT_SIZE_PT,
};
use crate::odf::table::{emit_table, tabled};
use crate::odf::text::{
    mark_of, markup_views, Ctx, CtxView, Env, EnvView, Room, BASE_STYLE, BOX_CAP, DEPTHS,
    MAX_BOXES, MAX_NEST, MAX_PARAS, NOTE_BOXES, NOTE_BULLET_IMAGE, NOTE_COLUMNS, NOTE_PARAS,
    NOTE_TXBX,
};
use crate::odf::text::runs::{collect_runs, runs_drawn, Drawn};
use crate::xml::{trees, Element, Tree};

verus! {

// ── paragraphs ───────────────────────────────────────────────────────────────

/// What a list gives a paragraph: a label and its indentation for the first one of an
/// item, the indentation alone for the others.
#[derive(Debug)]
pub enum ListPart<M = Marker> {
    Marker(M),
    Indent(LevelIndent),
}

pub type PartView = ListPart<MarkView>;

pub open spec fn part_view(p: Option<ListPart>) -> Option<PartView> {
    match p {
        Some(ListPart::Marker(m)) => Some(ListPart::Marker(m@)),
        Some(ListPart::Indent(i)) => Some(ListPart::Indent(i)),
        None => None,
    }
}

pub open spec fn indent_of_part(p: Option<PartView>) -> Option<LevelIndent> {
    match p {
        Some(ListPart::Marker(m)) => Some(m.indent),
        Some(ListPart::Indent(i)) => Some(i),
        None => None,
    }
}

fn part_indent(p: &Option<ListPart>) -> (r: Option<LevelIndent>)
    ensures
        r == indent_of_part(part_view(*p)),
{
    match p {
        Some(ListPart::Marker(m)) => Some(m.indent),
        Some(ListPart::Indent(i)) => Some(*i),
        None => None,
    }
}

/// The label of a paragraph. What follows it is a space that does not break, or nothing:
/// the gap of a tab is the box that the label stands in.
pub open spec fn part_label(p: Option<PartView>) -> Option<MarkerView> {
    match p {
        Some(ListPart::Marker(m)) => match m.label {
            Some(l) => Some(
                ListMarker {
                    label: if m.indent.followed_by == FollowedBy::Space {
                        l.label.push('\u{00a0}')
                    } else {
                        l.label
                    },
                    ..l
                },
            ),
            None => None,
        },
        _ => None,
    }
}

pub open spec fn part_has_image(p: Option<PartView>) -> bool {
    p matches Some(ListPart::Marker(m)) && m.image is Some
}

fn label_of(p: &Option<ListPart>) -> (r: Option<ListMarker>)
    ensures
        marker_view(r) == part_label(part_view(*p)),
{
    match p {
        Some(ListPart::Marker(m)) => match &m.label {
            Some(l) => {
                let mut l: ListMarker = l.copy();
                if m.indent.followed_by == FollowedBy::Space {
                    l.label.push('\u{00a0}');
                }
                Some(l)
            },
            None => None,
        },
        _ => None,
    }
}

fn has_image(p: &Option<ListPart>) -> (r: bool)
    ensures
        r == part_has_image(part_view(*p)),
{
    match p {
        Some(ListPart::Marker(m)) => m.image.is_some(),
        _ => false,
    }
}

/// A level's indentation takes the place of the paragraph's own. One that states none
/// leaves it.
pub open spec fn indented(pp: ParaPropsView, i: Option<LevelIndent>) -> ParaPropsView {
    match i {
        Some(i) => if i.indent_px != 0 || i.first_line_px != 0 {
            ParaProps {
                indent_px: Some(i.indent_px),
                first_line_px: Some(i.first_line_px),
                ..pp
            }
        } else {
            pp
        },
        None => pp,
    }
}

/// The level of a heading: one of the six that HTML has.
pub open spec fn heading_of(p: Tree) -> Option<u8> {
    if p.name == "h"@ {
        match p.attr_u32("outline-level"@) {
            Some(n) => Some(
                if n < 1 {
                    1u8
                } else if n > 6 {
                    6u8
                } else {
                    n as u8
                },
            ),
            None => Some(1u8),
        }
    } else {
        None
    }
}

fn heading(p: &Element) -> (r: Option<u8>)
    ensures
        r == heading_of(p@),
{
    if p.is("h") {
        match p.attr_u32("outline-level") {
            Some(n) => Some(
                if n < 1 {
                    1u8
                } else if n > 6 {
                    6u8
                } else {
                    n as u8
                },
            ),
            None => Some(1u8),
        }
    } else {
        None
    }
}

/// After a paragraph or a heading. Two neighbours of one style may close the space
/// between them.
pub open spec fn para_walked(
    k: EnvView,
    s: CtxView,
    p: Tree,
    part: Option<PartView>,
    boxes: usize,
) -> CtxView
    decreases boxes, 0int, 0int, 2int, 0int, 0int,
{
    if s.paras >= MAX_PARAS {
        s.noting(NOTE_PARAS@)
    } else {
        let name = p.text_attr("style-name"@);
        let r = k.styles.resolved(Family::Paragraph, name);
        let base_pt = size_in(r.text.size, DEFAULT_SIZE_PT);
        let pp = indented(r.para, indent_of_part(part));
        let s1 = CtxView { paras: (s.paras + 1) as usize, ..s };
        let s2 = if part_has_image(part) {
            s1.noting(NOTE_BULLET_IMAGE@)
        } else {
            s1
        };
        let s3 = s2.broken(k, pp.break_before);
        let d = runs_drawn(
            k,
            Drawn { s: s3, out: Seq::empty() },
            p,
            r.text,
            base_pt,
            DEPTHS,
            None,
            boxes,
        );
        let para = para_of(pp, base_pt, heading_of(p));
        let s4 = d.s.inked(
            k,
            Para {
                runs: d.out,
                marker: part_label(part),
                space_before_px: if pp.contextual_spacing == Some(true) && s.prev_style == Some(
                    name,
                ) {
                    0
                } else {
                    para.space_before_px
                },
                ..para
            },
        );
        CtxView { prev_style: Some(name), ..s4.flushed().broken(k, pp.break_after) }
    }
}

#[verifier::rlimit(40)]
fn emit_para<'a>(
    k: &Env<'a>,
    ctx: &mut Ctx<'a>,
    p: &'a Element,
    part: &Option<ListPart>,
    boxes: usize,
)
    ensures
        final(ctx)@ == para_walked(k@, old(ctx)@, p@, part_view(*part), boxes),
    decreases boxes, 0int, 0int, 2int, 0int, 0int,
{
    if ctx.paras >= MAX_PARAS {
        ctx.note(NOTE_PARAS);
        return;
    }
    ctx.paras = ctx.paras + 1;
    let name: &str = p.text_attr("style-name");
    let r: Resolved = k.styles.resolve(Family::Paragraph, name);
    let base_pt: Px = size_pt(&r.text, DEFAULT_SIZE_PT);
    if has_image(part) {
        ctx.note(NOTE_BULLET_IMAGE);
    }
    let mut pp: ParaProps = r.para.copy();
    if let Some(i) = part_indent(part) {
        if i.indent_px != 0 || i.first_line_px != 0 {
            pp.indent_px = Some(i.indent_px);
            pp.first_line_px = Some(i.first_line_px);
        }
    }
    assert(pp@ == indented(r@.para, indent_of_part(part_view(*part))));
    ctx.break_page(k, pp.break_before);
    let mut para: Para = to_para(&pp, base_pt, heading(p));
    let same: bool = match &ctx.prev_style {
        Some(s) => *s.as_str() == *name,
        None => false,
    };
    if pp.contextual_spacing == Some(true) && same {
        para.space_before_px = 0;
    }
    para.marker = label_of(part);
    let mut runs: Vec<Run> = Vec::new();
    assert(run_views(runs@) =~= Seq::<RunView>::empty());
    collect_runs(k, ctx, &mut runs, p, &r.text, base_pt, DEPTHS, &None, boxes);
    para.runs = runs;
    ctx.ink(k, para);
    ctx.flush();
    ctx.break_page(k, pp.break_after);
    ctx.prev_style = Some(String::from_str(name));
}

// ── frames ───────────────────────────────────────────────────────────────────

/// After a frame between blocks: a paragraph of its own.
pub open spec fn frame_walked(k: EnvView, s: CtxView, frame: Tree, boxes: usize) -> CtxView
    decreases boxes, 0int, 0int, 2int, 0int, 0int,
{
    let d = framed(k, Drawn { s, out: Seq::empty() }, frame, boxes);
    let r = k.styles.resolved(Family::Paragraph, BASE_STYLE@);
    let base_pt = size_in(r.text.size, DEFAULT_SIZE_PT);
    if d.out.len() == 0 {
        d.s.flushed()
    } else {
        d.s.inked(k, Para { runs: d.out, ..para_of(r.para, base_pt, None) }).flushed()
    }
}

fn emit_frame_block<'a>(k: &Env<'a>, ctx: &mut Ctx<'a>, frame: &'a Element, boxes: usize)
    ensures
        final(ctx)@ == frame_walked(k@, old(ctx)@, frame@, boxes),
    decreases boxes, 0int, 0int, 2int, 0int, 0int,
{
    let mut runs: Vec<Run> = Vec::new();
    assert(run_views(runs@) =~= Seq::<RunView>::empty());
    emit_frame(k, ctx, &mut runs, frame, boxes);
    assert(run_views(runs@).len() == runs@.len());
    if runs.len() > 0 {
        let r: Resolved = k.styles.resolve(Family::Paragraph, BASE_STYLE);
        let base_pt: Px = size_pt(&r.text, DEFAULT_SIZE_PT);
        let mut para: Para = to_para(&r.para, base_pt, None);
        para.runs = runs;
        ctx.ink(k, para);
    }
    ctx.flush();
}

/// After a text frame: its blocks are written apart, and wait for the paragraph to end.
pub open spec fn hoisted(k: EnvView, s: CtxView, content: Tree, boxes: usize) -> CtxView
    decreases boxes, 0int, 0int, 0int, 0int, 0int,
{
    if s.boxes >= MAX_BOXES || boxes == 0 {
        s.noting(NOTE_BOXES@)
    } else {
        let t = walked(
            k,
            CtxView {
                boxes: (s.boxes + 1) as usize,
                pending: Seq::empty(),
                w: Written::fresh(BOX_CAP as nat).opened(
                    "div"@,
                    attr_text("class"@, "of-txbx"@),
                ),
                ..s.noting(NOTE_TXBX@)
            },
            content,
            Room::in_box(boxes),
        );
        CtxView {
            w: s.w,
            pending: s.pending.push(t.w.closed().finished()) + t.pending,
            ..t
        }
    }
}

/// Writes a text frame apart from the paragraph that holds it.
pub fn hoist<'a>(k: &Env<'a>, ctx: &mut Ctx<'a>, content: &'a Element, boxes: usize)
    ensures
        final(ctx)@ == hoisted(k@, old(ctx)@, content@, boxes),
    decreases boxes, 0int, 0int, 0int, 0int, 0int,
{
    if ctx.boxes >= MAX_BOXES || boxes == 0 {
        ctx.note(NOTE_BOXES);
        return;
    }
    ctx.boxes = ctx.boxes + 1;
    ctx.note(NOTE_TXBX);
    let mut outer: Vec<Markup> = Vec::new();
    std::mem::swap(&mut outer, &mut ctx.pending);
    let mut w: Writer = Writer::new(BOX_CAP);
    std::mem::swap(&mut w, &mut ctx.w);
    let mut a: Vec<char> = no_attrs();
    assert(plain("class"@)) by {
        lemma_attr_names();
    }
    push_attr(&mut a, "class", &chars_of("of-txbx"));
    assert(a@ =~= attr_text("class"@, "of-txbx"@));
    assert(is_name("div"@) && !is_void("div"@)) by {
        lemma_tags();
    }
    ctx.w.open("div", &a);
    assert(ctx@.pending =~= Seq::<Seq<char>>::empty());
    let inside = Room { boxes: boxes - 1, tables: MAX_NEST, depth: DEPTHS };
    walk(k, ctx, content, inside);
    ctx.w.close();
    std::mem::swap(&mut w, &mut ctx.w);
    let done: Markup = Markup::new(w.finish());
    let ghost before = outer@;
    let ghost inner = ctx.pending@;
    outer.push(done);
    let ghost first = outer@;
    outer.append(&mut ctx.pending);
    std::mem::swap(&mut outer, &mut ctx.pending);
    assert(markup_views(ctx.pending@) =~= markup_views(before).push(done@) + markup_views(inner));
}

// ── lists ────────────────────────────────────────────────────────────────────

/// An item draws a label where it holds more than a nested list.
pub open spec fn draws_label(item: Tree) -> bool {
    exists|i: int|
        0 <= i < item.elems().len() && (#[trigger] item.elems()[i]).name != "list"@
            && item.elems()[i].name != "number"@
}

fn labelled(item: &Element) -> (r: bool)
    ensures
        r == draws_label(item@),
{
    let v: Vec<&Element> = item.elems();
    let ghost ts = trees(v@);
    for i in 0..v.len()
        invariant
            ts == trees(v@),
            ts == item@.elems(),
            forall|n: int|
                0 <= n < i ==> (#[trigger] ts[n]).name == "list"@ || ts[n].name == "number"@,
    {
        assert(ts[i as int] == v@[i as int]@);
        if !v[i].is("list") && !v[i].is("number") {
            assert(item@.elems()[i as int] == v@[i as int]@);
            return true;
        }
    }
    false
}

pub open spec fn first_para(v: Seq<Tree>) -> Option<Tree>
    decreases v.len(),
{
    if v.len() == 0 {
        None
    } else if v[0].name == "p"@ || v[0].name == "h"@ {
        Some(v[0])
    } else {
        first_para(v.skip(1))
    }
}

/// The style of an item's first paragraph.
pub open spec fn item_style(item: Tree) -> Seq<char> {
    match first_para(item.elems()) {
        Some(p) => match p.attr("style-name"@) {
            Some(n) => n,
            None => BASE_STYLE@,
        },
        None => BASE_STYLE@,
    }
}

/// The size that an item's label is measured against.
pub open spec fn item_size(k: EnvView, item: Tree) -> Px {
    size_in(
        k.styles.resolved(Family::Paragraph, item_style(item)).text.size,
        DEFAULT_SIZE_PT,
    )
}

fn item_size_pt<'a>(k: &Env<'a>, item: &Element) -> (r: Px)
    ensures
        r == item_size(k@, item@),
{
    let v: Vec<&Element> = item.elems();
    let ghost ts = trees(v@);
    let mut name: &str = BASE_STYLE;
    assert(ts.skip(0) =~= ts);
    let mut i: usize = 0;
    let mut found: bool = false;
    while i < v.len() && !found
        invariant
            i <= v@.len(),
            ts == trees(v@),
            ts == item@.elems(),
            !found ==> name@ == BASE_STYLE@ && first_para(ts) == first_para(ts.skip(i as int)),
            found ==> name@ == item_style(item@),
        decreases v@.len() - i + (if found {
            0int
        } else {
            1
        }),
    {
        assert(ts.skip(i as int)[0] == v@[i as int]@);
        assert(ts.skip(i as int).skip(1) =~= ts.skip(i + 1));
        if v[i].is("p") || v[i].is("h") {
            if let Some(n) = v[i].attr_local("style-name") {
                name = n;
            }
            found = true;
        } else {
            i = i + 1;
        }
    }
    assert(name@ == item_style(item@));
    size_pt(&k.styles.resolve(Family::Paragraph, name).text, DEFAULT_SIZE_PT)
}

/// After a list. `below` is the room inside it.
pub open spec fn listed(k: EnvView, s: CtxView, list: Tree, below: Room) -> CtxView
    decreases below.boxes, below.tables, below.depth, 7int, 0int, 0int,
{
    let t = items_walked(
        k,
        CtxView { lists: s.lists.entered(start_of(list)), ..s },
        list.elems(),
        below,
    );
    CtxView { lists: t.lists.left(), ..t }
}

pub open spec fn items_walked(k: EnvView, s: CtxView, v: Seq<Tree>, below: Room) -> CtxView
    decreases below.boxes, below.tables, below.depth, 6int, v.len(), 0int,
{
    if v.len() == 0 || s.w.full {
        s
    } else {
        items_walked(k, item_walked(k, s, v[0], below), v.skip(1), below)
    }
}

/// The state once a list item has been counted, and what it gives its paragraphs. An item
/// that draws no label takes no number.
pub open spec fn item_counted(k: EnvView, s: CtxView, item: Tree) -> (CtxView, Option<PartView>) {
    let s1 = match item.attr_u32("start-value"@) {
        Some(v) => CtxView { lists: s.lists.restarted(v), ..s },
        None => s,
    };
    if draws_label(item) {
        (
            CtxView { lists: s1.lists.counted(), ..s1 },
            match s1.lists.item(k.styles, item_size(k, item)) {
                Some(m) => Some(ListPart::Marker(m)),
                None => None,
            },
        )
    } else {
        (s1, None)
    }
}

/// What a header of a list gives its paragraphs.
pub open spec fn header_part(s: CtxView) -> Option<PartView> {
    match s.lists.header() {
        Some(i) => Some(ListPart::Indent(i)),
        None => None,
    }
}

pub open spec fn item_walked(k: EnvView, s: CtxView, item: Tree, below: Room) -> CtxView
    decreases below.boxes, below.tables, below.depth, 5int, 0int, 0int,
{
    if item.name == "list-header"@ {
        let part = header_part(s);
        parts_walked(k, s, item.elems(), part, indent_of_part(part), below)
    } else if item.name == "list-item"@ {
        let c = item_counted(k, s, item);
        parts_walked(k, c.0, item.elems(), c.1, indent_of_part(c.1), below)
    } else {
        s
    }
}

/// After some children of an item. The first paragraph takes what is left of `first`, the
/// others the indentation.
pub open spec fn parts_walked(
    k: EnvView,
    s: CtxView,
    v: Seq<Tree>,
    first: Option<PartView>,
    indent: Option<LevelIndent>,
    below: Room,
) -> CtxView
    decreases below.boxes, below.tables, below.depth, 4int, v.len(), 0int,
{
    if v.len() == 0 || s.w.full {
        s
    } else {
        parts_walked(
            k,
            part_walked(k, s, v[0], first, indent, below),
            v.skip(1),
            if v[0].name == "p"@ || v[0].name == "h"@ {
                None
            } else {
                first
            },
            indent,
            below,
        )
    }
}

pub open spec fn para_part(
    first: Option<PartView>,
    indent: Option<LevelIndent>,
) -> Option<PartView> {
    if first is Some {
        first
    } else {
        match indent {
            Some(i) => Some(ListPart::Indent(i)),
            None => None,
        }
    }
}

pub open spec fn part_walked(
    k: EnvView,
    s: CtxView,
    n: Tree,
    first: Option<PartView>,
    indent: Option<LevelIndent>,
    below: Room,
) -> CtxView
    decreases below.boxes, below.tables, below.depth, 3int, 0int, 0int,
{
    if n.name == "p"@ || n.name == "h"@ {
        para_walked(k, s, n, para_part(first, indent), below.boxes)
    } else if n.name == "table"@ {
        tabled(k, s, n, below)
    } else if n.name == "number"@ || below.depth == 0 {
        s
    } else if n.name == "list"@ {
        listed(k, s, n, below.inner())
    } else {
        block_walked(k, s, n, below.inner())
    }
}

fn emit_list<'a>(k: &Env<'a>, ctx: &mut Ctx<'a>, list: &'a Element, below: Room)
    ensures
        final(ctx)@ == listed(k@, old(ctx)@, list@, below),
    decreases below.boxes, below.tables, below.depth, 7int, 0int, 0int,
{
    ctx.lists.enter(ListStart::read(list));
    let v: Vec<&'a Element> = list.elems();
    let ghost ts = trees(v@);
    let ghost goal = items_walked(k@, ctx@, ts, below);
    assert(ts.skip(0) =~= ts);
    let mut i: usize = 0;
    while i < v.len() && !ctx.w.is_full()
        invariant
            i <= v@.len(),
            ts == trees(v@),
            items_walked(k@, ctx@, ts.skip(i as int), below) == goal,
        decreases v@.len() - i,
    {
        assert(ts.skip(i as int)[0] == v@[i as int]@);
        assert(ts.skip(i as int).skip(1) =~= ts.skip(i + 1));
        emit_item(k, ctx, v[i], below);
        i = i + 1;
    }
    ctx.lists.leave();
}

fn emit_item<'a>(k: &Env<'a>, ctx: &mut Ctx<'a>, item: &'a Element, below: Room)
    ensures
        final(ctx)@ == item_walked(k@, old(ctx)@, item@, below),
    decreases below.boxes, below.tables, below.depth, 5int, 0int, 0int,
{
    if item.is("list-header") {
        let part: Option<ListPart> = match ctx.lists.header() {
            Some(i) => Some(ListPart::Indent(i)),
            None => None,
        };
        emit_parts(k, ctx, item, part, below);
    } else if item.is("list-item") {
        if let Some(v) = item.attr_u32("start-value") {
            ctx.lists.restart_at(v);
        }
        let mut part: Option<ListPart> = None;
        if labelled(item) {
            let base_pt: Px = item_size_pt(k, item);
            if let Some(m) = ctx.lists.item(k.styles, base_pt) {
                part = Some(ListPart::Marker(m));
            }
        }
        emit_parts(k, ctx, item, part, below);
    }
}

fn emit_parts<'a>(
    k: &Env<'a>,
    ctx: &mut Ctx<'a>,
    item: &'a Element,
    part: Option<ListPart>,
    below: Room,
)
    ensures
        final(ctx)@ == parts_walked(
            k@,
            old(ctx)@,
            item@.elems(),
            part_view(part),
            indent_of_part(part_view(part)),
            below,
        ),
    decreases below.boxes, below.tables, below.depth, 4int, item@.elems().len(), 0int,
{
    let indent: Option<LevelIndent> = part_indent(&part);
    let mut first: Option<ListPart> = part;
    let v: Vec<&'a Element> = item.elems();
    let ghost ts = trees(v@);
    let ghost goal = parts_walked(k@, ctx@, ts, part_view(first), indent, below);
    assert(ts.skip(0) =~= ts);
    let mut i: usize = 0;
    while i < v.len() && !ctx.w.is_full()
        invariant
            i <= v@.len(),
            ts == trees(v@),
            parts_walked(k@, ctx@, ts.skip(i as int), part_view(first), indent, below) == goal,
        decreases v@.len() - i,
    {
        assert(ts.skip(i as int)[0] == v@[i as int]@);
        assert(ts.skip(i as int).skip(1) =~= ts.skip(i + 1));
        let n: &'a Element = v[i];
        emit_part(k, ctx, n, &first, indent, below);
        if n.is("p") || n.is("h") {
            first = None;
        }
        i = i + 1;
    }
}

fn emit_part<'a>(
    k: &Env<'a>,
    ctx: &mut Ctx<'a>,
    n: &'a Element,
    first: &Option<ListPart>,
    indent: Option<LevelIndent>,
    below: Room,
)
    ensures
        final(ctx)@ == part_walked(k@, old(ctx)@, n@, part_view(*first), indent, below),
    decreases below.boxes, below.tables, below.depth, 3int, 0int, 0int,
{
    if n.is("p") || n.is("h") {
        if first.is_some() {
            emit_para(k, ctx, n, first, below.boxes);
        } else {
            let part: Option<ListPart> = match indent {
                Some(i) => Some(ListPart::Indent(i)),
                None => None,
            };
            emit_para(k, ctx, n, &part, below.boxes);
        }
    } else if n.is("table") {
        emit_table(k, ctx, n, below);
    } else if n.is("number") || below.depth == 0 {
        return;
    } else {
        let inner = Room { boxes: below.boxes, tables: below.tables, depth: below.depth - 1 };
        if n.is("list") {
            emit_list(k, ctx, n, inner);
        } else {
            emit_block(k, ctx, n, inner);
        }
    }
}

// ── the walk ─────────────────────────────────────────────────────────────────

/// An index, whose body the producer has filled in.
pub open spec fn is_index(name: Seq<char>) -> bool {
    name == "table-of-content"@ || name == "illustration-index"@ || name == "table-index"@ || name
        == "object-index"@ || name == "user-index"@ || name == "alphabetical-index"@ || name
        == "bibliography"@
}

fn index(n: &Element) -> (r: bool)
    ensures
        r == is_index(n@.name),
{
    n.is("table-of-content") || n.is("illustration-index") || n.is("table-index") || n.is(
        "object-index",
    ) || n.is("user-index") || n.is("alphabetical-index") || n.is("bibliography")
}

/// After the blocks of an element.
pub open spec fn walked(k: EnvView, s: CtxView, e: Tree, room: Room) -> CtxView
    decreases room.boxes, room.tables, room.depth, 0int, 0int, 0int,
{
    if room.depth == 0 {
        s
    } else {
        blocks_walked(k, s, e.elems(), room.inner())
    }
}

/// After some blocks. None is begun once the writer is full.
pub open spec fn blocks_walked(k: EnvView, s: CtxView, v: Seq<Tree>, below: Room) -> CtxView
    decreases below.boxes, below.tables, below.depth, 9int, v.len(), 0int,
{
    if v.len() == 0 || s.w.full {
        s
    } else {
        blocks_walked(k, block_walked(k, s, v[0], below), v.skip(1), below)
    }
}

/// After a block. `below` is the room inside it. What is no block of the document's text
/// (declarations, changes that were tracked, comments, the producer's own pagination)
/// shows nothing.
pub open spec fn block_walked(k: EnvView, s: CtxView, n: Tree, below: Room) -> CtxView
    decreases below.boxes, below.tables, below.depth, 8int, 0int, 0int,
{
    if n.name == "p"@ || n.name == "h"@ {
        para_walked(k, s, n, None, below.boxes)
    } else if n.name == "list"@ {
        listed(k, s, n, below)
    } else if n.name == "table"@ {
        tabled(k, s, n, below)
    } else if n.name == "section"@ {
        let style = n.attr("style-name"@);
        walked(
            k,
            if style is Some && k.multi_col.contains(style->0) {
                s.noting(NOTE_COLUMNS@)
            } else {
                s
            },
            n,
            below,
        )
    } else if is_index(n.name) {
        match n.child("index-body"@) {
            Some(b) => walked(k, s, b, below),
            None => s,
        }
    } else if n.name == "frame"@ {
        frame_walked(k, s, n, below.boxes)
    } else if n.name == "bookmark-start"@ || n.name == "bookmark"@ {
        match mark_of(s, n) {
            Some(id) => CtxView {
                w: s.w.opened("span"@, attr_text("id"@, id)).closed(),
                ..s.marking(n)
            },
            None => s,
        }
    } else {
        s
    }
}

/// Walks the blocks of an element, in document order.
pub fn walk<'a>(k: &Env<'a>, ctx: &mut Ctx<'a>, e: &'a Element, room: Room)
    ensures
        final(ctx)@ == walked(k@, old(ctx)@, e@, room),
    decreases room.boxes, room.tables, room.depth, 0int, 0int, 0int,
{
    if room.depth == 0 {
        return;
    }
    let below = Room { boxes: room.boxes, tables: room.tables, depth: room.depth - 1 };
    let v: Vec<&'a Element> = e.elems();
    let ghost ts = trees(v@);
    let ghost goal = blocks_walked(k@, ctx@, ts, below);
    assert(ts.skip(0) =~= ts);
    let mut i: usize = 0;
    while i < v.len() && !ctx.w.is_full()
        invariant
            i <= v@.len(),
            ts == trees(v@),
            room.depth > 0,
            below == room.inner(),
            blocks_walked(k@, ctx@, ts.skip(i as int), below) == goal,
        decreases v@.len() - i,
    {
        assert(ts.skip(i as int)[0] == v@[i as int]@);
        assert(ts.skip(i as int).skip(1) =~= ts.skip(i + 1));
        emit_block(k, ctx, v[i], below);
        i = i + 1;
    }
}

fn in_columns<'a>(k: &Env<'a>, n: &Element) -> (r: bool)
    ensures
        r == (n@.attr("style-name"@) is Some && k@.multi_col.contains(
            n@.attr("style-name"@)->0,
        )),
{
    let name: &str = match n.attr_local("style-name") {
        Some(s) => s,
        None => {
            return false;
        },
    };
    let ghost v = note_texts(k.multi_col@);
    for i in 0..k.multi_col.len()
        invariant
            v == note_texts(k.multi_col@),
            n@.attr("style-name"@) == Some(name@),
            forall|j: int| 0 <= j < i ==> #[trigger] v[j] != name@,
    {
        assert(v[i as int] == k.multi_col@[i as int]@);
        if *k.multi_col[i].as_str() == *name {
            assert(k@.multi_col[i as int] == name@);
            return true;
        }
    }
    false
}

fn emit_block<'a>(k: &Env<'a>, ctx: &mut Ctx<'a>, n: &'a Element, below: Room)
    ensures
        final(ctx)@ == block_walked(k@, old(ctx)@, n@, below),
    decreases below.boxes, below.tables, below.depth, 8int, 0int, 0int,
{
    if n.is("p") || n.is("h") {
        emit_para(k, ctx, n, &None, below.boxes);
    } else if n.is("list") {
        emit_list(k, ctx, n, below);
    } else if n.is("table") {
        emit_table(k, ctx, n, below);
    } else if n.is("section") {
        if in_columns(k, n) {
            ctx.note(NOTE_COLUMNS);
        }
        walk(k, ctx, n, below);
    } else if index(n) {
        if let Some(b) = n.child("index-body") {
            walk(k, ctx, b, below);
        }
    } else if n.is("frame") {
        emit_frame_block(k, ctx, n, below.boxes);
    } else if n.is("bookmark-start") || n.is("bookmark") {
        if let Some(id) = ctx.bookmark(n) {
            let mut a: Vec<char> = no_attrs();
            assert(plain("id"@)) by {
                lemma_attr_names();
            }
            push_attr(&mut a, "id", &chars_of(id.as_str()));
            assert(a@ =~= attr_text("id"@, id@));
            assert(is_name("span"@) && !is_void("span"@)) by {
                lemma_tags();
            }
            ctx.w.open("span", &a);
            ctx.w.close();
        }
    }
}

} // verus!
