//! What a walk over a document keeps, whatever the document holds.

use vstd::prelude::*;
use crate::cellstyle::align_inner_css;
use crate::html::{attr_text, begins, goes_on, group_goes_on, lemma_stays, style_text, Written};
use crate::link::destination_of;
use crate::model::{law_paragraphs_go_on, Inked, Para, ParaView};
use crate::notes::noted;
use crate::odf::draw::{framed, pictured_frame, MAX_GRAPHICS};
use crate::odf::length::Px;
use crate::odf::list::{law_enter_and_leave_pair, start_of, LevelIndent};
use crate::odf::style::{
    para_of, size_in, BreakKind, Family, TableProps, TextPropsView, DEFAULT_SIZE_PT,
};
use crate::odf::table::{
    cell_align, cell_attrs, cell_budget, cell_walked, cells_walked, cols_written, grid_written,
    head_turned, row_css, row_walked, rows_walked, table_css, table_drawn, tabled, NOTE_CLIPPED,
    NOTE_DOC_CELLS, NOTE_NESTED,
};
use crate::odf::table::plan::{
    grid_of, law_plan_counts_its_cells, plan_of, rows_in, CellView, PlanView, RowView, RowsView,
    GROUPS, MAX_DOC_CELLS,
};
use crate::odf::text::{
    doc_env, doc_walked, lists_of, mark_of, setup_of, text_body, with_raws, CtxView, EnvView,
    Input, NoteView, Room, BASE_STYLE, BOX_CAP, DEPTHS, MAX_BOOKMARKS, MAX_BOXES, MAX_NOTES_SHOWN,
    MAX_PARAS, MAX_RUNS, NOTE_BODY, NOTE_BOXES, NOTE_BULLET_IMAGE, NOTE_COLUMNS, NOTE_HEADER,
    NOTE_NOTES_CAPPED, NOTE_PARAS, NOTE_TXBX,
};
use crate::odf::text::blocks::{
    block_walked, blocks_walked, frame_walked, header_part, heading_of, hoisted, indent_of_part,
    indented, is_index, item_counted, item_walked, items_walked, listed, para_part, para_walked,
    part_has_image, part_label, part_walked, parts_walked, walked, PartView,
};
use crate::odf::text::runs::{
    is_silent, note_drawn, run_drawn, runs_drawn, runs_each, span_text, Drawn,
};
use crate::odf::text::tail::{note_tailed, notes_tailed, tailed, MAX_NOTE_TAIL_BYTES};
use crate::xml::{Item, Tree};

pub mod blocks;
pub mod pages;
pub mod runs;
pub mod tables;
pub mod words;

verus! {

/// Every count is within its bound.
pub open spec fn within(s: CtxView) -> bool {
    &&& s.paras <= MAX_PARAS
    &&& s.boxes <= MAX_BOXES
    &&& s.cells <= MAX_DOC_CELLS
    &&& s.images <= MAX_GRAPHICS
    &&& s.bookmarks <= MAX_BOOKMARKS
    &&& s.note_refs.len() <= MAX_NOTES_SHOWN
}

/// What a step of a walk keeps: what has been written, noted, asked for and cited stays;
/// counts only grow, and stay within their bounds; the lists that are open stay open.
#[verifier::opaque]
pub open spec fn kept(s: CtxView, t: CtxView) -> bool {
    &&& goes_on(s.w, t.w)
    &&& begins(s.notes, t.notes)
    &&& begins(s.wanted, t.wanted)
    &&& begins(s.note_refs, t.note_refs)
    &&& t.in_note == s.in_note
    &&& s.paras <= t.paras
    &&& s.boxes <= t.boxes
    &&& s.cells <= t.cells
    &&& s.images <= t.images
    &&& s.bookmarks <= t.bookmarks
    &&& within(s) ==> within(t)
    &&& t.lists.defs == s.lists.defs
    &&& t.lists.stack.len() == s.lists.stack.len()
    &&& t.lists.over == s.lists.over
    &&& s.lists.wf() ==> t.lists.wf()
}

pub broadcast proof fn lemma_kept_on(a: CtxView, b: CtxView, c: CtxView)
    requires
        #[trigger] kept(a, b),
        #[trigger] kept(b, c),
    ensures
        kept(a, c),
{
    broadcast use group_goes_on;

    reveal(kept);
    assert forall|k: int| 0 <= k < a.notes.len() implies #[trigger] c.notes[k] == a.notes[k] by {
        assert(b.notes[k] == a.notes[k]);
    }
    assert forall|k: int| 0 <= k < a.wanted.len() implies #[trigger] c.wanted[k]
        == a.wanted[k] by {
        assert(b.wanted[k] == a.wanted[k]);
    }
    assert forall|k: int| 0 <= k < a.note_refs.len() implies #[trigger] c.note_refs[k]
        == a.note_refs[k] by {
        assert(b.note_refs[k] == a.note_refs[k]);
    }
}

// ── single steps ─────────────────────────────────────────────────────────────

pub proof fn lemma_same(s: CtxView)
    ensures
        kept(s, s),
{
    reveal(kept);
    lemma_stays(s.w);
}

pub proof fn lemma_noting(s: CtxView, note: Seq<char>)
    ensures
        kept(s, s.noting(note)),
{
    reveal(kept);
    lemma_stays(s.w);
}

pub proof fn lemma_writing(s: CtxView, w: Written)
    requires
        goes_on(s.w, w),
    ensures
        kept(s, CtxView { w, ..s }),
{
    reveal(kept);
}

proof fn lemma_marking(s: CtxView, n: Tree)
    ensures
        kept(s, s.marking(n)),
{
    reveal(kept);
    lemma_stays(s.w);
}

proof fn lemma_breaking(k: EnvView, s: CtxView, b: Option<BreakKind>)
    ensures
        kept(s, s.broken(k, b)),
{
    broadcast use group_goes_on;

    lemma_stays(s.w);
    lemma_writing(s, s.broken(k, b).w);
}

proof fn lemma_raws(w: Written, v: Seq<Seq<char>>)
    ensures
        goes_on(w, with_raws(w, v)),
    decreases v.len(),
{
    broadcast use group_goes_on;

    if v.len() == 0 {
        lemma_stays(w);
    } else {
        lemma_raws(w, v.drop_last());
    }
}

proof fn lemma_flushing(s: CtxView)
    ensures
        kept(s, s.flushed()),
{
    reveal(kept);
    lemma_raws(s.w, s.pending);
}

proof fn lemma_inking(k: EnvView, s: CtxView, p: ParaView)
    ensures
        kept(s, s.inked(k, p)),
{
    reveal(kept);
    law_paragraphs_go_on(
        Inked { w: s.w, marks: s.marks },
        seq![p],
        k.classes.html,
        k.terms,
    );
}

proof fn lemma_note(
    k: EnvView,
    d: Drawn,
    n: Tree,
    t: TextPropsView,
    base_pt: Px,
)
    ensures
        kept(d.s, note_drawn(k, d, n, t, base_pt).s),
{
    reveal(kept);
    lemma_stays(d.s.w);
}

proof fn lemma_picture(k: EnvView, d: Drawn, frame: Tree)
    ensures
        kept(d.s, pictured_frame(k, d, frame).s),
{
    reveal(kept);
    lemma_stays(d.s.w);
}

proof fn lemma_counting(k: EnvView, s: CtxView, item: Tree)
    ensures
        kept(s, item_counted(k, s, item).0),
{
    reveal(kept);
    lemma_stays(s.w);
}

// ── the walk ─────────────────────────────────────────────────────────────────

/// How many lists can be nested in the room that a walk has.
pub open spec fn reach(room: Room) -> int {
    1000 * room.boxes + 100 * room.tables + room.depth
}

/// The count of open lists is in order, with room for `n` more.
pub open spec fn ready(s: CtxView, n: int) -> bool {
    s.lists.wf() && s.lists.over + n < usize::MAX
}

pub proof fn lemma_ready(s: CtxView, t: CtxView, n: int)
    requires
        kept(s, t),
        ready(s, n),
    ensures
        ready(t, n),
{
    reveal(kept);
}

proof fn lemma_runs(
    k: EnvView,
    d: Drawn,
    e: Tree,
    t: TextPropsView,
    base_pt: Px,
    deep: usize,
    link: Option<Seq<char>>,
    boxes: usize,
)
    requires
        ready(d.s, 1000 * boxes),
    ensures
        kept(d.s, runs_drawn(k, d, e, t, base_pt, deep, link, boxes).s),
    decreases boxes, 0int, 0int, 1int, deep, 0int,
{
    if deep == 0 {
        lemma_same(d.s);
    } else {
        lemma_runs_each(k, d, e.children, t, base_pt, (deep - 1) as usize, link, boxes);
    }
}

proof fn lemma_runs_each(
    k: EnvView,
    d: Drawn,
    v: Seq<Item>,
    t: TextPropsView,
    base_pt: Px,
    below: usize,
    link: Option<Seq<char>>,
    boxes: usize,
)
    requires
        ready(d.s, 1000 * boxes),
    ensures
        kept(d.s, runs_each(k, d, v, t, base_pt, below, link, boxes).s),
    decreases boxes, 0int, 0int, 1int, below, v.len() + 2,
{
    broadcast use lemma_kept_on;

    if v.len() == 0 || d.out.len() >= MAX_RUNS {
        lemma_same(d.s);
    } else {
        let next = run_drawn(k, d, v[0], t, base_pt, below, link, boxes);
        lemma_run(k, d, v[0], t, base_pt, below, link, boxes);
        lemma_ready(d.s, next.s, 1000 * boxes);
        lemma_runs_each(k, next, v.skip(1), t, base_pt, below, link, boxes);
    }
}

proof fn lemma_run(
    k: EnvView,
    d: Drawn,
    v: Item,
    t: TextPropsView,
    base_pt: Px,
    below: usize,
    link: Option<Seq<char>>,
    boxes: usize,
)
    requires
        ready(d.s, 1000 * boxes),
    ensures
        kept(d.s, run_drawn(k, d, v, t, base_pt, below, link, boxes).s),
    decreases boxes, 0int, 0int, 1int, below, 1int,
{
    lemma_same(d.s);
    match v {
        Item::Text(_) => {},
        Item::Element(c) => {
            if c.name == "span"@ {
                let inner = span_text(k, t, c);
                lemma_runs(k, d, c, inner, base_pt, below, link, boxes);
            } else if c.name == "a"@ {
                let inner = span_text(k, t, c);
                let to = match c.attr("href"@) {
                    Some(href) => destination_of(href),
                    None => None,
                };
                lemma_runs(k, d, c, inner, base_pt, below, to, boxes);
            } else if c.name == "s"@ || c.name == "tab"@ || c.name == "line-break"@ {
            } else if c.name == "note"@ {
                lemma_note(k, d, c, t, base_pt);
            } else if c.name == "frame"@ {
                lemma_framed(k, d, c, boxes);
            } else if c.name == "bookmark-start"@ || c.name == "bookmark"@ {
                lemma_marking(d.s, c);
            } else if is_silent(c.name) {
            } else {
                lemma_runs(k, d, c, t, base_pt, below, link, boxes);
            }
        },
    }
}

proof fn lemma_framed(k: EnvView, d: Drawn, frame: Tree, boxes: usize)
    requires
        ready(d.s, 1000 * boxes),
    ensures
        kept(d.s, framed(k, d, frame, boxes).s),
    decreases boxes, 0int, 0int, 0int, 1int, 0int,
{
    let tb = frame.child("text-box"@);
    if tb is Some && tb->0.elems().len() > 0 {
        lemma_hoisted(k, d.s, tb->0, boxes);
    } else {
        lemma_picture(k, d, frame);
    }
}

proof fn lemma_hoisted(k: EnvView, s: CtxView, content: Tree, boxes: usize)
    requires
        ready(s, 1000 * boxes),
    ensures
        kept(s, hoisted(k, s, content, boxes)),
    decreases boxes, 0int, 0int, 0int, 0int, 0int,
{
    if s.boxes >= MAX_BOXES || boxes == 0 {
        lemma_noting(s, NOTE_BOXES@);
    } else {
        let inside = CtxView {
            boxes: (s.boxes + 1) as usize,
            pending: Seq::empty(),
            w: Written::fresh(BOX_CAP as nat).opened(
                "div"@,
                attr_text("class"@, "of-txbx"@),
            ),
            ..s.noting(NOTE_TXBX@)
        };
        lemma_walked(k, inside, content, Room::in_box(boxes));
        reveal(kept);
        lemma_stays(s.w);
        let t = walked(k, inside, content, Room::in_box(boxes));
        assert forall|i: int| 0 <= i < s.notes.len() implies #[trigger] t.notes[i]
            == s.notes[i] by {
            assert(inside.notes[i] == s.notes[i]);
        }
    }
}

proof fn lemma_para(
    k: EnvView,
    s: CtxView,
    p: Tree,
    part: Option<PartView>,
    boxes: usize,
)
    requires
        ready(s, 1000 * boxes),
    ensures
        kept(s, para_walked(k, s, p, part, boxes)),
    decreases boxes, 0int, 0int, 2int, 0int, 0int,
{
    broadcast use lemma_kept_on;

    if s.paras >= MAX_PARAS {
        lemma_noting(s, NOTE_PARAS@);
    } else {
        let name = p.text_attr("style-name"@);
        let r = k.styles.resolved(Family::Paragraph, name);
        let base_pt = size_in(r.text.size, DEFAULT_SIZE_PT);
        let pp = indented(
            r.para,
            indent_of_part(part),
        );
        let s1 = CtxView { paras: (s.paras + 1) as usize, ..s };
        assert(kept(s, s1)) by {
            reveal(kept);
            lemma_stays(s.w);
        }
        let s2 = if part_has_image(part) {
            s1.noting(NOTE_BULLET_IMAGE@)
        } else {
            s1
        };
        lemma_same(s1);
        lemma_noting(s1, NOTE_BULLET_IMAGE@);
        assert(kept(s1, s2));
        let s3 = s2.broken(k, pp.break_before);
        lemma_breaking(k, s2, pp.break_before);
        lemma_ready(s, s3, 1000 * boxes);
        let d = runs_drawn(
            k,
            Drawn { s: s3, out: Seq::empty() },
            p,
            r.text,
            base_pt,
            DEPTHS,
            None,
            boxes,
        );
        lemma_runs(k, Drawn { s: s3, out: Seq::empty() }, p, r.text, base_pt, DEPTHS, None, boxes);
        let para = para_of(pp, base_pt, heading_of(p));
        let written = Para {
            runs: d.out,
            marker: part_label(part),
            space_before_px: if pp.contextual_spacing == Some(true) && s.prev_style == Some(
                name,
            ) {
                0
            } else {
                para.space_before_px
            },
            ..para
        };
        let s4 = d.s.inked(k, written);
        lemma_inking(k, d.s, written);
        lemma_flushing(s4);
        let s5 = s4.flushed().broken(k, pp.break_after);
        lemma_breaking(k, s4.flushed(), pp.break_after);
        assert(kept(s, s5));
        assert(kept(s5, CtxView { prev_style: Some(name), ..s5 })) by {
            reveal(kept);
            lemma_stays(s5.w);
        }
    }
}

proof fn lemma_frame(k: EnvView, s: CtxView, frame: Tree, boxes: usize)
    requires
        ready(s, 1000 * boxes),
    ensures
        kept(s, frame_walked(k, s, frame, boxes)),
    decreases boxes, 0int, 0int, 2int, 0int, 0int,
{
    broadcast use lemma_kept_on;

    let d = framed(k, Drawn { s, out: Seq::empty() }, frame, boxes);
    lemma_framed(k, Drawn { s, out: Seq::empty() }, frame, boxes);
    let r = k.styles.resolved(Family::Paragraph, BASE_STYLE@);
    let base_pt = size_in(r.text.size, DEFAULT_SIZE_PT);
    if d.out.len() == 0 {
        lemma_flushing(d.s);
    } else {
        let para = Para { runs: d.out, ..para_of(r.para, base_pt, None) };
        lemma_inking(k, d.s, para);
        lemma_flushing(d.s.inked(k, para));
    }
}

proof fn lemma_listed(k: EnvView, s: CtxView, list: Tree, below: Room)
    requires
        ready(s, reach(below) + 1),
    ensures
        kept(s, listed(k, s, list, below)),
    decreases below.boxes, below.tables, below.depth, 7int, 0int, 0int,
{
    let start = start_of(list);
    let inside = CtxView { lists: s.lists.entered(start), ..s };
    law_enter_and_leave_pair(s.lists, start, 0);
    lemma_items(k, inside, list.elems(), below);
    reveal(kept);
}

proof fn lemma_items(k: EnvView, s: CtxView, v: Seq<Tree>, below: Room)
    requires
        ready(s, reach(below)),
    ensures
        kept(s, items_walked(k, s, v, below)),
    decreases below.boxes, below.tables, below.depth, 6int, v.len(), 0int,
{
    broadcast use lemma_kept_on;

    if v.len() == 0 || s.w.full {
        lemma_same(s);
    } else {
        let next = item_walked(k, s, v[0], below);
        lemma_item(k, s, v[0], below);
        lemma_ready(s, next, reach(below));
        lemma_items(k, next, v.skip(1), below);
    }
}

proof fn lemma_item(k: EnvView, s: CtxView, item: Tree, below: Room)
    requires
        ready(s, reach(below)),
    ensures
        kept(s, item_walked(k, s, item, below)),
    decreases below.boxes, below.tables, below.depth, 5int, 0int, 0int,
{
    broadcast use lemma_kept_on;

    if item.name == "list-header"@ {
        let part = header_part(s);
        let indent = indent_of_part(part);
        lemma_parts(k, s, item.elems(), part, indent, below);
    } else if item.name == "list-item"@ {
        let c = item_counted(k, s, item);
        lemma_counting(k, s, item);
        lemma_ready(s, c.0, reach(below));
        let indent = indent_of_part(c.1);
        lemma_parts(k, c.0, item.elems(), c.1, indent, below);
    } else {
        lemma_same(s);
    }
}

proof fn lemma_parts(
    k: EnvView,
    s: CtxView,
    v: Seq<Tree>,
    first: Option<PartView>,
    indent: Option<LevelIndent>,
    below: Room,
)
    requires
        ready(s, reach(below)),
    ensures
        kept(s, parts_walked(k, s, v, first, indent, below)),
    decreases below.boxes, below.tables, below.depth, 4int, v.len(), 0int,
{
    broadcast use lemma_kept_on;

    if v.len() == 0 || s.w.full {
        lemma_same(s);
    } else {
        let next = part_walked(k, s, v[0], first, indent, below);
        lemma_part(k, s, v[0], first, indent, below);
        lemma_ready(s, next, reach(below));
        let rest = if v[0].name == "p"@ || v[0].name == "h"@ {
            None
        } else {
            first
        };
        lemma_parts(k, next, v.skip(1), rest, indent, below);
    }
}

proof fn lemma_part(
    k: EnvView,
    s: CtxView,
    n: Tree,
    first: Option<PartView>,
    indent: Option<LevelIndent>,
    below: Room,
)
    requires
        ready(s, reach(below)),
    ensures
        kept(s, part_walked(k, s, n, first, indent, below)),
    decreases below.boxes, below.tables, below.depth, 3int, 0int, 0int,
{
    if n.name == "p"@ || n.name == "h"@ {
        let part = para_part(first, indent);
        lemma_para(k, s, n, part, below.boxes);
    } else if n.name == "table"@ {
        lemma_tabled(k, s, n, below);
    } else if n.name == "number"@ || below.depth == 0 {
        lemma_same(s);
    } else if n.name == "list"@ {
        lemma_listed(k, s, n, below.inner());
    } else {
        lemma_block(k, s, n, below.inner());
    }
}

proof fn lemma_walked(k: EnvView, s: CtxView, e: Tree, room: Room)
    requires
        ready(s, reach(room)),
    ensures
        kept(s, walked(k, s, e, room)),
    decreases room.boxes, room.tables, room.depth, 0int, 0int, 0int,
{
    if room.depth == 0 {
        lemma_same(s);
    } else {
        lemma_blocks(k, s, e.elems(), room.inner());
    }
}

proof fn lemma_blocks(k: EnvView, s: CtxView, v: Seq<Tree>, below: Room)
    requires
        ready(s, reach(below) + 1),
    ensures
        kept(s, blocks_walked(k, s, v, below)),
    decreases below.boxes, below.tables, below.depth, 9int, v.len(), 0int,
{
    broadcast use lemma_kept_on;

    if v.len() == 0 || s.w.full {
        lemma_same(s);
    } else {
        let next = block_walked(k, s, v[0], below);
        lemma_block(k, s, v[0], below);
        lemma_ready(s, next, reach(below) + 1);
        lemma_blocks(k, next, v.skip(1), below);
    }
}

proof fn lemma_block(k: EnvView, s: CtxView, n: Tree, below: Room)
    requires
        ready(s, reach(below) + 1),
    ensures
        kept(s, block_walked(k, s, n, below)),
    decreases below.boxes, below.tables, below.depth, 8int, 0int, 0int,
{
    broadcast use {lemma_kept_on, group_goes_on};

    lemma_same(s);
    if n.name == "p"@ || n.name == "h"@ {
        lemma_para(k, s, n, None, below.boxes);
    } else if n.name == "list"@ {
        lemma_listed(k, s, n, below);
    } else if n.name == "table"@ {
        lemma_tabled(k, s, n, below);
    } else if n.name == "section"@ {
        let style = n.attr("style-name"@);
        let t = if style is Some && k.multi_col.contains(style->0) {
            s.noting(NOTE_COLUMNS@)
        } else {
            s
        };
        lemma_noting(s, NOTE_COLUMNS@);
        lemma_ready(s, t, reach(below));
        lemma_walked(k, t, n, below);
    } else if is_index(n.name) {
        if let Some(b) = n.child("index-body"@) {
            lemma_walked(k, s, b, below);
        }
    } else if n.name == "frame"@ {
        lemma_frame(k, s, n, below.boxes);
    } else if n.name == "bookmark-start"@ || n.name == "bookmark"@ {
        if let Some(id) = mark_of(s, n) {
            let m = s.marking(n);
            lemma_marking(s, n);
            lemma_writing(
                m,
                s.w.opened("span"@, attr_text("id"@, id)).closed(),
            );
        }
    }
}

// ── tables ───────────────────────────────────────────────────────────────────

proof fn lemma_cell(k: EnvView, s: CtxView, c: CellView, room: Room)
    requires
        ready(s, reach(room)),
    ensures
        kept(s, cell_walked(k, s, c, room)),
    decreases room.boxes, room.tables, room.depth, 3int, 0int, 0int,
{
    broadcast use {lemma_kept_on, group_goes_on};

    let cp = k.styles.resolved(Family::TableCell, c.node.text_attr("style-name"@)).cell;
    let inner = align_inner_css(cell_align(cp));
    let w0 = s.w.opened("td"@, cell_attrs(k, c, cp));
    let w1 = if inner.len() > 0 {
        w0.opened("div"@, attr_text("style"@, inner))
    } else {
        w0
    };
    let inside = CtxView { w: w1, prev_style: None, ..s };
    assert(kept(s, inside)) by {
        reveal(kept);
    }
    lemma_ready(s, inside, reach(room));
    let t = walked(k, inside, c.node, room);
    lemma_walked(k, inside, c.node, room);
    let w2 = if inner.len() > 0 {
        t.w.closed()
    } else {
        t.w
    };
    assert(goes_on(t.w, w2.closed()));
    lemma_writing(t, w2.closed());
}

proof fn lemma_cells(k: EnvView, s: CtxView, v: Seq<CellView>, room: Room)
    requires
        ready(s, reach(room)),
    ensures
        kept(s, cells_walked(k, s, v, room)),
    decreases room.boxes, room.tables, room.depth, 4int, v.len(), 0int,
{
    broadcast use lemma_kept_on;

    if v.len() == 0 || s.w.full {
        lemma_same(s);
    } else {
        let next = cell_walked(k, s, v[0], room);
        lemma_cell(k, s, v[0], room);
        lemma_ready(s, next, reach(room));
        lemma_cells(k, next, v.skip(1), room);
    }
}

proof fn lemma_row(k: EnvView, s: CtxView, r: RowView, room: Room)
    requires
        ready(s, reach(room)),
    ensures
        kept(s, row_walked(k, s, r, room)),
    decreases room.boxes, room.tables, room.depth, 5int, 0int, 0int,
{
    broadcast use {lemma_kept_on, group_goes_on};

    let rp = k.styles.resolved(Family::TableRow, r.node.text_attr("style-name"@)).row;
    let w = s.w.opened("tr"@, style_text(row_css(rp)));
    let inside = CtxView { w, ..s };
    lemma_writing(s, w);
    lemma_ready(s, inside, reach(room));
    let t = cells_walked(k, inside, r.cells, room);
    lemma_cells(k, inside, r.cells, room);
    lemma_writing(t, t.w.closed());
}

proof fn lemma_rows(k: EnvView, s: CtxView, v: Seq<RowView>, in_head: bool, room: Room)
    requires
        ready(s, reach(room)),
    ensures
        kept(s, rows_walked(k, s, v, in_head, room).0),
    decreases room.boxes, room.tables, room.depth, 6int, v.len(), 0int,
{
    broadcast use {lemma_kept_on, group_goes_on};

    if v.len() == 0 || s.w.full {
        lemma_same(s);
    } else {
        let w = head_turned(s.w, in_head, v[0].header);
        lemma_stays(s.w);
        let turned = CtxView { w, ..s };
        lemma_writing(s, w);
        lemma_ready(s, turned, reach(room));
        let next = row_walked(k, turned, v[0], room);
        lemma_row(k, turned, v[0], room);
        lemma_ready(s, next, reach(room));
        lemma_rows(k, next, v.skip(1), v[0].header, room);
    }
}

proof fn lemma_cols(w: Written, grid: Seq<Px>)
    ensures
        goes_on(w, cols_written(w, grid)),
    decreases grid.len(),
{
    broadcast use group_goes_on;

    if grid.len() == 0 {
        lemma_stays(w);
    } else {
        lemma_cols(w, grid.drop_last());
    }
}

proof fn lemma_grid(w: Written, grid: Seq<Px>)
    ensures
        goes_on(w, grid_written(w, grid)),
{
    broadcast use group_goes_on;

    lemma_stays(w);
    lemma_cols(w.opened("colgroup"@, Seq::empty()), grid);
}

proof fn lemma_table(k: EnvView, s: CtxView, tbl: Tree, tp: TableProps, room: Room)
    requires
        ready(s, reach(room)),
        s.cells < MAX_DOC_CELLS,
    ensures
        kept(s, table_drawn(k, s, tbl, tp, room)),
    decreases room.boxes, room.tables, room.depth, 7int, 0int, 0int,
{
    broadcast use {lemma_kept_on, group_goes_on};

    let grid = grid_of(k.styles, tbl);
    let p = plan_of(tbl, cell_budget(s));
    lemma_same(s);
    if p.rows.len() > 0 {
        let found = rows_in(
            RowsView { rows: Seq::empty(), clipped: false },
            tbl,
            false,
            GROUPS as nat,
        );
        law_plan_counts_its_cells(
            PlanView { rows: Seq::empty(), left: cell_budget(s), clipped: found.clipped },
            found.rows,
        );
        let s1 = CtxView { cells: (s.cells + (cell_budget(s) - p.left)) as usize, ..s };
        assert(kept(s, s1)) by {
            reveal(kept);
            lemma_stays(s.w);
        }
        let s2 = if p.clipped {
            s1.noting(NOTE_CLIPPED@)
        } else {
            s1
        };
        lemma_same(s1);
        lemma_noting(s1, NOTE_CLIPPED@);
        let class = if grid.len() == 0 {
            k.classes.table_auto@
        } else {
            k.classes.table@
        };
        let attrs = attr_text("class"@, class) + style_text(
            table_css(tp, grid),
        );
        let w = grid_written(s2.w.opened("table"@, attrs), grid);
        lemma_grid(s2.w.opened("table"@, attrs), grid);
        let s3 = CtxView { w, ..s2 };
        lemma_writing(s2, w);
        assert(kept(s, s3));
        lemma_ready(s, s3, reach(room));
        let t = rows_walked(k, s3, p.rows, false, room);
        lemma_rows(k, s3, p.rows, false, room);
        let w1 = if t.1 {
            t.0.w.closed()
        } else {
            t.0.w
        };
        assert(goes_on(t.0.w, w1.closed()));
        lemma_writing(t.0, w1.closed());
    }
}

proof fn lemma_tabled(k: EnvView, s: CtxView, tbl: Tree, room: Room)
    requires
        ready(s, reach(room)),
    ensures
        kept(s, tabled(k, s, tbl, room)),
    decreases room.boxes, room.tables, 0int, 2int, 0int, 0int,
{
    if room.tables == 0 {
        lemma_noting(s, NOTE_NESTED@);
    } else if s.cells >= MAX_DOC_CELLS {
        lemma_noting(s, NOTE_DOC_CELLS@);
    } else {
        let tp = k.styles.resolved(Family::Table, tbl.text_attr("style-name"@)).table;
        if tp.display == Some(false) {
            lemma_same(s);
        } else {
            lemma_table(k, s, tbl, tp, room.in_table());
        }
    }
}

// ── laws ─────────────────────────────────────────────────────────────────────

/// A walk over any element keeps what was written, noted and asked for, leaves the open
/// lists open, and stays within every bound.
pub proof fn law_a_walk_keeps_its_bounds(k: EnvView, s: CtxView, e: Tree, room: Room)
    requires
        ready(s, reach(room)),
    ensures
        kept(s, walked(k, s, e, room)),
{
    lemma_walked(k, s, e, room);
}

proof fn lemma_note_tailed(k: EnvView, s: CtxView, r: NoteView)
    requires
        ready(s, reach(Room::whole())),
        !s.in_note,
    ensures
        kept(s, note_tailed(k, s, r)),
{
    broadcast use {lemma_kept_on, group_goes_on};

    let w = s.w.opened(
        "div"@,
        attr_text("class"@, "of-fn"@) + attr_text("id"@, r.anchor()),
    ).opened(
        "a"@,
        attr_text("class"@, "of-fnb"@) + attr_text("href"@, seq!['#'] + r.ref_anchor()),
    ).text(r.label).closed();
    let inside = CtxView { w, in_note: true, ..s };
    let t = walked(k, inside, r.body, Room::whole());
    lemma_walked(k, inside, r.body, Room::whole());
    reveal(kept);
    assert(goes_on(s.w, t.w.closed()));
}

proof fn lemma_notes_tailed(k: EnvView, s: CtxView, v: Seq<NoteView>, start: nat)
    requires
        ready(s, reach(Room::whole())),
        !s.in_note,
    ensures
        kept(s, notes_tailed(k, s, v, start)),
    decreases v.len(),
{
    broadcast use lemma_kept_on;

    if v.len() == 0 || s.w.full {
        lemma_same(s);
    } else if s.w.used > start + MAX_NOTE_TAIL_BYTES {
        lemma_noting(s, NOTE_NOTES_CAPPED@);
    } else {
        let next = note_tailed(k, s, v[0]);
        lemma_note_tailed(k, s, v[0]);
        lemma_ready(s, next, reach(Room::whole()));
        assert(!next.in_note) by {
            reveal(kept);
        }
        lemma_notes_tailed(k, next, v.skip(1), start);
    }
}

/// The notes of a document are written behind its body: they forget nothing but the notes
/// that have been written, and stay within the same bounds.
pub proof fn law_notes_keep_the_bounds(k: EnvView, s: CtxView)
    requires
        ready(s, reach(Room::whole())),
        !s.in_note,
    ensures
        kept(CtxView { note_refs: Seq::empty(), ..s }, CtxView {
            note_refs: Seq::empty(),
            ..tailed(k, s)
        }),
        within(s) ==> within(tailed(k, s)),
{
    broadcast use {lemma_kept_on, group_goes_on};

    let bare = CtxView { note_refs: Seq::empty(), ..s };
    if s.note_refs.len() == 0 {
        assert(s.note_refs =~= Seq::<NoteView>::empty());
        lemma_same(s);
    } else {
        let w = s.w.opened("div"@, attr_text("class"@, "of-fnotes"@));
        let inside = CtxView { w, note_refs: Seq::empty(), ..s };
        lemma_writing(bare, w);
        lemma_notes_tailed(k, inside, s.note_refs, s.w.used);
        let t = notes_tailed(k, inside, s.note_refs, s.w.used);
        lemma_writing(t, t.w.closed());
        let end = tailed(k, s);
        assert(kept(bare, end));
        reveal(kept);
    }
}

/// Whatever a text document holds, its preview is within the bytes that it may have; no
/// count is past its bound; every list that was entered was left; and what opening the
/// package noted is still noted.
pub proof fn law_a_text_document_stays_within_bounds(i: Input, cap: nat)
    ensures
        ({
            let s = doc_walked(i, cap);
            &&& s.w.cap == cap
            &&& s.w.used <= cap
            &&& within(s)
            &&& s.lists.stack.len() == 0
            &&& s.lists.over == 0
            &&& begins(i.notes, s.notes)
        }),
{
    broadcast use {lemma_kept_on, group_goes_on};

    let setup = setup_of(i);
    let k = doc_env(i);
    let notes = if setup.has_header || setup.has_footer {
        noted(i.notes, NOTE_HEADER@)
    } else {
        i.notes
    };
    let none = Written::fresh(cap);
    let s = CtxView::fresh(
        none.opened("div"@, attr_text("class"@, "of-page"@)),
        lists_of(i.styles, Some(i.root)),
        notes,
    );
    assert(goes_on(none, s.w));
    let end = doc_walked(i, cap);
    match text_body(i.root) {
        Some(b) => {
            let t = walked(k, s, b, Room::whole());
            lemma_walked(k, s, b, Room::whole());
            lemma_ready(s, t, reach(Room::whole()));
            assert(!t.in_note && within(t)) by {
                reveal(kept);
            }
            law_notes_keep_the_bounds(k, t);
            reveal(kept);
            assert(goes_on(s.w, end.w));
        },
        None => {
            lemma_noting(s, NOTE_BODY@);
            reveal(kept);
        },
    }
    reveal(goes_on);
}

} // verus!
