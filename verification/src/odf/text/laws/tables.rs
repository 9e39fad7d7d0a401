//! What the cells of a table say can be read.

use vstd::prelude::*;
use crate::cellstyle::align_inner_css;
use crate::html::{attr_text, goes_on, group_goes_on, lemma_stays, style_text, Written};
use crate::model::words::lemma_still_holds;
use crate::odf::style::Family;
use crate::odf::table::plan::{grid_of, plan_of, CellView, RowView, MAX_DOC_CELLS};
use crate::odf::table::{
    cell_align, cell_attrs, cell_budget, cell_walked, cells_walked, grid_written, head_turned,
    row_css, row_walked, rows_walked, table_css, table_drawn, tabled, NOTE_CLIPPED,
};
use crate::odf::text::blocks::walked;
use crate::odf::text::laws::words::{
    any_bears, law_what_is_said_can_be_read, most_runs, readable, says,
};
use crate::odf::text::laws::{
    kept, lemma_cell, lemma_cells, lemma_kept_on, lemma_ready, lemma_row, lemma_rows, lemma_walked,
    lemma_writing, reach, ready,
};
use crate::odf::text::{CtxView, EnvView, Room, DEPTHS, MAX_PARAS, MAX_RUNS};
use crate::xml::Tree;

verus! {

proof fn lemma_still_readable(a: Written, b: Written, t: Seq<char>, terms: Seq<Seq<char>>)
    requires
        goes_on(a, b),
        readable(a.text, t, terms),
    ensures
        readable(b.text, t, terms),
{
    let n = choose|n: u64|
        crate::model::words::holds(a.text, (#[trigger] crate::highlight::marked(t, terms, n)).0);
    lemma_still_holds(a, b, crate::highlight::marked(t, terms, n).0);
}

/// A paragraph of a cell has a text to read.
pub open spec fn cell_says(c: CellView, p: Tree, t: Seq<char>, room: Room) -> bool {
    &&& room.depth > 0
    &&& any_bears(c.node.elems(), p, (room.depth - 1) as nat)
    &&& says(p, t, DEPTHS as nat)
    &&& most_runs(p.children, (DEPTHS - 1) as nat) <= MAX_RUNS
}

proof fn lemma_cell_reads(
    k: EnvView,
    s: CtxView,
    c: CellView,
    room: Room,
    p: Tree,
    t: Seq<char>,
)
    requires
        ready(s, reach(room)),
        cell_says(c, p, t, room),
        !cell_walked(k, s, c, room).w.full,
        cell_walked(k, s, c, room).paras < MAX_PARAS,
    ensures
        readable(cell_walked(k, s, c, room).w.text, t, k.terms),
{
    broadcast use {lemma_kept_on, group_goes_on};

    let cp = k.styles.resolved(Family::TableCell, c.node.text_attr("style-name"@)).cell;
    let inner = align_inner_css(cell_align(cp));
    let w0 = s.w.opened("td"@, cell_attrs(k, c, cp));
    let w1 = if inner.len() > 0 {
        w0.opened("div"@, attr_text("style"@, inner))
    } else {
        w0
    };
    let inside = CtxView { w: w1, prev_style: None, ..s };
    lemma_stays(w0);
    assert(goes_on(s.w, w1));
    assert(kept(s, inside)) by {
        reveal(kept);
    }
    lemma_ready(s, inside, reach(room));
    let u = walked(k, inside, c.node, room);
    lemma_walked(k, inside, c.node, room);
    let end = cell_walked(k, s, c, room);
    lemma_stays(u.w);
    assert(goes_on(u.w, end.w));
    assert(!u.w.full) by {
        reveal(goes_on);
    }
    law_what_is_said_can_be_read(k, inside, c.node, p, room, t);
    lemma_still_readable(u.w, end.w, t, k.terms);
}

proof fn lemma_cells_read(
    k: EnvView,
    s: CtxView,
    v: Seq<CellView>,
    room: Room,
    j: int,
    p: Tree,
    t: Seq<char>,
)
    requires
        ready(s, reach(room)),
        0 <= j < v.len(),
        cell_says(v[j], p, t, room),
        !cells_walked(k, s, v, room).w.full,
        cells_walked(k, s, v, room).paras < MAX_PARAS,
    ensures
        readable(cells_walked(k, s, v, room).w.text, t, k.terms),
    decreases v.len(),
{
    let next = cell_walked(k, s, v[0], room);
    let end = cells_walked(k, s, v, room);
    assert(!s.w.full);
    lemma_cell(k, s, v[0], room);
    lemma_ready(s, next, reach(room));
    lemma_cells(k, next, v.skip(1), room);
    assert(kept(next, end));
    assert(goes_on(next.w, end.w) && next.paras <= end.paras) by {
        reveal(kept);
    }
    assert(!next.w.full) by {
        reveal(goes_on);
    }
    if j == 0 {
        lemma_cell_reads(k, s, v[0], room, p, t);
        lemma_still_readable(next.w, end.w, t, k.terms);
    } else {
        assert(v.skip(1)[j - 1] == v[j]);
        lemma_cells_read(k, next, v.skip(1), room, j - 1, p, t);
    }
}

proof fn lemma_rows_read(
    k: EnvView,
    s: CtxView,
    v: Seq<RowView>,
    in_head: bool,
    room: Room,
    i: int,
    j: int,
    p: Tree,
    t: Seq<char>,
)
    requires
        ready(s, reach(room)),
        0 <= i < v.len(),
        0 <= j < v[i].cells.len(),
        cell_says(v[i].cells[j], p, t, room),
        !rows_walked(k, s, v, in_head, room).0.w.full,
        rows_walked(k, s, v, in_head, room).0.paras < MAX_PARAS,
    ensures
        readable(rows_walked(k, s, v, in_head, room).0.w.text, t, k.terms),
    decreases v.len(),
{
    broadcast use {lemma_kept_on, group_goes_on};

    assert(!s.w.full);
    let w = head_turned(s.w, in_head, v[0].header);
    lemma_stays(s.w);
    let turned = CtxView { w, ..s };
    lemma_writing(s, w);
    lemma_ready(s, turned, reach(room));
    let next = row_walked(k, turned, v[0], room);
    lemma_row(k, turned, v[0], room);
    lemma_ready(turned, next, reach(room));
    lemma_rows(k, next, v.skip(1), v[0].header, room);
    let end = rows_walked(k, s, v, in_head, room).0;
    assert(kept(next, end));
    assert(goes_on(next.w, end.w) && next.paras <= end.paras) by {
        reveal(kept);
    }
    assert(!next.w.full) by {
        reveal(goes_on);
    }
    if i == 0 {
        let rp = k.styles.resolved(Family::TableRow, v[0].node.text_attr("style-name"@)).row;
        let o = turned.w.opened("tr"@, style_text(row_css(rp)));
        let inside = CtxView { w: o, ..turned };
        lemma_writing(turned, o);
        lemma_ready(turned, inside, reach(room));
        let u = cells_walked(k, inside, v[0].cells, room);
        assert(next.w == u.w.closed() && next.paras == u.paras);
        assert(goes_on(u.w, next.w));
        assert(!u.w.full) by {
            reveal(goes_on);
        }
        lemma_cells_read(k, inside, v[0].cells, room, j, p, t);
        lemma_still_readable(u.w, end.w, t, k.terms);
    } else {
        assert(v.skip(1)[i - 1] == v[i]);
        lemma_rows_read(k, next, v.skip(1), v[0].header, room, i - 1, j, p, t);
    }
}

/// The text of every paragraph in every cell of a table can be read, wherever in sections
/// and lists of the cell it stands, unless the table is hidden or nested too deep, or a
/// bound is reached.
pub proof fn law_a_table_says_what_its_cells_say(
    k: EnvView,
    s: CtxView,
    tbl: Tree,
    room: Room,
    i: int,
    j: int,
    p: Tree,
    t: Seq<char>,
)
    requires
        ready(s, reach(room)),
        room.tables > 0,
        s.cells < MAX_DOC_CELLS,
        k.styles.resolved(Family::Table, tbl.text_attr("style-name"@)).table.display != Some(false),
        0 <= i < plan_of(tbl, cell_budget(s)).rows.len(),
        0 <= j < plan_of(tbl, cell_budget(s)).rows[i].cells.len(),
        cell_says(plan_of(tbl, cell_budget(s)).rows[i].cells[j], p, t, room.in_table()),
        !tabled(k, s, tbl, room).w.full,
        tabled(k, s, tbl, room).paras < MAX_PARAS,
    ensures
        readable(tabled(k, s, tbl, room).w.text, t, k.terms),
{
    broadcast use {lemma_kept_on, group_goes_on};

    let tp = k.styles.resolved(Family::Table, tbl.text_attr("style-name"@)).table;
    let inner = room.in_table();
    let grid = grid_of(k.styles, tbl);
    let plan = plan_of(tbl, cell_budget(s));
    let s1 = CtxView { cells: (s.cells + (cell_budget(s) - plan.left)) as usize, ..s };
    let s2 = if plan.clipped {
        s1.noting(NOTE_CLIPPED@)
    } else {
        s1
    };
    let class = if grid.len() == 0 {
        k.classes.table_auto@
    } else {
        k.classes.table@
    };
    let o = s2.w.opened("table"@, attr_text("class"@, class) + style_text(table_css(tp, grid)));
    let w = grid_written(o, grid);
    let inside = CtxView { w, ..s2 };
    assert(ready(inside, reach(inner)));
    let u = rows_walked(k, inside, plan.rows, false, inner);
    let end = tabled(k, s, tbl, room);
    assert(end == table_drawn(k, s, tbl, tp, inner));
    let w1 = if u.1 {
        u.0.w.closed()
    } else {
        u.0.w
    };
    assert(end.w == w1.closed() && end.paras == u.0.paras);
    lemma_stays(u.0.w);
    assert(goes_on(u.0.w, end.w));
    assert(!u.0.w.full) by {
        reveal(goes_on);
    }
    lemma_rows_read(k, inside, plan.rows, false, inner, i, j, p, t);
    lemma_still_readable(u.0.w, end.w, t, k.terms);
}

} // verus!
