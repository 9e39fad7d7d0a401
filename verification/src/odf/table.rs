//! Tables.
//!
//! A cell holds blocks, so the walk is entered again for each. A span is stated by the
//! cell that opens it, and the cells that it covers are left out: HTML describes the same
//! geometry.

use vstd::prelude::*;
use plan::{
    cell_views, columns, grid_of, plan_of, row_views, Cell, CellView, Plan, Row, RowView, MAX_CELLS,
    MAX_DOC_CELLS,
};
use crate::cellstyle::{align_cell_css, align_css, align_inner_css, AlignSpec};
use crate::chars::{chars_of, decimal, push_all, push_text, push_u64};
use crate::html::{
    attr_text, class_text, decl, decl_if, no_attrs, opt_color, opt_px, pct_text, push_attr,
    push_class, push_pct, style_text, Style, Written,
};
use crate::markup::{are_attrs, is_name, is_void, lemma_attr_names, lemma_tags, plain};
use crate::model::{as_px, to_px};
use crate::odf::length::{clamp_px, clamped, push_px, px_text, Measure, Px, PERCENT};
use crate::odf::style::{CellProps, Edge, Family, RowProps, TableAlign, TableProps};
use crate::odf::text::{Ctx, CtxView, Env, EnvView, Room, DEPTHS};
use crate::odf::text::blocks::{walk, walked};
use crate::xml::{Element, Tree};

pub mod laws;
pub mod plan;

verus! {

pub const MAX_ROW_PX: Px = 762_000_000_000;

pub const MAX_TABLE_PX: Px = 1_560_576_000_000;

pub const NOTE_NESTED: &'static str = "Deeply nested table not shown";

/// A table that was stopped early.
pub const NOTE_CLIPPED: &'static str = "Large table cut short";

/// Tables that were left out whole.
pub const NOTE_DOC_CELLS: &'static str = "Later tables not shown";

// ── declarations ─────────────────────────────────────────────────────────────

pub open spec fn sum_px(v: Seq<Px>) -> int
    decreases v.len(),
{
    if v.len() == 0 {
        0
    } else {
        sum_px(v.drop_last()) + v.last()
    }
}

/// The width that columns come to, as near as a length can be.
pub open spec fn total_px(v: Seq<Px>) -> Px {
    as_px(sum_px(v))
}

fn total(v: &Vec<Px>) -> (r: Px)
    ensures
        r == total_px(v@),
{
    let mut n: i128 = 0;
    assert(v@.take(0) =~= Seq::<Px>::empty());
    for i in 0..v.len()
        invariant
            n == sum_px(v@.take(i as int)),
            -0x8000_0000_0000_0000 * i <= n <= 0x8000_0000_0000_0000 * i,
            v@.len() <= 0xffff_ffff_ffff_ffff,
    {
        assert(v@.take(i + 1).drop_last() =~= v@.take(i as int));
        n = n + v[i] as i128;
    }
    assert(v@.take(v@.len() as int) =~= v@);
    to_px(n)
}

/// The width of a table: the whole column between margins, or what it states, or else
/// what its columns come to.
pub open spec fn table_width(tp: TableProps, grid: Seq<Px>) -> Seq<char> {
    if tp.align == Some(TableAlign::Margins) {
        "100%"@
    } else {
        match tp.width {
            Some(Measure::Percent(v)) => pct_text(
                clamped(v as int, PERCENT as int, 100 * PERCENT) as i64,
            ),
            Some(Measure::Px(v)) => if v > 0 {
                px_text(
                    if v < MAX_TABLE_PX {
                        v
                    } else {
                        MAX_TABLE_PX
                    },
                )
            } else {
                grid_width(grid)
            },
            None => grid_width(grid),
        }
    }
}

pub open spec fn grid_width(grid: Seq<Px>) -> Seq<char> {
    if total_px(grid) > 0 {
        px_text(total_px(grid))
    } else {
        Seq::empty()
    }
}

pub open spec fn table_css(tp: TableProps, grid: Seq<Px>) -> Seq<char> {
    let center = tp.align == Some(TableAlign::Center);
    let right = tp.align == Some(TableAlign::Right);
    Seq::empty() + decl("width"@, table_width(tp, grid)) + decl_if(
        center || right,
        "margin-left"@,
        "auto"@,
    ) + decl_if(center, "margin-right"@, "auto"@) + (if !center && !right && tp.indent_px is Some
        && tp.indent_px->0 > 0 {
        decl("margin-left"@, px_text(tp.indent_px->0))
    } else {
        Seq::empty()
    })
}

fn push_grid_width(out: &mut Vec<char>, grid: &Vec<Px>)
    ensures
        final(out)@ == old(out)@ + grid_width(grid@),
{
    let sum: Px = total(grid);
    if sum > 0 {
        push_px(out, sum);
    } else {
        assert(out@ + grid_width(grid@) =~= out@);
    }
}

fn table_style(tp: &TableProps, grid: &Vec<Px>) -> (s: Style)
    ensures
        s.css@ == table_css(*tp, grid@),
{
    let mut s = Style::new();
    let mut width: Vec<char> = Vec::new();
    if tp.align == Some(TableAlign::Margins) {
        push_text(&mut width, "100%");
    } else {
        match tp.width {
            Some(Measure::Percent(v)) => push_pct(&mut width, clamp_px(v, PERCENT, 100 * PERCENT)),
            Some(Measure::Px(v)) => if v > 0 {
                push_px(
                    &mut width,
                    if v < MAX_TABLE_PX {
                        v
                    } else {
                        MAX_TABLE_PX
                    },
                );
            } else {
                push_grid_width(&mut width, grid);
            },
            None => push_grid_width(&mut width, grid),
        }
    }
    assert(width@ =~= table_width(*tp, grid@));
    let center: bool = tp.align == Some(TableAlign::Center);
    let right: bool = tp.align == Some(TableAlign::Right);
    s.push_chars("width", &width);
    s.push_if(center || right, "margin-left", "auto");
    s.push_if(center, "margin-right", "auto");
    if !center && !right {
        if let Some(v) = tp.indent_px {
            if v > 0 {
                s.push_px("margin-left", v);
            }
        }
    }
    assert(s.css@ =~= table_css(*tp, grid@));
    s
}

/// A border, where there is one. One that is switched off lets the neighbour's show.
pub open spec fn border_decl(name: Seq<char>, e: Option<Edge>) -> Seq<char> {
    match e {
        Some(Edge::Line(b)) => decl(name, b.css_text()),
        _ => Seq::empty(),
    }
}

pub fn push_border(s: &mut Style, name: &str, e: Option<Edge>)
    ensures
        final(s).css@ == old(s).css@ + border_decl(name@, e),
{
    match e {
        Some(Edge::Line(b)) => s.push_chars(name, &b.css()),
        _ => {
            assert(s.css@ + border_decl(name@, e) =~= s.css@);
        },
    }
}

pub open spec fn cell_align(cp: CellProps) -> AlignSpec {
    AlignSpec { vertical: cp.v_align, wrap: false, rotation: cp.rotation }
}

/// The declarations of a cell.
pub open spec fn cell_css(cp: CellProps) -> Seq<char> {
    Seq::empty() + border_decl("border-top"@, cp.borders.top) + border_decl(
        "border-right"@,
        cp.borders.right,
    ) + border_decl("border-bottom"@, cp.borders.bottom) + border_decl(
        "border-left"@,
        cp.borders.left,
    ) + opt_color("background-color"@, cp.background) + opt_px("padding-top"@, cp.padding.top)
        + opt_px("padding-right"@, cp.padding.right) + opt_px(
        "padding-bottom"@,
        cp.padding.bottom,
    ) + opt_px("padding-left"@, cp.padding.left) + decl_if(
        cp.wrap == Some(false),
        "white-space"@,
        "pre"@,
    ) + align_cell_css(cell_align(cp))
}

/// The declarations of a cell, and those of the box inside it that a rotation needs.
fn cell_style(cp: &CellProps) -> (r: (Style, Vec<char>))
    ensures
        r.0.css@ == cell_css(*cp),
        r.1@ == align_inner_css(cell_align(*cp)),
{
    let mut s = Style::new();
    push_border(&mut s, "border-top", cp.borders.top);
    push_border(&mut s, "border-right", cp.borders.right);
    push_border(&mut s, "border-bottom", cp.borders.bottom);
    push_border(&mut s, "border-left", cp.borders.left);
    s.push_opt_color("background-color", cp.background);
    s.push_opt_px("padding-top", cp.padding.top);
    s.push_opt_px("padding-right", cp.padding.right);
    s.push_opt_px("padding-bottom", cp.padding.bottom);
    s.push_opt_px("padding-left", cp.padding.left);
    s.push_if(cp.wrap == Some(false), "white-space", "pre");
    let (cell, inner): (Vec<char>, Vec<char>) = align_css(
        &AlignSpec { vertical: cp.v_align, wrap: false, rotation: cp.rotation },
    );
    push_all(&mut s.css, &cell);
    (s, inner)
}

/// A row states a height unless its content decides.
pub open spec fn row_css(rp: RowProps) -> Seq<char> {
    if rp.optimal != Some(true) && rp.height_px is Some && rp.height_px->0 > 0 {
        decl(
            "height"@,
            px_text(
                if rp.height_px->0 < MAX_ROW_PX {
                    rp.height_px->0
                } else {
                    MAX_ROW_PX
                },
            ),
        )
    } else {
        Seq::empty()
    }
}

fn row_style(rp: &RowProps) -> (s: Style)
    ensures
        s.css@ == row_css(*rp),
{
    let mut s = Style::new();
    if rp.optimal != Some(true) {
        if let Some(v) = rp.height_px {
            if v > 0 {
                s.push_px(
                    "height",
                    if v < MAX_ROW_PX {
                        v
                    } else {
                        MAX_ROW_PX
                    },
                );
            }
        }
    }
    assert(s.css@ =~= row_css(*rp));
    s
}

pub open spec fn span_attr(name: Seq<char>, n: usize) -> Seq<char> {
    if n > 1 {
        attr_text(name, decimal(n as nat))
    } else {
        Seq::empty()
    }
}

pub fn push_span(a: &mut Vec<char>, name: &str, n: usize)
    ensures
        final(a)@ == old(a)@ + span_attr(name@, n),
        are_attrs(old(a)@) && plain(name@) ==> are_attrs(final(a)@),
{
    if n > 1 {
        let mut v: Vec<char> = Vec::new();
        push_u64(&mut v, n as u64);
        assert(v@ =~= decimal(n as nat));
        push_attr(a, name, &v);
    } else {
        assert(a@ + span_attr(name@, n) =~= a@);
    }
}

pub open spec fn cell_attrs(k: EnvView, c: CellView, cp: CellProps) -> Seq<char> {
    Seq::empty() + class_text(k.classes.cell@) + span_attr("colspan"@, c.span) + span_attr(
        "rowspan"@,
        c.rowspan,
    ) + style_text(cell_css(cp))
}

// ── the walk ─────────────────────────────────────────────────────────────────

/// After a cell. Its first paragraph has no neighbour.
pub open spec fn cell_walked(k: EnvView, s: CtxView, c: CellView, room: Room) -> CtxView
    decreases room.boxes, room.tables, room.depth, 3int, 0int, 0int,
{
    let cp = k.styles.resolved(Family::TableCell, c.node.text_attr("style-name"@)).cell;
    let inner = align_inner_css(cell_align(cp));
    let w0 = s.w.opened("td"@, cell_attrs(k, c, cp));
    let w1 = if inner.len() > 0 {
        w0.opened("div"@, attr_text("style"@, inner))
    } else {
        w0
    };
    let t = walked(k, CtxView { w: w1, prev_style: None, ..s }, c.node, room);
    let w2 = if inner.len() > 0 {
        t.w.closed()
    } else {
        t.w
    };
    CtxView { w: w2.closed(), ..t }
}

pub open spec fn cells_walked(k: EnvView, s: CtxView, v: Seq<CellView>, room: Room) -> CtxView
    decreases room.boxes, room.tables, room.depth, 4int, v.len(), 0int,
{
    if v.len() == 0 || s.w.full {
        s
    } else {
        cells_walked(k, cell_walked(k, s, v[0], room), v.skip(1), room)
    }
}

pub open spec fn row_walked(k: EnvView, s: CtxView, r: RowView, room: Room) -> CtxView
    decreases room.boxes, room.tables, room.depth, 5int, 0int, 0int,
{
    let rp = k.styles.resolved(Family::TableRow, r.node.text_attr("style-name"@)).row;
    let t = cells_walked(
        k,
        CtxView { w: s.w.opened("tr"@, style_text(row_css(rp))), ..s },
        r.cells,
        room,
    );
    CtxView { w: t.w.closed(), ..t }
}

/// Opens the head before its first row, and closes it after its last.
pub open spec fn head_turned(w: Written, in_head: bool, header: bool) -> Written {
    if header == in_head {
        w
    } else if in_head {
        w.closed()
    } else {
        w.opened("thead"@, Seq::empty())
    }
}

/// After some rows, and whether the head is open then.
pub open spec fn rows_walked(
    k: EnvView,
    s: CtxView,
    v: Seq<RowView>,
    in_head: bool,
    room: Room,
) -> (CtxView, bool)
    decreases room.boxes, room.tables, room.depth, 6int, v.len(), 0int,
{
    if v.len() == 0 || s.w.full {
        (s, in_head)
    } else {
        rows_walked(
            k,
            row_walked(
                k,
                CtxView { w: head_turned(s.w, in_head, v[0].header), ..s },
                v[0],
                room,
            ),
            v.skip(1),
            v[0].header,
            room,
        )
    }
}

pub open spec fn cols_written(w: Written, grid: Seq<Px>) -> Written
    decreases grid.len(),
{
    if grid.len() == 0 {
        w
    } else {
        cols_written(w, grid.drop_last()).void(
            "col"@,
            style_text(decl("width"@, px_text(grid.last()))),
        )
    }
}

pub open spec fn grid_written(w: Written, grid: Seq<Px>) -> Written {
    if grid.len() == 0 {
        w
    } else {
        cols_written(w.opened("colgroup"@, Seq::empty()), grid).closed()
    }
}

/// The cells that the next table may have.
pub open spec fn cell_budget(s: CtxView) -> nat {
    if MAX_DOC_CELLS - s.cells < MAX_CELLS {
        (MAX_DOC_CELLS - s.cells) as nat
    } else {
        MAX_CELLS as nat
    }
}

/// After a table that is shown.
pub open spec fn table_drawn(
    k: EnvView,
    s: CtxView,
    tbl: Tree,
    tp: TableProps,
    room: Room,
) -> CtxView
    decreases room.boxes, room.tables, room.depth, 7int, 0int, 0int,
{
    let grid = grid_of(k.styles, tbl);
    let p = plan_of(tbl, cell_budget(s));
    if p.rows.len() == 0 {
        s
    } else {
        let s1 = CtxView { cells: (s.cells + (cell_budget(s) - p.left)) as usize, ..s };
        let s2 = if p.clipped {
            s1.noting(NOTE_CLIPPED@)
        } else {
            s1
        };
        let class = if grid.len() == 0 {
            k.classes.table_auto@
        } else {
            k.classes.table@
        };
        let w = grid_written(
            s2.w.opened("table"@, attr_text("class"@, class) + style_text(table_css(tp, grid))),
            grid,
        );
        let t = rows_walked(k, CtxView { w, ..s2 }, p.rows, false, room);
        let w1 = if t.1 {
            t.0.w.closed()
        } else {
            t.0.w
        };
        CtxView { w: w1.closed(), ..t.0 }
    }
}

/// After a table. A hidden one shows nothing.
pub open spec fn tabled(k: EnvView, s: CtxView, tbl: Tree, room: Room) -> CtxView
    decreases room.boxes, room.tables, 0int, 2int, 0int, 0int,
{
    if room.tables == 0 {
        s.noting(NOTE_NESTED@)
    } else if s.cells >= MAX_DOC_CELLS {
        s.noting(NOTE_DOC_CELLS@)
    } else {
        let tp = k.styles.resolved(Family::Table, tbl.text_attr("style-name"@)).table;
        if tp.display == Some(false) {
            s
        } else {
            table_drawn(k, s, tbl, tp, room.in_table())
        }
    }
}

fn emit_cell<'a>(k: &Env<'a>, ctx: &mut Ctx<'a>, c: &Cell<'a>, room: Room)
    ensures
        final(ctx)@ == cell_walked(k@, old(ctx)@, c@, room),
    decreases room.boxes, room.tables, room.depth, 3int, 0int, 0int,
{
    let cp: CellProps = k.styles.resolve(
        Family::TableCell,
        c.node.text_attr("style-name"),
    ).cell;
    let (s, inner): (Style, Vec<char>) = cell_style(&cp);
    let mut a: Vec<char> = no_attrs();
    push_class(&mut a, k.classes.cell);
    assert(plain("colspan"@) && plain("rowspan"@)) by {
        lemma_attr_names();
    }
    push_span(&mut a, "colspan", c.span);
    push_span(&mut a, "rowspan", c.rowspan);
    s.push_to(&mut a);
    assert(a@ == cell_attrs(k@, c@, cp));
    assert(is_name("td"@) && !is_void("td"@)) by {
        lemma_tags();
    }
    ctx.w.open("td", &a);
    let rotated: bool = inner.len() > 0;
    if rotated {
        let mut b: Vec<char> = no_attrs();
        assert(plain("style"@)) by {
            lemma_attr_names();
        }
        push_attr(&mut b, "style", &inner);
        assert(b@ =~= attr_text("style"@, inner@));
        assert(is_name("div"@) && !is_void("div"@)) by {
            lemma_tags();
        }
        ctx.w.open("div", &b);
    }
    ctx.prev_style = None;
    walk(k, ctx, c.node, room);
    if rotated {
        ctx.w.close();
    }
    ctx.w.close();
}

fn emit_cells<'a>(k: &Env<'a>, ctx: &mut Ctx<'a>, cells: &Vec<Cell<'a>>, room: Room)
    ensures
        final(ctx)@ == cells_walked(k@, old(ctx)@, cell_views(cells@), room),
    decreases room.boxes, room.tables, room.depth, 4int, cells@.len(), 0int,
{
    let ghost v = cell_views(cells@);
    let ghost goal = cells_walked(k@, ctx@, v, room);
    assert(v.skip(0) =~= v);
    let mut i: usize = 0;
    while i < cells.len() && !ctx.w.is_full()
        invariant
            i <= cells@.len(),
            v == cell_views(cells@),
            cells_walked(k@, ctx@, v.skip(i as int), room) == goal,
        decreases cells@.len() - i,
    {
        assert(v.skip(i as int)[0] == cells@[i as int]@);
        assert(v.skip(i as int).skip(1) =~= v.skip(i + 1));
        emit_cell(k, ctx, &cells[i], room);
        i = i + 1;
    }
}

fn emit_row<'a>(k: &Env<'a>, ctx: &mut Ctx<'a>, r: &Row<'a>, room: Room)
    ensures
        final(ctx)@ == row_walked(k@, old(ctx)@, r@, room),
    decreases room.boxes, room.tables, room.depth, 5int, 0int, 0int,
{
    let rp: RowProps = k.styles.resolve(Family::TableRow, r.node.text_attr("style-name")).row;
    let s: Style = row_style(&rp);
    let mut a: Vec<char> = no_attrs();
    s.push_to(&mut a);
    assert(a@ =~= style_text(row_css(rp)));
    assert(is_name("tr"@) && !is_void("tr"@)) by {
        lemma_tags();
    }
    ctx.w.open("tr", &a);
    emit_cells(k, ctx, &r.cells, room);
    ctx.w.close();
}

fn emit_rows<'a>(k: &Env<'a>, ctx: &mut Ctx<'a>, rows: &Vec<Row<'a>>, room: Room) -> (r: bool)
    ensures
        (final(ctx)@, r) == rows_walked(k@, old(ctx)@, row_views(rows@), false, room),
    decreases room.boxes, room.tables, room.depth, 6int, rows@.len(), 0int,
{
    let ghost v = row_views(rows@);
    let ghost goal = rows_walked(k@, ctx@, v, false, room);
    assert(v.skip(0) =~= v);
    let mut in_head: bool = false;
    let mut i: usize = 0;
    while i < rows.len() && !ctx.w.is_full()
        invariant
            i <= rows@.len(),
            v == row_views(rows@),
            rows_walked(k@, ctx@, v.skip(i as int), in_head, room) == goal,
        decreases rows@.len() - i,
    {
        assert(v.skip(i as int)[0] == rows@[i as int]@);
        assert(v.skip(i as int).skip(1) =~= v.skip(i + 1));
        let header: bool = rows[i].header;
        if header != in_head {
            if in_head {
                ctx.w.close();
            } else {
                let none: Vec<char> = no_attrs();
                assert(is_name("thead"@) && !is_void("thead"@)) by {
                    lemma_tags();
                }
                ctx.w.open("thead", &none);
            }
        }
        emit_row(k, ctx, &rows[i], room);
        in_head = header;
        i = i + 1;
    }
    in_head
}

fn emit_grid<'a>(ctx: &mut Ctx<'a>, grid: &Vec<Px>)
    ensures
        final(ctx)@ == (CtxView { w: grid_written(old(ctx)@.w, grid@), ..old(ctx)@ }),
{
    if grid.len() == 0 {
        return;
    }
    let none: Vec<char> = no_attrs();
    assert(is_name("colgroup"@) && !is_void("colgroup"@)) by {
        lemma_tags();
    }
    ctx.w.open("colgroup", &none);
    let ghost start = ctx@;
    assert(grid@.take(0) =~= Seq::<Px>::empty());
    for i in 0..grid.len()
        invariant
            ctx@ == (CtxView { w: cols_written(start.w, grid@.take(i as int)), ..start }),
    {
        assert(grid@.take(i + 1).drop_last() =~= grid@.take(i as int));
        let mut s = Style::new();
        s.push_px("width", grid[i]);
        assert(s.css@ =~= decl("width"@, px_text(grid@[i as int])));
        let mut a: Vec<char> = no_attrs();
        s.push_to(&mut a);
        assert(a@ =~= style_text(s.css@));
        assert(is_name("col"@) && is_void("col"@)) by {
            lemma_tags();
        }
        ctx.w.void("col", &a);
    }
    assert(grid@.take(grid@.len() as int) =~= grid@);
    ctx.w.close();
}

fn draw_table<'a>(
    k: &Env<'a>,
    ctx: &mut Ctx<'a>,
    tbl: &'a Element,
    tp: &TableProps,
    room: Room,
)
    requires
        old(ctx).cells < MAX_DOC_CELLS,
    ensures
        final(ctx)@ == table_drawn(k@, old(ctx)@, tbl@, *tp, room),
    decreases room.boxes, room.tables, room.depth, 7int, 0int, 0int,
{
    let left: usize = MAX_DOC_CELLS - ctx.cells;
    let budget: usize = if left < MAX_CELLS {
        left
    } else {
        MAX_CELLS
    };
    let grid: Vec<Px> = columns(k.styles, tbl);
    let p: Plan<'a> = plan::plan(tbl, budget);
    assert(p@.rows.len() == p.rows@.len());
    if p.rows.len() == 0 {
        return;
    }
    ctx.cells = ctx.cells + (budget - p.left);
    if p.clipped {
        ctx.note(NOTE_CLIPPED);
    }
    let class: &'static str = if grid.len() == 0 {
        k.classes.table_auto
    } else {
        k.classes.table
    };
    let s: Style = table_style(tp, &grid);
    let mut a: Vec<char> = no_attrs();
    assert(plain("class"@)) by {
        lemma_attr_names();
    }
    push_attr(&mut a, "class", &chars_of(class));
    s.push_to(&mut a);
    assert(a@ =~= attr_text("class"@, class@) + style_text(table_css(*tp, grid@)));
    assert(is_name("table"@) && !is_void("table"@)) by {
        lemma_tags();
    }
    ctx.w.open("table", &a);
    emit_grid(ctx, &grid);
    let in_head: bool = emit_rows(k, ctx, &p.rows, room);
    if in_head {
        ctx.w.close();
    }
    ctx.w.close();
}

/// Writes a table.
#[verifier::rlimit(40)]
pub fn emit_table<'a>(k: &Env<'a>, ctx: &mut Ctx<'a>, tbl: &'a Element, room: Room)
    ensures
        final(ctx)@ == tabled(k@, old(ctx)@, tbl@, room),
    decreases room.boxes, room.tables, 0int, 2int, 0int, 0int,
{
    if room.tables == 0 {
        ctx.note(NOTE_NESTED);
        return;
    }
    if ctx.cells >= MAX_DOC_CELLS {
        ctx.note(NOTE_DOC_CELLS);
        return;
    }
    let tp: TableProps = k.styles.resolve(Family::Table, tbl.text_attr("style-name")).table;
    if tp.display == Some(false) {
        return;
    }
    let inside = Room { boxes: room.boxes, tables: room.tables - 1, depth: DEPTHS };
    draw_table(k, ctx, tbl, &tp, inside);
}

} // verus!
