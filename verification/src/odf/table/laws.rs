//! What a table shows: its rows and cells, and how they look.

use vstd::prelude::*;
use crate::chars::decimal;
use crate::html::{attr_text, begins, decl, pct_text, Written};
use crate::model::looks::{lemma_itself, lemma_part};
use crate::model::words::holds;
use crate::odf::length::{px_text, Px, PERCENT};
use crate::odf::style::{CellProps, RowProps, TableAlign, TableProps};
use crate::odf::table::plan::{
    count_of, filled_one, plan_each, plan_one, rows_each, rows_one, with_copies, CellView, Filling,
    PlanView, RowsView, MAX_COLS, MAX_ROWS,
};
use crate::odf::table::{cell_css, head_turned, row_css, span_attr, sum_px, table_css, table_width};
use crate::xml::Tree;

verus! {

proof fn lemma_copies<T>(v: Seq<T>, x: T, n: nat)
    ensures
        with_copies(v, x, n).len() == v.len() + n,
        begins(v, with_copies(v, x, n)),
        forall|k: int| v.len() <= k < v.len() + n ==> #[trigger] with_copies(v, x, n)[k] == x,
    decreases n,
{
    if n > 0 {
        lemma_copies(v, x, (n - 1) as nat);
    }
}

// ── rows and cells ───────────────────────────────────────────────────────────

/// A row stands as often as it states, behind the rows before it. It is a row of the head
/// where it stands in the head, and only there.
pub proof fn law_rows_of_a_table(acc: RowsView, n: Tree, header: bool, below: nat, k: int)
    requires
        acc.rows.len() < MAX_ROWS,
        n.name == "table-row"@,
    ensures
        ({
            let t = rows_one(acc, n, header, below).rows;
            let often = match n.attr_u32("number-rows-repeated"@) {
                Some(v) => if v < 1 {
                    1int
                } else {
                    v as int
                },
                None => 1,
            };
            &&& t.len() == (if acc.rows.len() + often < 1000 {
                acc.rows.len() + often
            } else {
                1000
            })
            &&& 0 <= k < acc.rows.len() ==> t[k] == acc.rows[k]
            &&& acc.rows.len() <= k < t.len() ==> t[k] == (n, header)
        }),
{
    let often = count_of(n, "number-rows-repeated"@, MAX_ROWS) as int;
    lemma_copies(
        acc.rows,
        (n, header),
        (if often < MAX_ROWS - acc.rows.len() {
            often
        } else {
            MAX_ROWS - acc.rows.len()
        }) as nat,
    );
}

/// The rows inside a head are rows of the head, and those inside a body or a group are
/// what the rows beside it are.
pub proof fn law_heads_and_bodies(acc: RowsView, n: Tree, header: bool, below: nat)
    requires
        below > 0,
    ensures
        n.name == "table-header-rows"@ ==> rows_one(acc, n, header, below) == rows_each(
            acc,
            n.elems(),
            true,
            (below - 1) as nat,
        ),
        n.name == "table-rows"@ || n.name == "table-row-group"@ ==> rows_one(acc, n, header, below)
            == rows_each(acc, n.elems(), header, (below - 1) as nat),
        n.name != "table-row"@ && n.name != "table-header-rows"@ && n.name != "table-rows"@
            && n.name
            != "table-row-group"@ ==> rows_one(acc, n, header, below) == acc,
{
    reveal_strlit("table-row");
    reveal_strlit("table-rows");
    reveal_strlit("table-header-rows");
    reveal_strlit("table-row-group");
    assert("table-row"@.len() == 9 && "table-rows"@.len() == 10 && "table-header-rows"@.len() == 17
        && "table-row-group"@.len() == 15);
}

/// A cell stands as often as it states, each time with the rows and the columns that it
/// spans, as long as the row has columns and the table cells for it.
pub proof fn law_cells_of_a_row(f: Filling, tc: Tree, k: int)
    requires
        tc.name == "table-cell"@,
        f.cols < 64,
        f.left > 0,
    ensures
        ({
            let t = filled_one(f, tc);
            let span = match tc.attr_u32("number-columns-spanned"@) {
                Some(v) => if v < 1 {
                    1int
                } else {
                    v as int
                },
                None => 1,
            };
            let often = match tc.attr_u32("number-columns-repeated"@) {
                Some(v) => if v < 1 {
                    1int
                } else {
                    v as int
                },
                None => 1,
            };
            let down = match tc.attr_u32("number-rows-spanned"@) {
                Some(v) => if v < 1 {
                    1int
                } else {
                    v as int
                },
                None => 1,
            };
            &&& 0 <= k < f.cells.len() ==> k < t.cells.len() && t.cells[k] == f.cells[k]
            &&& f.cols + span * often <= 64 && often <= f.left && down <= 1000 ==> {
                &&& t.cells.len() == f.cells.len() + often
                &&& t.cols == f.cols + span * often
                &&& t.left == f.left - often
                &&& f.cells.len() <= k < t.cells.len() ==> t.cells[k].node == tc && t.cells[k].span
                    == span && t.cells[k].rowspan == down
            }
        }),
{
    reveal_strlit("table-cell");
    reveal_strlit("covered-table-cell");
    assert("table-cell"@.len() != "covered-table-cell"@.len());
    let s = crate::odf::table::plan::span_of(f, tc);
    let r = crate::odf::table::plan::reps_of(f, tc, s);
    assert(r >= 0) by {
        assert((MAX_COLS - f.cols) / s >= 0) by (nonlinear_arith)
            requires
                s >= 1,
                f.cols < MAX_COLS,
        ;
    }
    lemma_copies(
        f.cells,
        CellView {
            node: tc,
            span: s as usize,
            rowspan: count_of(tc, "number-rows-spanned"@, MAX_ROWS),
        },
        r as nat,
    );
    let span = match tc.attr_u32("number-columns-spanned"@) {
        Some(v) => if v < 1 {
            1int
        } else {
            v as int
        },
        None => 1,
    };
    let often = match tc.attr_u32("number-columns-repeated"@) {
        Some(v) => if v < 1 {
            1int
        } else {
            v as int
        },
        None => 1,
    };
    if f.cols + span * often <= 64 && often <= f.left {
        assert(span <= 64 - f.cols && often <= 64) by (nonlinear_arith)
            requires
                f.cols + span * often <= 64,
                span >= 1,
                often >= 1,
                f.cols >= 0,
        ;
        assert(s == span);
        assert(often <= (64 - f.cols) / span) by (nonlinear_arith)
            requires
                f.cols + span * often <= 64,
                span >= 1,
        ;
        assert(r == often);
        assert(often * span == span * often) by (nonlinear_arith);
    }
}

/// A table has a row for each of its rows, in their order, as long as it may have cells.
pub proof fn law_rows_are_planned_in_order(p: PlanView, v: Seq<(Tree, bool)>, k: int)
    ensures
        begins(p.rows, plan_each(p, v).rows),
        plan_each(p, v).left > 0 && 0 <= k < v.len() ==> ({
            let rows = plan_each(p, v).rows;
            &&& rows.len() == p.rows.len() + v.len()
            &&& rows[p.rows.len() + k].node == v[k].0
            &&& rows[p.rows.len() + k].header == v[k].1
        }),
    decreases v.len(),
{
    if v.len() > 0 && p.left > 0 {
        let next = plan_one(p, v[0]);
        law_rows_are_planned_in_order(next, v.skip(1), k - 1);
        let rows = plan_each(p, v).rows;
        assert forall|i: int| 0 <= i < p.rows.len() implies #[trigger] rows[i] == p.rows[i] by {
            assert(next.rows[i] == p.rows[i]);
        }
        if plan_each(p, v).left > 0 {
            if v.len() > 1 {
                law_rows_are_planned_in_order(next, v.skip(1), 0);
            } else {
                assert(plan_each(next, v.skip(1)) == next);
            }
            if k == 0 {
                assert(rows[p.rows.len() as int] == next.rows[p.rows.len() as int]);
            } else if 0 < k < v.len() {
                assert(v.skip(1)[k - 1] == v[k]);
                assert(next.rows.len() + (k - 1) == p.rows.len() + k);
            }
        }
    }
}

/// The head is opened before its first row and closed behind its last, and nowhere else.
pub proof fn law_heads_open_and_close(w: Written)
    ensures
        head_turned(w, false, true) == w.opened("thead"@, Seq::empty()),
        head_turned(w, true, false) == w.closed(),
        head_turned(w, true, true) == w,
        head_turned(w, false, false) == w,
{
}

// ── looks ────────────────────────────────────────────────────────────────────

/// How wide a table is and where it stands: across the whole column where it keeps to the
/// margins; else as wide as it states, or as its columns come to; in the middle, on the
/// right, or as far in as it states.
pub proof fn law_where_a_table_stands(tp: TableProps, grid: Seq<Px>)
    ensures
        ({
            let css = table_css(tp, grid);
            &&& tp.align == Some(TableAlign::Margins) ==> table_width(tp, grid) == "100%"@
            &&& tp.align != Some(TableAlign::Margins) && tp.width is Some && tp.width->0 is Percent
                && PERCENT <= tp.width->0->Percent_0 <= 100 * PERCENT ==> table_width(tp, grid)
                == pct_text(tp.width->0->Percent_0)
            &&& tp.align != Some(TableAlign::Margins) && tp.width is Some && tp.width->0 is Px && 0
                < tp.width->0->Px_0 <= crate::odf::table::MAX_TABLE_PX ==> table_width(tp, grid)
                == px_text(tp.width->0->Px_0)
            &&& tp.align != Some(TableAlign::Margins) && tp.width is None && 0 < sum_px(grid)
                <= i64::MAX ==> table_width(tp, grid) == px_text(sum_px(grid) as i64)
            &&& holds(css, decl("width"@, table_width(tp, grid)))
            &&& tp.align == Some(TableAlign::Center) ==> holds(css, "margin-left:auto;"@) && holds(
                css,
                "margin-right:auto;"@,
            )
            &&& tp.align == Some(TableAlign::Right) ==> holds(css, "margin-left:auto;"@)
            &&& tp.align == Some(TableAlign::Left) && tp.indent_px is Some && tp.indent_px->0 > 0
                ==> holds(css, decl("margin-left"@, px_text(tp.indent_px->0)))
        }),
{
    broadcast use {lemma_part, lemma_itself};

    reveal_strlit("margin-left:auto;");
    reveal_strlit("margin-right:auto;");
    reveal_strlit("margin-left");
    reveal_strlit("margin-right");
    reveal_strlit("auto");
    assert(decl("margin-left"@, "auto"@) =~= "margin-left:auto;"@);
    assert(decl("margin-right"@, "auto"@) =~= "margin-right:auto;"@);
}

/// The columns of a table come to the sum of their widths.
pub proof fn law_columns_add_up(v: Seq<Px>, w: Px)
    ensures
        sum_px(v.push(w)) == sum_px(v) + w,
        sum_px(Seq::<Px>::empty()) == 0,
{
    assert(v.push(w).drop_last() =~= v);
}

/// Each side of a cell has its own border and its own gap; a cell states its shade, and
/// one that does not wrap keeps its line.
pub proof fn law_looks_of_a_cell(cp: CellProps)
    ensures
        ({
            let css = cell_css(cp);
            let b = cp.borders;
            let p = cp.padding;
            &&& b.top is Some && b.top->0 is Line ==> holds(
                css,
                decl("border-top"@, b.top->0->Line_0.css_text()),
            )
            &&& b.right is Some && b.right->0 is Line ==> holds(
                css,
                decl("border-right"@, b.right->0->Line_0.css_text()),
            )
            &&& b.bottom is Some && b.bottom->0 is Line ==> holds(
                css,
                decl("border-bottom"@, b.bottom->0->Line_0.css_text()),
            )
            &&& b.left is Some && b.left->0 is Line ==> holds(
                css,
                decl("border-left"@, b.left->0->Line_0.css_text()),
            )
            &&& cp.background is Some ==> holds(
                css,
                decl("background-color"@, cp.background->0.css_text()),
            )
            &&& p.top is Some ==> holds(css, decl("padding-top"@, px_text(p.top->0)))
            &&& p.right is Some ==> holds(css, decl("padding-right"@, px_text(p.right->0)))
            &&& p.bottom is Some ==> holds(css, decl("padding-bottom"@, px_text(p.bottom->0)))
            &&& p.left is Some ==> holds(css, decl("padding-left"@, px_text(p.left->0)))
            &&& cp.wrap == Some(false) ==> holds(css, decl("white-space"@, "pre"@))
        }),
{
    broadcast use {lemma_part, lemma_itself};

}

/// A row is as tall as it states, unless its content decides.
pub proof fn law_heights_of_rows(rp: RowProps)
    ensures
        rp.optimal == Some(true) ==> row_css(rp).len() == 0,
        rp.height_px is None ==> row_css(rp).len() == 0,
        rp.optimal != Some(true) && rp.height_px is Some && 0 < rp.height_px->0
            <= crate::odf::table::MAX_ROW_PX ==> row_css(rp) == decl(
            "height"@,
            px_text(rp.height_px->0),
        ),
{
}

/// A span of more than one is stated, and one of one is not.
pub proof fn law_spans_are_stated(name: Seq<char>, n: usize)
    ensures
        n <= 1 ==> span_attr(name, n).len() == 0,
        n > 1 ==> span_attr(name, n) == attr_text(name, decimal(n as nat)),
{
}

} // verus!
