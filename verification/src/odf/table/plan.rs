//! Reading a table before any of it is written: its rows, its cells, its columns.
//!
//! A document states how often a row, a cell or a column is repeated, and each count is
//! expanded under a cap.

use vstd::prelude::*;
use crate::odf::length::{clamp_px, clamped, Px};
use crate::odf::style::{Family, Styles};
use crate::odf::style::store::Store;
use crate::xml::{trees, Element, Tree};

verus! {

/// Rows per table.
pub const MAX_ROWS: usize = 1000;

/// Cells per table.
pub const MAX_CELLS: usize = 8000;

/// Cells of all the tables of a document.
pub const MAX_DOC_CELLS: usize = 40_000;

pub const MAX_COLS: usize = 64;

/// How deep rows and columns may be grouped, plus one.
pub const GROUPS: usize = 9;

pub const MAX_COL_PX: Px = 762_000_000_000;

/// A count that an attribute states: one at least, and `max` at most.
pub open spec fn count_of(e: Tree, attr: Seq<char>, max: usize) -> usize {
    match e.attr_u32(attr) {
        Some(v) => if v < 1 {
            1
        } else if v > max {
            max
        } else {
            v as usize
        },
        None => 1,
    }
}

pub fn count(e: &Element, attr: &str, max: usize) -> (r: usize)
    requires
        max <= u32::MAX,
    ensures
        r == count_of(e@, attr@, max),
{
    match e.attr_u32(attr) {
        Some(v) => if v < 1 {
            1
        } else if v > max as u32 {
            max
        } else {
            v as usize
        },
        None => 1,
    }
}

pub open spec fn least(a: int, b: int) -> int {
    if a < b {
        a
    } else {
        b
    }
}

fn smaller(a: usize, b: usize) -> (r: usize)
    ensures
        r == least(a as int, b as int),
{
    if a < b {
        a
    } else {
        b
    }
}

/// A sequence with `n` copies of a value after it.
pub open spec fn with_copies<T>(v: Seq<T>, x: T, n: nat) -> Seq<T>
    decreases n,
{
    if n == 0 {
        v
    } else {
        with_copies(v, x, (n - 1) as nat).push(x)
    }
}

pub proof fn lemma_copies_len<T>(v: Seq<T>, x: T, n: nat)
    ensures
        with_copies(v, x, n).len() == v.len() + n,
    decreases n,
{
    if n > 0 {
        lemma_copies_len(v, x, (n - 1) as nat);
    }
}

// ── rows ─────────────────────────────────────────────────────────────────────

/// A row, and whether it is one of the head.
#[derive(Clone, Copy, Debug)]
pub struct RowAt<'d> {
    pub node: &'d Element,
    pub header: bool,
}

impl<'d> View for RowAt<'d> {
    type V = (Tree, bool);

    open spec fn view(&self) -> (Tree, bool) {
        (self.node@, self.header)
    }
}

pub open spec fn row_ats(v: Seq<RowAt>) -> Seq<(Tree, bool)> {
    v.map_values(|r: RowAt| r@)
}

/// The rows found so far.
#[verifier::ext_equal]
pub struct RowsView {
    pub rows: Seq<(Tree, bool)>,
    /// There are more than were kept.
    pub clipped: bool,
}

#[derive(Debug)]
pub struct Rows<'d> {
    pub rows: Vec<RowAt<'d>>,
    pub clipped: bool,
}

impl<'d> View for Rows<'d> {
    type V = RowsView;

    open spec fn view(&self) -> RowsView {
        RowsView { rows: row_ats(self.rows@), clipped: self.clipped }
    }
}

/// The rows of an element, in document order, through what groups them.
pub open spec fn rows_in(acc: RowsView, e: Tree, header: bool, room: nat) -> RowsView
    decreases room, 0int, 0int,
{
    if room == 0 {
        acc
    } else {
        rows_each(acc, e.elems(), header, (room - 1) as nat)
    }
}

pub open spec fn rows_each(acc: RowsView, v: Seq<Tree>, header: bool, below: nat) -> RowsView
    decreases below, 2int, v.len(),
{
    if v.len() == 0 {
        acc
    } else if acc.rows.len() >= MAX_ROWS {
        RowsView { clipped: true, ..acc }
    } else {
        rows_each(rows_one(acc, v[0], header, below), v.skip(1), header, below)
    }
}

pub open spec fn rows_one(acc: RowsView, n: Tree, header: bool, below: nat) -> RowsView
    decreases below, 1int, 0int,
{
    if n.name == "table-row"@ {
        RowsView {
            rows: with_copies(
                acc.rows,
                (n, header),
                least(
                    count_of(n, "number-rows-repeated"@, MAX_ROWS) as int,
                    MAX_ROWS - acc.rows.len(),
                ) as nat,
            ),
            ..acc
        }
    } else if n.name == "table-header-rows"@ {
        rows_in(acc, n, true, below)
    } else if n.name == "table-rows"@ || n.name == "table-row-group"@ {
        rows_in(acc, n, header, below)
    } else {
        acc
    }
}

fn collect_rows<'d>(e: &'d Element, header: bool, acc: &mut Rows<'d>, room: usize)
    ensures
        final(acc)@ == rows_in(old(acc)@, e@, header, room as nat),
    decreases room,
{
    if room == 0 {
        return;
    }
    let below: usize = room - 1;
    let ghost goal = rows_in(acc@, e@, header, room as nat);
    let v: Vec<&'d Element> = e.elems();
    let ghost ts = trees(v@);
    assert(ts.skip(0) =~= ts);
    for i in 0..v.len()
        invariant
            ts == trees(v@),
            below + 1 == room,
            goal == rows_in(old(acc)@, e@, header, room as nat),
            rows_each(acc@, ts.skip(i as int), header, below as nat) == goal,
    {
        let ghost before = acc@;
        assert(ts.skip(i as int)[0] == v@[i as int]@);
        assert(ts.skip(i as int).skip(1) =~= ts.skip(i + 1));
        let n: &'d Element = v[i];
        if acc.rows.len() >= MAX_ROWS {
            acc.clipped = true;
            return;
        }
        if n.is("table-row") {
            let reps: usize = smaller(
                count(n, "number-rows-repeated", MAX_ROWS),
                MAX_ROWS - acc.rows.len(),
            );
            for k in 0..reps
                invariant
                    acc@ == (RowsView {
                        rows: with_copies(before.rows, (n@, header), k as nat),
                        ..before
                    }),
            {
                let ghost so_far = acc.rows@;
                acc.rows.push(RowAt { node: n, header });
                assert(row_ats(acc.rows@) =~= row_ats(so_far).push((n@, header)));
            }
        } else if n.is("table-header-rows") {
            collect_rows(n, true, acc, below);
        } else if n.is("table-rows") || n.is("table-row-group") {
            collect_rows(n, header, acc, below);
        }
        assert(acc@ == rows_one(before, n@, header, below as nat));
    }
}

/// No more rows are kept than `MAX_ROWS`.
pub proof fn law_rows_are_capped(acc: RowsView, e: Tree, header: bool, room: nat)
    requires
        acc.rows.len() <= MAX_ROWS,
    ensures
        rows_in(acc, e, header, room).rows.len() <= MAX_ROWS,
    decreases room, 0int, 0int,
{
    if room > 0 {
        lemma_rows_each_capped(acc, e.elems(), header, (room - 1) as nat);
    }
}

proof fn lemma_rows_each_capped(acc: RowsView, v: Seq<Tree>, header: bool, below: nat)
    requires
        acc.rows.len() <= MAX_ROWS,
    ensures
        rows_each(acc, v, header, below).rows.len() <= MAX_ROWS,
    decreases below, 2int, v.len(),
{
    if v.len() > 0 && acc.rows.len() < MAX_ROWS {
        let n = v[0];
        if n.name == "table-row"@ {
            lemma_copies_len(
                acc.rows,
                (n, header),
                least(
                    count_of(n, "number-rows-repeated"@, MAX_ROWS) as int,
                    MAX_ROWS - acc.rows.len(),
                ) as nat,
            );
        } else if n.name == "table-header-rows"@ {
            law_rows_are_capped(acc, n, true, below);
        } else if n.name == "table-rows"@ || n.name == "table-row-group"@ {
            law_rows_are_capped(acc, n, header, below);
        }
        lemma_rows_each_capped(rows_one(acc, n, header, below), v.skip(1), header, below);
    }
}

// ── cells ────────────────────────────────────────────────────────────────────

/// A cell that is drawn, and how far it reaches. A covered one is none: the span that
/// covers it says where it is.
#[derive(Clone, Copy, Debug)]
pub struct Cell<'d> {
    pub node: &'d Element,
    pub span: usize,
    pub rowspan: usize,
}

#[verifier::ext_equal]
pub struct CellView {
    pub node: Tree,
    pub span: usize,
    pub rowspan: usize,
}

impl<'d> View for Cell<'d> {
    type V = CellView;

    open spec fn view(&self) -> CellView {
        CellView { node: self.node@, span: self.span, rowspan: self.rowspan }
    }
}

pub open spec fn cell_views(v: Seq<Cell>) -> Seq<CellView> {
    v.map_values(|c: Cell| c@)
}

#[derive(Debug)]
pub struct Row<'d> {
    pub node: &'d Element,
    pub header: bool,
    pub cells: Vec<Cell<'d>>,
}

#[verifier::ext_equal]
pub struct RowView {
    pub node: Tree,
    pub header: bool,
    pub cells: Seq<CellView>,
}

impl<'d> View for Row<'d> {
    type V = RowView;

    open spec fn view(&self) -> RowView {
        RowView { node: self.node@, header: self.header, cells: cell_views(self.cells@) }
    }
}

pub open spec fn row_views(v: Seq<Row>) -> Seq<RowView> {
    v.map_values(|r: Row| r@)
}

/// A row being filled.
#[verifier::ext_equal]
pub struct Filling {
    pub cells: Seq<CellView>,
    /// The columns taken.
    pub cols: nat,
    /// The covered slots that a span has taken the columns of, and that are yet to come.
    pub owed: nat,
    /// The cells that the table may still have.
    pub left: nat,
    pub clipped: bool,
}

/// How often a cell is drawn: as often as it says, as long as it fits.
pub open spec fn reps_of(f: Filling, tc: Tree, span: int) -> int {
    least(
        least(count_of(tc, "number-columns-repeated"@, MAX_COLS) as int, f.left as int),
        (MAX_COLS - f.cols) / span,
    )
}

pub open spec fn span_of(f: Filling, tc: Tree) -> int {
    least(count_of(tc, "number-columns-spanned"@, MAX_COLS) as int, MAX_COLS - f.cols)
}

/// The covered slots of an element that a span has taken the columns of.
pub open spec fn slots_owed(f: Filling, tc: Tree) -> int {
    least(count_of(tc, "number-columns-repeated"@, MAX_COLS) as int, f.owed as int)
}

/// An element stands for nothing but slots that a span has taken the columns of.
pub open spec fn is_owed(f: Filling, tc: Tree) -> bool {
    tc.name == "covered-table-cell"@ && count_of(tc, "number-columns-repeated"@, MAX_COLS)
        <= f.owed
}

/// A row after one more element. A covered slot takes a column of its own where no span
/// of the row has taken it: a cell of a row above covers it.
pub open spec fn filled_one(f: Filling, tc: Tree) -> Filling {
    if tc.name == "covered-table-cell"@ {
        let known = slots_owed(f, tc);
        Filling {
            cols: (f.cols + count_of(tc, "number-columns-repeated"@, MAX_COLS) - known) as nat,
            owed: (f.owed - known) as nat,
            ..f
        }
    } else if tc.name == "table-cell"@ {
        let span = span_of(f, tc);
        let reps = reps_of(f, tc, span);
        Filling {
            cells: with_copies(
                f.cells,
                CellView {
                    node: tc,
                    span: span as usize,
                    rowspan: count_of(tc, "number-rows-spanned"@, MAX_ROWS),
                },
                reps as nat,
            ),
            cols: (f.cols + reps * span) as nat,
            owed: (f.owed + reps * (span - 1)) as nat,
            left: (f.left - reps) as nat,
            clipped: f.clipped,
        }
    } else {
        f
    }
}

/// A row after some elements. It is cut where its columns or the table's cells run out
/// and more is to come than slots that are taken already.
pub open spec fn filled(f: Filling, v: Seq<Tree>) -> Filling
    decreases v.len(),
{
    if v.len() == 0 {
        f
    } else if (f.left == 0 || f.cols >= MAX_COLS) && !is_owed(f, v[0]) {
        Filling { clipped: true, ..f }
    } else {
        filled(filled_one(f, v[0]), v.skip(1))
    }
}

/// A table being planned.
#[verifier::ext_equal]
pub struct PlanView {
    pub rows: Seq<RowView>,
    /// The cells that the table may still have.
    pub left: nat,
    pub clipped: bool,
}

/// A row before its first element.
pub open spec fn unfilled(left: nat, clipped: bool) -> Filling {
    Filling { cells: Seq::empty(), cols: 0, owed: 0, left, clipped }
}

pub open spec fn plan_one(p: PlanView, row: (Tree, bool)) -> PlanView {
    let f = filled(unfilled(p.left, p.clipped), row.0.elems());
    PlanView {
        rows: p.rows.push(RowView { node: row.0, header: row.1, cells: f.cells }),
        left: f.left,
        clipped: f.clipped,
    }
}

pub open spec fn plan_each(p: PlanView, v: Seq<(Tree, bool)>) -> PlanView
    decreases v.len(),
{
    if v.len() == 0 {
        p
    } else if p.left == 0 {
        PlanView { clipped: true, ..p }
    } else {
        plan_each(plan_one(p, v[0]), v.skip(1))
    }
}

/// A table with at most `limit` cells.
pub open spec fn plan_of(tbl: Tree, limit: nat) -> PlanView {
    let found = rows_in(
        RowsView { rows: Seq::empty(), clipped: false },
        tbl,
        false,
        GROUPS as nat,
    );
    plan_each(
        PlanView { rows: Seq::empty(), left: limit, clipped: found.clipped },
        found.rows,
    )
}

#[derive(Debug)]
pub struct Plan<'d> {
    pub rows: Vec<Row<'d>>,
    pub left: usize,
    pub clipped: bool,
}

impl<'d> View for Plan<'d> {
    type V = PlanView;

    open spec fn view(&self) -> PlanView {
        PlanView { rows: row_views(self.rows@), left: self.left as nat, clipped: self.clipped }
    }
}

fn fill_row<'d>(node: &'d Element, p: &mut Plan<'d>) -> (cells: Vec<Cell<'d>>)
    ensures
        ({
            let f = filled(unfilled(old(p)@.left, old(p)@.clipped), node@.elems());
            &&& cell_views(cells@) == f.cells
            &&& final(p)@ == (PlanView { left: f.left, clipped: f.clipped, ..old(p)@ })
        }),
        final(p).left <= old(p).left,
{
    let ghost rows = p@.rows;
    let mut cells: Vec<Cell<'d>> = Vec::new();
    let mut cols: usize = 0;
    let mut owed: usize = 0;
    let v: Vec<&'d Element> = node.elems();
    let ghost ts = trees(v@);
    let ghost goal = filled(unfilled(p@.left, p@.clipped), ts);
    assert(ts.skip(0) =~= ts);
    assert(cell_views(cells@) =~= Seq::<CellView>::empty());
    for i in 0..v.len()
        invariant
            ts == trees(v@),
            ts == node@.elems(),
            goal == filled(unfilled(old(p)@.left, old(p)@.clipped), ts),
            rows == old(p)@.rows,
            p@.rows == rows,
            p.left <= old(p).left,
            cols <= 2 * MAX_COLS,
            owed <= cols,
            filled(
                Filling {
                    cells: cell_views(cells@),
                    cols: cols as nat,
                    owed: owed as nat,
                    left: p.left as nat,
                    clipped: p.clipped,
                },
                ts.skip(i as int),
            ) == goal,
    {
        assert(ts.skip(i as int)[0] == v@[i as int]@);
        assert(ts.skip(i as int).skip(1) =~= ts.skip(i + 1));
        let tc: &'d Element = v[i];
        let ghost f = Filling {
            cells: cell_views(cells@),
            cols: cols as nat,
            owed: owed as nat,
            left: p.left as nat,
            clipped: p.clipped,
        };
        let slots: usize = count(tc, "number-columns-repeated", MAX_COLS);
        let covered: bool = tc.is("covered-table-cell");
        if (p.left == 0 || cols >= MAX_COLS) && !(covered && slots <= owed) {
            p.clipped = true;
            return cells;
        }
        if covered {
            let known: usize = smaller(slots, owed);
            cols = cols + (slots - known);
            owed = owed - known;
        } else if tc.is("table-cell") {
            let free: usize = MAX_COLS - cols;
            let span: usize = smaller(count(tc, "number-columns-spanned", MAX_COLS), free);
            let rowspan: usize = count(tc, "number-rows-spanned", MAX_ROWS);
            let fit: usize = free / span;
            let reps: usize = smaller(smaller(slots, p.left), fit);
            assert(0 <= reps * span <= free && 0 <= reps * (span - 1) <= reps * span)
                by (nonlinear_arith)
                requires
                    0 <= reps <= fit,
                    span > 0,
                    fit == free / span,
            ;
            let cell = Cell { node: tc, span, rowspan };
            for k in 0..reps
                invariant
                    cell_views(cells@) == with_copies(f.cells, cell@, k as nat),
            {
                let ghost so_far = cells@;
                cells.push(cell);
                assert(cell_views(cells@) =~= cell_views(so_far).push(cell@));
            }
            cols = cols + reps * span;
            owed = owed + reps * (span - 1);
            p.left = p.left - reps;
        }
    }
    cells
}

/// Reads a table, up to `limit` cells.
pub fn plan<'d>(tbl: &'d Element, limit: usize) -> (r: Plan<'d>)
    ensures
        r@ == plan_of(tbl@, limit as nat),
        r.left <= limit,
{
    let mut found = Rows { rows: Vec::new(), clipped: false };
    assert(found@ =~= (RowsView { rows: Seq::empty(), clipped: false }));
    collect_rows(tbl, false, &mut found, GROUPS);
    let mut p = Plan { rows: Vec::new(), left: limit, clipped: found.clipped };
    assert(p@ =~= (PlanView { rows: Seq::empty(), left: limit as nat, clipped: found.clipped }));
    let ghost ns = row_ats(found.rows@);
    assert(ns.skip(0) =~= ns);
    for i in 0..found.rows.len()
        invariant
            ns == row_ats(found.rows@),
            p.left <= limit,
            plan_each(p@, ns.skip(i as int)) == plan_of(tbl@, limit as nat),
    {
        assert(ns.skip(i as int)[0] == found.rows@[i as int]@);
        assert(ns.skip(i as int).skip(1) =~= ns.skip(i + 1));
        if p.left == 0 {
            p.clipped = true;
            return p;
        }
        let at: RowAt<'d> = found.rows[i];
        let ghost before = p@;
        let cells: Vec<Cell<'d>> = fill_row(at.node, &mut p);
        let ghost so_far = p.rows@;
        let row = Row { node: at.node, header: at.header, cells };
        p.rows.push(row);
        assert(row_views(p.rows@) =~= row_views(so_far).push(row@));
        assert(p@ =~= plan_one(before, ns[i as int]));
    }
    p
}

// ── columns ──────────────────────────────────────────────────────────────────

pub open spec fn column_px(store: Store, e: Tree) -> Px {
    match store.resolved(Family::TableColumn, e.text_attr("style-name"@)).column.width_px {
        Some(v) => clamped(v as int, 0, MAX_COL_PX as int) as i64,
        None => 0,
    }
}

pub open spec fn columns_in(acc: Seq<Px>, store: Store, e: Tree, room: nat) -> Seq<Px>
    decreases room, 0int, 0int,
{
    if room == 0 {
        acc
    } else {
        columns_each(acc, store, e.elems(), (room - 1) as nat)
    }
}

pub open spec fn columns_each(acc: Seq<Px>, store: Store, v: Seq<Tree>, below: nat) -> Seq<Px>
    decreases below, 2int, v.len(),
{
    if v.len() == 0 || acc.len() >= MAX_COLS {
        acc
    } else {
        columns_each(columns_one(acc, store, v[0], below), store, v.skip(1), below)
    }
}

pub open spec fn columns_one(acc: Seq<Px>, store: Store, n: Tree, below: nat) -> Seq<Px>
    decreases below, 1int, 0int,
{
    if n.name == "table-column"@ {
        with_copies(
            acc,
            column_px(store, n),
            least(
                count_of(n, "number-columns-repeated"@, MAX_COLS) as int,
                MAX_COLS - acc.len(),
            ) as nat,
        )
    } else if n.name == "table-columns"@ || n.name == "table-header-columns"@ || n.name
        == "table-column-group"@ {
        columns_in(acc, store, n, below)
    } else {
        acc
    }
}

/// The widths of a table's columns. Columns without any width say nothing.
pub open spec fn grid_of(store: Store, tbl: Tree) -> Seq<Px> {
    let all = columns_in(Seq::empty(), store, tbl, GROUPS as nat);
    if exists|i: int| 0 <= i < all.len() && #[trigger] all[i] > 0 {
        all
    } else {
        Seq::empty()
    }
}

fn collect_columns(styles: &Styles, e: &Element, out: &mut Vec<Px>, room: usize)
    ensures
        final(out)@ == columns_in(old(out)@, styles@, e@, room as nat),
    decreases room,
{
    if room == 0 {
        return;
    }
    let below: usize = room - 1;
    let ghost goal = columns_in(out@, styles@, e@, room as nat);
    let v: Vec<&Element> = e.elems();
    let ghost ts = trees(v@);
    assert(ts.skip(0) =~= ts);
    for i in 0..v.len()
        invariant
            ts == trees(v@),
            below + 1 == room,
            goal == columns_in(old(out)@, styles@, e@, room as nat),
            columns_each(out@, styles@, ts.skip(i as int), below as nat) == goal,
    {
        let ghost before = out@;
        assert(ts.skip(i as int)[0] == v@[i as int]@);
        assert(ts.skip(i as int).skip(1) =~= ts.skip(i + 1));
        let n: &Element = v[i];
        if out.len() >= MAX_COLS {
            return;
        }
        if n.is("table-column") {
            let px: Px = match styles.resolve(
                Family::TableColumn,
                n.text_attr("style-name"),
            ).column.width_px {
                Some(v) => clamp_px(v, 0, MAX_COL_PX),
                None => 0,
            };
            let reps: usize = smaller(
                count(n, "number-columns-repeated", MAX_COLS),
                MAX_COLS - out.len(),
            );
            for k in 0..reps
                invariant
                    out@ == with_copies(before, px, k as nat),
            {
                out.push(px);
            }
        } else if n.is("table-columns") || n.is("table-header-columns") || n.is(
            "table-column-group",
        ) {
            collect_columns(styles, n, out, below);
        }
        assert(out@ == columns_one(before, styles@, n@, below as nat));
    }
}

/// Reads the widths of a table's columns.
pub fn columns(styles: &Styles, tbl: &Element) -> (r: Vec<Px>)
    ensures
        r@ == grid_of(styles@, tbl@),
{
    let mut out: Vec<Px> = Vec::new();
    collect_columns(styles, tbl, &mut out, GROUPS);
    for i in 0..out.len()
        invariant
            out@ == columns_in(Seq::empty(), styles@, tbl@, GROUPS as nat),
            forall|k: int| 0 <= k < i ==> #[trigger] out@[k] <= 0,
    {
        if out[i] > 0 {
            return out;
        }
    }
    Vec::new()
}

// ── laws ─────────────────────────────────────────────────────────────────────

/// The columns that some cells take.
pub open spec fn cols_of(cells: Seq<CellView>) -> nat
    decreases cells.len(),
{
    if cells.len() == 0 {
        0
    } else {
        cols_of(cells.drop_last()) + cells.last().span as nat
    }
}

/// A row's cells stay within `MAX_COLS` columns, and every cell that is drawn is counted
/// once against the table's budget.
pub proof fn law_rows_keep_their_bounds(f: Filling, v: Seq<Tree>)
    requires
        f.cols < MAX_COLS ==> cols_of(f.cells) <= f.cols,
        cols_of(f.cells) <= MAX_COLS,
    ensures
        cols_of(filled(f, v).cells) <= MAX_COLS,
        filled(f, v).left <= f.left,
        filled(f, v).cells.len() == f.cells.len() + (f.left - filled(f, v).left),
    decreases v.len(),
{
    if v.len() > 0 && (f.left > 0 && f.cols < MAX_COLS || is_owed(f, v[0])) {
        let tc = v[0];
        let g = filled_one(f, tc);
        if tc.name == "table-cell"@ && tc.name != "covered-table-cell"@ {
            let span = span_of(f, tc);
            let reps = reps_of(f, tc, span);
            let free = MAX_COLS - f.cols;
            let fit = free / span;
            assert(0 <= fit && 0 <= fit * span <= free) by (nonlinear_arith)
                requires
                    free > 0,
                    span > 0,
                    fit == free / span,
            ;
            assert(0 <= reps * span <= fit * span) by (nonlinear_arith)
                requires
                    0 <= reps <= fit,
                    span > 0,
            ;
            let cell = CellView {
                node: tc,
                span: span as usize,
                rowspan: count_of(tc, "number-rows-spanned"@, MAX_ROWS),
            };
            lemma_copies_len(f.cells, cell, reps as nat);
            lemma_copies_cols(f.cells, cell, reps as nat);
        }
        law_rows_keep_their_bounds(g, v.skip(1));
    }
}

/// A cell and the covered slots that its span reaches take the span's columns, and no
/// more.
pub proof fn law_a_covered_slot_is_counted_once(f: Filling, cell: Tree, covered: Tree)
    requires
        f.left > 0,
        f.cols < MAX_COLS,
        cell.name == "table-cell"@,
        count_of(cell, "number-columns-repeated"@, MAX_COLS) == 1,
        covered.name == "covered-table-cell"@,
        count_of(covered, "number-columns-repeated"@, MAX_COLS) == span_of(f, cell) - 1,
    ensures
        is_owed(filled_one(f, cell), covered),
        filled_one(filled_one(f, cell), covered).cols == f.cols + span_of(f, cell),
        filled_one(filled_one(f, cell), covered).owed == f.owed,
        filled_one(filled_one(f, cell), covered).cells.len() == f.cells.len() + 1,
{
    reveal_strlit("table-cell");
    reveal_strlit("covered-table-cell");
    assert("table-cell"@.len() != "covered-table-cell"@.len());
    let span = span_of(f, cell);
    let free = MAX_COLS - f.cols;
    assert(free / span >= 1) by (nonlinear_arith)
        requires
            1 <= span <= free,
    ;
    assert(reps_of(f, cell, span) == 1);
    lemma_copies_len(
        f.cells,
        CellView {
            node: cell,
            span: span as usize,
            rowspan: count_of(cell, "number-rows-spanned"@, MAX_ROWS),
        },
        1,
    );
}

proof fn lemma_copies_cols(cells: Seq<CellView>, c: CellView, n: nat)
    ensures
        cols_of(with_copies(cells, c, n)) == cols_of(cells) + n * c.span,
    decreases n,
{
    if n == 0 {
        assert(n * c.span == 0) by (nonlinear_arith)
            requires
                n == 0,
        ;
    } else {
        let m = (n - 1) as nat;
        lemma_copies_cols(cells, c, m);
        assert(with_copies(cells, c, n).drop_last() =~= with_copies(cells, c, m));
        assert(n * c.span == m * c.span + c.span) by (nonlinear_arith)
            requires
                n == m + 1,
        ;
    }
}

/// No more columns are kept than `MAX_COLS`.
pub proof fn law_columns_are_capped(acc: Seq<Px>, store: Store, e: Tree, room: nat)
    requires
        acc.len() <= MAX_COLS,
    ensures
        columns_in(acc, store, e, room).len() <= MAX_COLS,
    decreases room, 0int, 0int,
{
    if room > 0 {
        lemma_columns_each_capped(acc, store, e.elems(), (room - 1) as nat);
    }
}

proof fn lemma_columns_each_capped(acc: Seq<Px>, store: Store, v: Seq<Tree>, below: nat)
    requires
        acc.len() <= MAX_COLS,
    ensures
        columns_each(acc, store, v, below).len() <= MAX_COLS,
    decreases below, 2int, v.len(),
{
    if v.len() > 0 && acc.len() < MAX_COLS {
        let n = v[0];
        if n.name == "table-column"@ {
            lemma_copies_len(
                acc,
                column_px(store, n),
                least(
                    count_of(n, "number-columns-repeated"@, MAX_COLS) as int,
                    MAX_COLS - acc.len(),
                ) as nat,
            );
        } else if n.name == "table-columns"@ || n.name == "table-header-columns"@ || n.name
            == "table-column-group"@ {
            law_columns_are_capped(acc, store, n, below);
        }
        lemma_columns_each_capped(columns_one(acc, store, n, below), store, v.skip(1), below);
    }
}

/// How many cells some rows have.
pub open spec fn cells_in(rows: Seq<RowView>) -> nat
    decreases rows.len(),
{
    if rows.len() == 0 {
        0
    } else {
        cells_in(rows.drop_last()) + rows.last().cells.len()
    }
}

/// A plan spends its budget on the cells that it plans, and on nothing else.
pub proof fn law_plan_counts_its_cells(p: PlanView, v: Seq<(Tree, bool)>)
    ensures
        cells_in(plan_each(p, v).rows) + plan_each(p, v).left == cells_in(p.rows) + p.left,
        plan_each(p, v).left <= p.left,
    decreases v.len(),
{
    if v.len() > 0 && p.left > 0 {
        let next = plan_one(p, v[0]);
        let none = unfilled(p.left, p.clipped);
        assert(cols_of(none.cells) == 0);
        law_rows_keep_their_bounds(none, v[0].0.elems());
        assert(next.rows.drop_last() =~= p.rows);
        law_plan_counts_its_cells(next, v.skip(1));
    }
}

} // verus!
