//! The rows of a sheet: which element covers each row, how far the data reaches, and
//! where the merges are.
//!
//! Repetition is how a sheet spells its used range, and it is expanded here only: a row
//! that is repeated is one element that several rows refer to.

use vstd::prelude::*;
use crate::odf::length::{clamp_px, clamped, Px};
use crate::odf::style::{Family, Styles};
use crate::odf::style::store::Store;
use crate::odf::table::plan::{count, count_of, least, lemma_copies_len, with_copies};
use crate::xml::{trees, Element, Tree};

verus! {

/// The rows that are shown.
pub const MAX_ROWS: u32 = 200;

/// The columns that are shown.
pub const MAX_COLS: usize = 200;

/// The most that a column or a cell is repeated.
pub const MAX_REPEAT: usize = 200;

/// Rows read for the used range.
pub const MAX_SCAN_ROWS: usize = 20_000;

/// How deep rows and columns may be grouped, plus one.
pub const GROUPS: usize = 5;

pub const MIN_COL_PX: Px = 762_000_000;

pub const MAX_COL_PX: Px = 762_000_000_000;

pub const MAX_ROW_PX: Px = 381_000_000_000;

/// The width of a column that states none.
pub const DEFAULT_COL_PX: Px = 24_384_000_000;

/// The height of a row that states none.
pub const DEFAULT_ROW_PX: Px = 6_477_000_000;

/// Merges read.
pub const MAX_MERGES: usize = 4000;

/// A row or a column of the grid.
#[derive(Clone, Copy, PartialEq, Eq, Debug, Structural)]
pub struct Track {
    pub px: Px,
    pub hidden: bool,
}

// ── elements ─────────────────────────────────────────────────────────────────

pub open spec fn is_hidden(n: Tree) -> bool {
    n.attr("visibility"@) == Some("collapse"@) || n.attr("visibility"@) == Some("filter"@)
}

pub fn hidden(n: &Element) -> (r: bool)
    ensures
        r == is_hidden(n@),
{
    match n.attr_local("visibility") {
        Some(v) => *v == *"collapse" || *v == *"filter",
        None => false,
    }
}

/// How often a column or a cell is repeated.
pub open spec fn repeats(n: Tree, attr: Seq<char>) -> usize {
    count_of(n, attr, MAX_REPEAT)
}

/// A cell holds data. A style alone is none: a sheet styles the empty cells with which
/// it spells the rest of a row.
pub open spec fn has_data(tc: Tree) -> bool {
    tc.attr("value-type"@) is Some || tc.attr("value"@) is Some || tc.attr("formula"@) is Some
        || any_paragraph(tc.elems())
}

pub open spec fn any_paragraph(v: Seq<Tree>) -> bool {
    exists|i: int|
        0 <= i < v.len() && ((#[trigger] v[i]).name == "p"@ || v[i].name == "h"@ || v[i].name
            == "list"@)
}

pub fn holds_data(tc: &Element) -> (r: bool)
    ensures
        r == has_data(tc@),
{
    if tc.attr_local("value-type").is_some() || tc.attr_local("value").is_some() || tc.attr_local(
        "formula",
    ).is_some() {
        return true;
    }
    let v: Vec<&Element> = tc.elems();
    let ghost ts = trees(v@);
    for i in 0..v.len()
        invariant
            ts == trees(v@),
            ts == tc@.elems(),
            forall|j: int|
                0 <= j < i ==> (#[trigger] ts[j]).name != "p"@ && ts[j].name != "h"@ && ts[j].name
                    != "list"@,
    {
        assert(ts[i as int] == v@[i as int]@);
        if v[i].is("p") || v[i].is("h") || v[i].is("list") {
            return true;
        }
    }
    false
}

/// A cell shows something: data, or a style that may paint it.
pub open spec fn has_paint(tc: Tree) -> bool {
    has_data(tc) || tc.attr("style-name"@) is Some
}

pub open spec fn is_cell(n: Tree) -> bool {
    n.name == "table-cell"@ || n.name == "covered-table-cell"@
}

/// How far the data of a row reaches. `c` columns have passed, and it reached `last`. A
/// covered cell counts: it is part of a merge.
pub open spec fn reach(v: Seq<Tree>, c: nat, last: nat) -> nat
    decreases v.len(),
{
    if v.len() == 0 || c > MAX_COLS {
        last
    } else if !is_cell(v[0]) {
        reach(v.skip(1), c, last)
    } else {
        let next = c + repeats(v[0], "number-columns-repeated"@) as nat;
        reach(
            v.skip(1),
            next,
            if v[0].name == "covered-table-cell"@ || has_data(v[0]) {
                next
            } else {
                last
            },
        )
    }
}

/// The columns that the data of a row reaches.
pub open spec fn row_width_of(row: Tree) -> usize {
    least(reach(row.elems(), 0, 0) as int, MAX_COLS as int) as usize
}

pub fn row_width(row: &Element) -> (r: usize)
    ensures
        r == row_width_of(row@),
{
    let v: Vec<&Element> = row.elems();
    let ghost ts = trees(v@);
    let mut c: usize = 0;
    let mut last: usize = 0;
    assert(ts.skip(0) =~= ts);
    let mut i: usize = 0;
    while i < v.len() && c <= MAX_COLS
        invariant
            i <= v@.len(),
            ts == trees(v@),
            c <= MAX_COLS + MAX_REPEAT,
            last <= MAX_COLS + MAX_REPEAT,
            reach(ts, 0, 0) == reach(ts.skip(i as int), c as nat, last as nat),
        decreases v@.len() - i,
    {
        assert(ts.skip(i as int)[0] == v@[i as int]@);
        assert(ts.skip(i as int).skip(1) =~= ts.skip(i + 1));
        let tc: &Element = v[i];
        let covered: bool = tc.is("covered-table-cell");
        if covered || tc.is("table-cell") {
            c = c + count(tc, "number-columns-repeated", MAX_REPEAT);
            if covered || holds_data(tc) {
                last = c;
            }
        }
        i = i + 1;
    }
    if last < MAX_COLS {
        last
    } else {
        MAX_COLS
    }
}

/// Something drawn over the grid.
pub open spec fn is_drawn(name: Seq<char>) -> bool {
    name == "frame"@ || name == "custom-shape"@ || name == "g"@ || name == "object"@ || name
        == "image"@
}

pub open spec fn any_drawn(v: Seq<Tree>) -> bool {
    exists|i: int| 0 <= i < v.len() && is_drawn((#[trigger] v[i]).name)
}

/// A cell of a row holds something drawn.
pub open spec fn row_draws(row: Tree) -> bool {
    exists|i: int| 0 <= i < row.elems().len() && any_drawn((#[trigger] row.elems()[i]).elems())
}

fn cell_draws(tc: &Element) -> (r: bool)
    ensures
        r == any_drawn(tc@.elems()),
{
    let v: Vec<&Element> = tc.elems();
    let ghost ts = trees(v@);
    for i in 0..v.len()
        invariant
            ts == trees(v@),
            ts == tc@.elems(),
            forall|j: int| 0 <= j < i ==> !is_drawn((#[trigger] ts[j]).name),
    {
        assert(ts[i as int] == v@[i as int]@);
        if v[i].is("frame") || v[i].is("custom-shape") || v[i].is("g") || v[i].is("object")
            || v[i].is("image") {
            return true;
        }
    }
    false
}

fn draws(row: &Element) -> (r: bool)
    ensures
        r == row_draws(row@),
{
    let v: Vec<&Element> = row.elems();
    let ghost ts = trees(v@);
    for i in 0..v.len()
        invariant
            ts == trees(v@),
            ts == row@.elems(),
            forall|j: int| 0 <= j < i ==> !any_drawn((#[trigger] ts[j]).elems()),
    {
        assert(ts[i as int] == v@[i as int]@);
        if cell_draws(v[i]) {
            assert(any_drawn(row@.elems()[i as int].elems()));
            return true;
        }
    }
    false
}

// ── columns ──────────────────────────────────────────────────────────────────

pub open spec fn column_track(store: Store, n: Tree) -> Track {
    let w = store.resolved(Family::TableColumn, n.text_attr("style-name"@)).column.width_px;
    Track {
        px: if w is Some && w->0 > 0 {
            clamped(w->0 as int, MIN_COL_PX as int, MAX_COL_PX as int) as i64
        } else {
            DEFAULT_COL_PX
        },
        hidden: is_hidden(n),
    }
}

fn track_of(styles: &Styles, n: &Element) -> (r: Track)
    ensures
        r == column_track(styles@, n@),
{
    let w: Option<Px> = styles.resolve(
        Family::TableColumn,
        n.text_attr("style-name"),
    ).column.width_px;
    let px: Px = match w {
        Some(w) => if w > 0 {
            clamp_px(w, MIN_COL_PX, MAX_COL_PX)
        } else {
            DEFAULT_COL_PX
        },
        None => DEFAULT_COL_PX,
    };
    Track { px, hidden: hidden(n) }
}

/// The elements of the columns, in document order, through what groups them.
pub open spec fn columns_in(acc: Seq<Tree>, e: Tree, room: nat) -> Seq<Tree>
    decreases room, 0int, 0int,
{
    if room == 0 {
        acc
    } else {
        columns_each(acc, e.elems(), (room - 1) as nat)
    }
}

pub open spec fn columns_each(acc: Seq<Tree>, v: Seq<Tree>, below: nat) -> Seq<Tree>
    decreases below, 2int, v.len(),
{
    if v.len() == 0 || acc.len() >= MAX_COLS {
        acc
    } else {
        columns_each(columns_one(acc, v[0], below), v.skip(1), below)
    }
}

pub open spec fn columns_one(acc: Seq<Tree>, n: Tree, below: nat) -> Seq<Tree>
    decreases below, 1int, 0int,
{
    if n.name == "table-column"@ {
        with_copies(
            acc,
            n,
            least(
                repeats(n, "number-columns-repeated"@) as int,
                MAX_COLS - acc.len(),
            ) as nat,
        )
    } else if n.name == "table-columns"@ || n.name == "table-header-columns"@ || n.name
        == "table-column-group"@ {
        columns_in(acc, n, below)
    } else {
        acc
    }
}

fn collect_columns<'d>(e: &'d Element, out: &mut Vec<&'d Element>, room: usize)
    ensures
        trees(final(out)@) == columns_in(trees(old(out)@), e@, room as nat),
    decreases room,
{
    if room == 0 {
        return;
    }
    let below: usize = room - 1;
    let ghost goal = columns_in(trees(out@), e@, room as nat);
    let v: Vec<&'d Element> = e.elems();
    let ghost ts = trees(v@);
    assert(ts.skip(0) =~= ts);
    for i in 0..v.len()
        invariant
            ts == trees(v@),
            below + 1 == room,
            goal == columns_in(trees(old(out)@), e@, room as nat),
            columns_each(trees(out@), ts.skip(i as int), below as nat) == goal,
    {
        let ghost before = trees(out@);
        assert(ts.skip(i as int)[0] == v@[i as int]@);
        assert(ts.skip(i as int).skip(1) =~= ts.skip(i + 1));
        let n: &'d Element = v[i];
        if out.len() >= MAX_COLS {
            return;
        }
        if n.is("table-column") {
            let free: usize = MAX_COLS - out.len();
            let stated: usize = count(n, "number-columns-repeated", MAX_REPEAT);
            let reps: usize = if stated < free {
                stated
            } else {
                free
            };
            for k in 0..reps
                invariant
                    trees(out@) == with_copies(before, n@, k as nat),
            {
                let ghost so_far = out@;
                out.push(n);
                assert(trees(out@) =~= trees(so_far).push(n@));
            }
        } else if n.is("table-columns") || n.is("table-header-columns") || n.is(
            "table-column-group",
        ) {
            collect_columns(n, out, below);
        }
        assert(trees(out@) == columns_one(before, n@, below as nat));
    }
}

/// The columns that a sheet states.
pub open spec fn columns_of(table: Tree) -> Seq<Tree> {
    columns_in(Seq::empty(), table, GROUPS as nat)
}

/// Reads the columns that a sheet states.
pub fn columns(table: &Element) -> (r: Vec<&Element>)
    ensures
        trees(r@) == columns_of(table@),
{
    let mut out: Vec<&Element> = Vec::new();
    assert(trees(out@) =~= Seq::<Tree>::empty());
    collect_columns(table, &mut out, GROUPS);
    out
}

/// The tracks of a sheet's columns: as many as its data reaches, whether it states them
/// or not.
pub open spec fn column_tracks(store: Store, stated: Seq<Tree>, n: nat) -> Seq<Track> {
    Seq::new(
        n,
        |i: int|
            if i < stated.len() {
                column_track(store, stated[i])
            } else {
                Track { px: DEFAULT_COL_PX, hidden: false }
            },
    )
}

pub fn tracks_of(styles: &Styles, stated: &Vec<&Element>, n: usize) -> (r: Vec<Track>)
    ensures
        r@ == column_tracks(styles@, trees(stated@), n as nat),
{
    let ghost ts = trees(stated@);
    let mut out: Vec<Track> = Vec::new();
    for i in 0..n
        invariant
            ts == trees(stated@),
            out@.len() == i,
            forall|k: int|
                0 <= k < i ==> #[trigger] out@[k] == (if k < ts.len() {
                    column_track(styles@, ts[k])
                } else {
                    Track { px: DEFAULT_COL_PX, hidden: false }
                }),
    {
        if i < stated.len() {
            assert(ts[i as int] == stated@[i as int]@);
            out.push(track_of(styles, stated[i]));
        } else {
            out.push(Track { px: DEFAULT_COL_PX, hidden: false });
        }
    }
    assert(out@ =~= column_tracks(styles@, ts, n as nat));
    out
}

/// The style of a column's cells that state none.
pub open spec fn default_style(stated: Seq<Tree>, c: int) -> Seq<char> {
    if 0 <= c < stated.len() {
        stated[c].text_attr("default-cell-style-name"@)
    } else {
        Seq::empty()
    }
}

/// The style of a cell: its own, or else that of its column.
pub open spec fn cell_style_name(stated: Seq<Tree>, n: Tree, c: int) -> Seq<char> {
    match n.attr("style-name"@) {
        Some(name) => name,
        None => default_style(stated, c),
    }
}

pub fn style_name<'d>(stated: &Vec<&'d Element>, n: &'d Element, c: usize) -> (r: &'d str)
    ensures
        r@ == cell_style_name(trees(stated@), n@, c as int),
{
    if let Some(name) = n.attr_local("style-name") {
        return name;
    }
    if c < stated.len() {
        assert(trees(stated@)[c as int] == stated@[c as int]@);
        return stated[c].text_attr("default-cell-style-name");
    }
    proof {
        reveal_strlit("");
        assert(""@ =~= Seq::<char>::empty());
    }
    ""
}

// ── rows ─────────────────────────────────────────────────────────────────────

/// The rows of a sheet.
#[derive(Debug)]
pub struct Rows<'d> {
    /// The element of each row.
    pub at: Vec<&'d Element>,
    pub nrows: u32,
    pub ncols: usize,
    /// The height of each row.
    pub px: Vec<Px>,
    pub hidden: Vec<bool>,
    /// A cell holds something drawn.
    pub shapes: bool,
}

/// The rows of a sheet as contracts see them.
#[verifier::ext_equal]
pub struct RowsView {
    pub at: Seq<Tree>,
    pub nrows: u32,
    pub ncols: usize,
    pub px: Seq<Px>,
    pub hidden: Seq<bool>,
    pub shapes: bool,
}

impl<'d> View for Rows<'d> {
    type V = RowsView;

    open spec fn view(&self) -> RowsView {
        RowsView {
            at: trees(self.at@),
            nrows: self.nrows,
            ncols: self.ncols,
            px: self.px@,
            hidden: self.hidden@,
            shapes: self.shapes,
        }
    }
}

pub open spec fn row_px(store: Store, n: Tree) -> Px {
    let h = store.resolved(Family::TableRow, n.text_attr("style-name"@)).row.height_px;
    if h is Some && h->0 > 0 {
        least(h->0 as int, MAX_ROW_PX as int) as i64
    } else {
        DEFAULT_ROW_PX
    }
}

impl RowsView {
    pub open spec fn empty() -> RowsView {
        RowsView {
            at: Seq::empty(),
            nrows: 0,
            ncols: 0,
            px: Seq::empty(),
            hidden: Seq::empty(),
            shapes: false,
        }
    }

    /// Every row has a height and is hidden or not.
    pub open spec fn wf(self) -> bool {
        self.at.len() == self.px.len() && self.at.len() == self.hidden.len()
    }

    /// With one more row element: every row that it covers refers to it.
    pub open spec fn with_row(self, store: Store, n: Tree) -> RowsView {
        let reps = least(
            count_of(n, "number-rows-repeated"@, MAX_SCAN_ROWS) as int,
            MAX_SCAN_ROWS - self.at.len(),
        ) as nat;
        RowsView {
            at: with_copies(self.at, n, reps),
            px: with_copies(self.px, row_px(store, n), reps),
            hidden: with_copies(self.hidden, is_hidden(n), reps),
            shapes: self.shapes || row_draws(n),
            ncols: if row_width_of(n) > self.ncols {
                row_width_of(n)
            } else {
                self.ncols
            },
            ..self
        }
    }

    /// Without the empty rows at the end.
    pub open spec fn used(self) -> RowsView
        decreases self.at.len(),
    {
        if self.at.len() > 0 && row_width_of(self.at.last()) == 0 {
            RowsView {
                at: self.at.drop_last(),
                px: self.px.drop_last(),
                hidden: self.hidden.drop_last(),
                ..self
            }.used()
        } else {
            RowsView { nrows: self.at.len() as u32, ..self }
        }
    }
}

pub open spec fn rows_in(acc: RowsView, store: Store, e: Tree, room: nat) -> RowsView
    decreases room, 0int, 0int,
{
    if room == 0 {
        acc
    } else {
        rows_each(acc, store, e.elems(), (room - 1) as nat)
    }
}

pub open spec fn rows_each(acc: RowsView, store: Store, v: Seq<Tree>, below: nat) -> RowsView
    decreases below, 2int, v.len(),
{
    if v.len() == 0 || acc.at.len() >= MAX_SCAN_ROWS {
        acc
    } else {
        rows_each(rows_one(acc, store, v[0], below), store, v.skip(1), below)
    }
}

pub open spec fn rows_one(acc: RowsView, store: Store, n: Tree, below: nat) -> RowsView
    decreases below, 1int, 0int,
{
    if n.name == "table-row"@ {
        acc.with_row(store, n)
    } else if n.name == "table-header-rows"@ || n.name == "table-rows"@ || n.name
        == "table-row-group"@ {
        rows_in(acc, store, n, below)
    } else {
        acc
    }
}

/// The rows of a sheet, up to the last that holds data.
pub open spec fn rows_of(store: Store, table: Tree) -> RowsView {
    rows_in(RowsView::empty(), store, table, GROUPS as nat).used()
}

impl<'d> Rows<'d> {
    fn add(&mut self, styles: &Styles, n: &'d Element)
        requires
            old(self)@.at.len() < MAX_SCAN_ROWS,
            old(self)@.wf(),
        ensures
            final(self)@ == old(self)@.with_row(styles@, n@),
            final(self)@.wf(),
            final(self)@.at.len() <= MAX_SCAN_ROWS,
    {
        let ghost before = self@;
        let h: Option<Px> = styles.resolve(
            Family::TableRow,
            n.text_attr("style-name"),
        ).row.height_px;
        let px: Px = match h {
            Some(h) => if h > 0 {
                if h < MAX_ROW_PX {
                    h
                } else {
                    MAX_ROW_PX
                }
            } else {
                DEFAULT_ROW_PX
            },
            None => DEFAULT_ROW_PX,
        };
        assert(px == row_px(styles@, n@));
        let hid: bool = hidden(n);
        if draws(n) {
            self.shapes = true;
        }
        let width: usize = row_width(n);
        if width > self.ncols {
            self.ncols = width;
        }
        assert(trees(self.at@).len() == self.at@.len());
        let free: usize = MAX_SCAN_ROWS - self.at.len();
        let stated: usize = count(n, "number-rows-repeated", MAX_SCAN_ROWS);
        let reps: usize = if stated < free {
            stated
        } else {
            free
        };
        let ghost start = self@;
        for k in 0..reps
            invariant
                self@ == (RowsView {
                    at: with_copies(start.at, n@, k as nat),
                    px: with_copies(start.px, px, k as nat),
                    hidden: with_copies(start.hidden, hid, k as nat),
                    ..start
                }),
        {
            let ghost so_far = self.at@;
            self.at.push(n);
            assert(trees(self.at@) =~= trees(so_far).push(n@));
            self.px.push(px);
            self.hidden.push(hid);
        }
        proof {
            lemma_copies_len(start.at, n@, reps as nat);
            lemma_copies_len(start.px, px, reps as nat);
            lemma_copies_len(start.hidden, hid, reps as nat);
        }
        assert(self@ == before.with_row(styles@, n@));
    }

    fn collect(&mut self, styles: &Styles, e: &'d Element, room: usize)
        requires
            old(self)@.wf(),
            old(self)@.at.len() <= MAX_SCAN_ROWS,
        ensures
            final(self)@ == rows_in(old(self)@, styles@, e@, room as nat),
            final(self)@.wf(),
            final(self)@.at.len() <= MAX_SCAN_ROWS,
        decreases room,
    {
        if room == 0 {
            return;
        }
        let below: usize = room - 1;
        let ghost goal = rows_in(self@, styles@, e@, room as nat);
        let v: Vec<&'d Element> = e.elems();
        let ghost ts = trees(v@);
        assert(ts.skip(0) =~= ts);
        for i in 0..v.len()
            invariant
                ts == trees(v@),
                below + 1 == room,
                self@.wf(),
                self@.at.len() <= MAX_SCAN_ROWS,
                goal == rows_in(old(self)@, styles@, e@, room as nat),
                rows_each(self@, styles@, ts.skip(i as int), below as nat) == goal,
        {
            let ghost before = self@;
            assert(ts.skip(i as int)[0] == v@[i as int]@);
            assert(ts.skip(i as int).skip(1) =~= ts.skip(i + 1));
            let n: &'d Element = v[i];
            assert(trees(self.at@).len() == self.at@.len());
            if self.at.len() >= MAX_SCAN_ROWS {
                return;
            }
            if n.is("table-row") {
                self.add(styles, n);
            } else if n.is("table-header-rows") || n.is("table-rows") || n.is("table-row-group") {
                self.collect(styles, n, below);
            }
            assert(self@ == rows_one(before, styles@, n@, below as nat));
        }
    }

    /// Reads the rows of a sheet.
    pub fn plan(styles: &Styles, table: &'d Element) -> (r: Rows<'d>)
        ensures
            r@ == rows_of(styles@, table@),
            r@.wf(),
            r@.at.len() == r@.nrows,
    {
        let mut r = Rows {
            at: Vec::new(),
            nrows: 0,
            ncols: 0,
            px: Vec::new(),
            hidden: Vec::new(),
            shapes: false,
        };
        assert(r@ =~= RowsView::empty());
        r.collect(styles, table, GROUPS);
        let ghost all = r@;
        loop
            invariant_except_break
                r@.wf(),
                r@.at.len() <= MAX_SCAN_ROWS,
                r@.used() == all.used(),
            ensures
                r@.wf(),
                r@.at.len() <= MAX_SCAN_ROWS,
                (RowsView { nrows: r@.at.len() as u32, ..r@ }) == all.used(),
            decreases r@.at.len(),
        {
            assert(trees(r.at@).len() == r.at@.len());
            let n: usize = r.at.len();
            if n == 0 {
                break;
            }
            assert(r@.at.last() == r.at@[n - 1]@);
            if row_width(r.at[n - 1]) > 0 {
                break;
            }
            let ghost before = r@;
            let _ = r.at.pop();
            let _ = r.px.pop();
            let _ = r.hidden.pop();
            assert(r@ =~= (RowsView {
                at: before.at.drop_last(),
                px: before.px.drop_last(),
                hidden: before.hidden.drop_last(),
                ..before
            }));
        }
        assert(trees(r.at@).len() == r.at@.len());
        r.nrows = r.at.len() as u32;
        r
    }

    /// The tracks of the rows, counted from one: a slot that is not used stands before
    /// them, and one after them.
    pub fn tracks(&self, nrows: u32) -> (r: Vec<Track>)
        requires
            nrows <= u32::MAX - 2,
        ensures
            r@ == row_tracks(self@, nrows),
    {
        let mut out: Vec<Track> = Vec::new();
        let total: usize = nrows as usize + 2;
        for i in 0..total
            invariant
                out@.len() == i,
                total == nrows + 2,
                forall|k: int| 0 <= k < i ==> #[trigger] out@[k] == track_at(self@, nrows, k),
        {
            let mut t = Track { px: DEFAULT_ROW_PX, hidden: false };
            if 1 <= i && i <= nrows as usize {
                if i - 1 < self.px.len() {
                    t.px = self.px[i - 1];
                }
                if i - 1 < self.hidden.len() {
                    t.hidden = self.hidden[i - 1];
                }
            }
            out.push(t);
        }
        assert(out@ =~= row_tracks(self@, nrows));
        out
    }

    /// The cell that stands in a row, counted from one, and a column, where it shows
    /// something.
    pub fn cell(&self, r: u32, col: usize) -> (e: Option<&'d Element>)
        ensures
            e is Some == cell_at(self@, r, col as nat) is Some,
            e matches Some(x) ==> x@ == cell_at(self@, r, col as nat)->0,
    {
        assert(trees(self.at@).len() == self.at@.len());
        if r < 1 || r as usize > self.at.len() {
            return None;
        }
        let row: &'d Element = self.at[r as usize - 1];
        assert(row@ == self@.at[r - 1]);
        let v: Vec<&'d Element> = row.elems();
        let ghost ts = trees(v@);
        let mut c: usize = 0;
        assert(ts.skip(0) =~= ts);
        let mut i: usize = 0;
        while i < v.len() && c <= col
            invariant
                i <= v@.len(),
                ts == trees(v@),
                ts == self@.at[r - 1].elems(),
                1 <= r <= self@.at.len(),
                c <= col ==> cell_in(ts, 0, col as nat) == cell_in(
                    ts.skip(i as int),
                    c as nat,
                    col as nat,
                ),
                c > col ==> cell_in(ts, 0, col as nat) is None,
            decreases v@.len() - i,
        {
            assert(ts.skip(i as int)[0] == v@[i as int]@);
            assert(ts.skip(i as int).skip(1) =~= ts.skip(i + 1));
            let tc: &'d Element = v[i];
            let covered: bool = tc.is("covered-table-cell");
            if covered || tc.is("table-cell") {
                let reps: usize = count(tc, "number-columns-repeated", MAX_REPEAT);
                if col - c < reps {
                    if !covered && (holds_data(tc) || tc.attr_local("style-name").is_some()) {
                        return Some(tc);
                    }
                    return None;
                }
                c = c + reps;
            }
            i = i + 1;
        }
        None
    }
}

pub open spec fn track_at(rows: RowsView, nrows: u32, i: int) -> Track {
    if 1 <= i <= nrows {
        Track {
            px: if i - 1 < rows.px.len() {
                rows.px[i - 1]
            } else {
                DEFAULT_ROW_PX
            },
            hidden: i - 1 < rows.hidden.len() && rows.hidden[i - 1],
        }
    } else {
        Track { px: DEFAULT_ROW_PX, hidden: false }
    }
}

pub open spec fn row_tracks(rows: RowsView, nrows: u32) -> Seq<Track> {
    Seq::new((nrows + 2) as nat, |i: int| track_at(rows, nrows, i))
}

/// The cell among some that stands in a column, where `c` columns have passed before
/// them.
pub open spec fn cell_in(v: Seq<Tree>, c: nat, col: nat) -> Option<Tree>
    decreases v.len(),
{
    if v.len() == 0 {
        None
    } else if !is_cell(v[0]) {
        cell_in(v.skip(1), c, col)
    } else {
        let next = c + repeats(v[0], "number-columns-repeated"@) as nat;
        if col < next {
            if v[0].name != "covered-table-cell"@ && has_paint(v[0]) {
                Some(v[0])
            } else {
                None
            }
        } else {
            cell_in(v.skip(1), next, col)
        }
    }
}

pub open spec fn cell_at(rows: RowsView, r: u32, col: nat) -> Option<Tree> {
    if 1 <= r <= rows.at.len() {
        cell_in(rows.at[r - 1].elems(), 0, col)
    } else {
        None
    }
}

// ── merges ───────────────────────────────────────────────────────────────────

/// Cells that are one. Rows are counted from one, columns from zero.
#[derive(Clone, Copy, PartialEq, Eq, Debug, Structural)]
pub struct Merge {
    pub r0: u32,
    pub r1: u32,
    pub c0: usize,
    pub c1: usize,
}

/// The merges that the cells of a row open, where `c` columns have passed before them.
pub open spec fn merges_in(
    out: Seq<Merge>,
    v: Seq<Tree>,
    r: u32,
    c: nat,
    nrows: u32,
    ncols: usize,
) -> Seq<Merge>
    decreases v.len(),
{
    if v.len() == 0 || c >= ncols || out.len() >= MAX_MERGES {
        out
    } else if !is_cell(v[0]) {
        merges_in(out, v.skip(1), r, c, nrows, ncols)
    } else {
        merges_in(
            with_merge(out, v[0], r, c, nrows, ncols),
            v.skip(1),
            r,
            c + repeats(v[0], "number-columns-repeated"@) as nat,
            nrows,
            ncols,
        )
    }
}

pub open spec fn with_merge(
    out: Seq<Merge>,
    tc: Tree,
    r: u32,
    c: nat,
    nrows: u32,
    ncols: usize,
) -> Seq<Merge> {
    let cs = count_of(tc, "number-columns-spanned"@, ncols);
    let rs = count_of(tc, "number-rows-spanned"@, nrows as usize);
    if tc.name == "table-cell"@ && (cs > 1 || rs > 1) {
        out.push(
            Merge {
                r0: r,
                r1: least(r + rs - 1, nrows as int) as u32,
                c0: c as usize,
                c1: least(c + cs - 1, ncols - 1) as usize,
            },
        )
    } else {
        out
    }
}

/// The merges that the rows from `r` on open.
pub open spec fn merges_from(
    out: Seq<Merge>,
    rows: RowsView,
    r: u32,
    nrows: u32,
    ncols: usize,
) -> Seq<Merge>
    decreases nrows - r,
{
    if r < 1 || r > nrows || r > rows.at.len() {
        out
    } else {
        let next = merges_in(out, rows.at[r - 1].elems(), r, 0, nrows, ncols);
        if r == nrows {
            next
        } else {
            merges_from(next, rows, (r + 1) as u32, nrows, ncols)
        }
    }
}

impl<'d> Rows<'d> {
    fn row_merges(&self, out: &mut Vec<Merge>, r: u32, nrows: u32, ncols: usize)
        requires
            1 <= r <= self@.at.len(),
            r <= nrows <= MAX_ROWS,
            1 <= ncols <= MAX_COLS,
        ensures
            final(out)@ == merges_in(old(out)@, self@.at[r - 1].elems(), r, 0, nrows, ncols),
    {
        assert(trees(self.at@).len() == self.at@.len());
        let row: &'d Element = self.at[r as usize - 1];
        assert(row@ == self@.at[r - 1]);
        let v: Vec<&'d Element> = row.elems();
        let ghost ts = trees(v@);
        let ghost goal = merges_in(out@, ts, r, 0, nrows, ncols);
        let mut c: usize = 0;
        assert(ts.skip(0) =~= ts);
        let mut i: usize = 0;
        while i < v.len() && c < ncols && out.len() < MAX_MERGES
            invariant
                i <= v@.len(),
                ts == trees(v@),
                c <= MAX_COLS + MAX_REPEAT,
                1 <= r <= nrows <= MAX_ROWS,
                1 <= ncols <= MAX_COLS,
                merges_in(out@, ts.skip(i as int), r, c as nat, nrows, ncols) == goal,
            decreases v@.len() - i,
        {
            assert(ts.skip(i as int)[0] == v@[i as int]@);
            assert(ts.skip(i as int).skip(1) =~= ts.skip(i + 1));
            let tc: &'d Element = v[i];
            let plain: bool = tc.is("table-cell");
            if plain || tc.is("covered-table-cell") {
                if plain {
                    let cs: usize = count(tc, "number-columns-spanned", ncols);
                    let rs: usize = count(tc, "number-rows-spanned", nrows as usize);
                    if cs > 1 || rs > 1 {
                        let end: u32 = r + rs as u32 - 1;
                        let r1: u32 = if end < nrows {
                            end
                        } else {
                            nrows
                        };
                        let right: usize = c + cs - 1;
                        let c1: usize = if right < ncols - 1 {
                            right
                        } else {
                            ncols - 1
                        };
                        out.push(Merge { r0: r, r1, c0: c, c1 });
                    }
                }
                c = c + count(tc, "number-columns-repeated", MAX_REPEAT);
            }
            i = i + 1;
        }
    }

    /// The merges inside the window that is shown.
    pub fn merges(&self, nrows: u32, ncols: usize) -> (out: Vec<Merge>)
        requires
            nrows <= MAX_ROWS,
            nrows <= self@.at.len(),
            1 <= ncols <= MAX_COLS,
        ensures
            out@ == merges_from(Seq::empty(), self@, 1, nrows, ncols),
    {
        let mut out: Vec<Merge> = Vec::new();
        let ghost goal = merges_from(Seq::empty(), self@, 1, nrows, ncols);
        let mut r: u32 = 1;
        while r <= nrows
            invariant
                1 <= r <= nrows + 1,
                nrows <= MAX_ROWS,
                nrows <= self@.at.len(),
                1 <= ncols <= MAX_COLS,
                r <= nrows ==> merges_from(out@, self@, r, nrows, ncols) == goal,
                r > nrows ==> out@ == goal,
            decreases nrows + 1 - r,
        {
            self.row_merges(&mut out, r, nrows, ncols);
            r = r + 1;
        }
        out
    }
}

// ── laws ─────────────────────────────────────────────────────────────────────

/// The used range ends with a row that holds data, or there is none.
pub proof fn law_used_range_ends_with_data(rows: RowsView)
    requires
        rows.wf(),
        rows.at.len() <= MAX_SCAN_ROWS,
    ensures
        rows.used().wf(),
        rows.used().nrows == rows.used().at.len(),
        rows.used().at.len() <= rows.at.len(),
        rows.used().at.len() > 0 ==> row_width_of(rows.used().at.last()) > 0,
        rows.used().at == rows.at.take(rows.used().at.len() as int),
    decreases rows.at.len(),
{
    if rows.at.len() > 0 && row_width_of(rows.at.last()) == 0 {
        let less = RowsView {
            at: rows.at.drop_last(),
            px: rows.px.drop_last(),
            hidden: rows.hidden.drop_last(),
            ..rows
        };
        law_used_range_ends_with_data(less);
        assert(rows.used().at =~= rows.at.take(rows.used().at.len() as int));
    } else {
        assert(rows.at.take(rows.at.len() as int) =~= rows.at);
    }
}

} // verus!
