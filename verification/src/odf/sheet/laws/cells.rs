//! Which cell stands where in a sheet, and what can be read of it.

use vstd::prelude::*;
use crate::chars::{decimal, trimmed};
use crate::highlight::marked;
use crate::html::{
    attr_text, begins, decl, goes_on, group_goes_on, lemma_stays, style_text, Written,
};
use crate::model::words::{holds, lemma_raw_holds, lemma_still_holds};
use crate::model::Align;
use crate::odf::length::{joined_by, px_text};
use crate::odf::sheet::grid::{
    align_by, class_of, clipped, covers, display_of, face_written, faced, first_shown, head_written,
    merge_at, para_texts, place_written, places_written, raw_of, row_written, rows_written,
    shown_count, BookView, FaceView, GridView,
};
use crate::odf::sheet::laws::{grown, law_rows_go_on, lemma_places};
use crate::odf::sheet::rows::{
    cell_at, cell_in, columns_each, columns_one, has_data, is_cell, reach, repeats, row_width_of,
    rows_each, rows_one, with_merge, Merge, RowsView, Track, MAX_COLS, MAX_SCAN_ROWS,
};
use crate::odf::sheet::styles::RulesView;
use crate::odf::sheet::{book_of, law_merges_stay_inside, sheet_walked, SheetInput};
use crate::odf::style::store::Store;
use crate::odf::table::plan::{count_of, with_copies};
use crate::odf::text::laws::words::readable;
use crate::xml::Tree;

verus! {

// ── counts ───────────────────────────────────────────────────────────────────

/// How often a cell, a column or a row stands: as often as it states, once where it
/// states nothing, and no more often than `most`.
pub proof fn law_counts_that_are_stated(e: Tree, attr: Seq<char>, most: usize)
    requires
        most >= 1,
    ensures
        e.attr_u32(attr) is None ==> count_of(e, attr, most) == 1,
        e.attr_u32(attr) == Some(0u32) ==> count_of(e, attr, most) == 1,
        e.attr_u32(attr) is Some && 1 <= e.attr_u32(attr)->0 <= most ==> count_of(e, attr, most)
            == e.attr_u32(attr)->0,
        e.attr_u32(attr) is Some && e.attr_u32(attr)->0 > most ==> count_of(e, attr, most) == most,
{
}

/// The columns that an element of a row takes: none unless it is a cell.
pub open spec fn columns_taken(n: Tree) -> nat {
    if n.name == "table-cell"@ || n.name == "covered-table-cell"@ {
        match n.attr_u32("number-columns-repeated"@) {
            Some(v) => if v < 1 {
                1
            } else if v > 200 {
                200
            } else {
                v as nat
            },
            None => 1,
        }
    } else {
        0
    }
}

/// The columns that stand before the `i`th element of a row.
pub open spec fn columns_before(v: Seq<Tree>, i: int) -> nat
    decreases i,
{
    if i <= 0 {
        0
    } else {
        columns_before(v, i - 1) + columns_taken(v[i - 1])
    }
}

proof fn lemma_columns_before(v: Seq<Tree>, i: int)
    requires
        0 < i <= v.len(),
    ensures
        columns_before(v, i) == columns_taken(v[0]) + columns_before(v.skip(1), i - 1),
    decreases i,
{
    if i > 1 {
        lemma_columns_before(v, i - 1);
        assert(v.skip(1)[i - 2] == v[i - 1]);
    } else {
        assert(columns_before(v, 0) == 0);
        assert(columns_before(v.skip(1), 0) == 0);
    }
}

// ── cells ────────────────────────────────────────────────────────────────────

/// A cell that shows something: it is not covered by another, and it has a value, a
/// formula, text or a style.
pub open spec fn shows(n: Tree) -> bool {
    n.name == "table-cell"@ && (n.attr("value-type"@) is Some || n.attr("value"@) is Some || n.attr(
        "formula"@,
    ) is Some || n.attr("style-name"@) is Some || exists|i: int|
        0 <= i < n.elems().len() && ((#[trigger] n.elems()[i]).name == "p"@ || n.elems()[i].name
            == "h"@ || n.elems()[i].name == "list"@))
}

proof fn lemma_cell_names()
    ensures
        "table-cell"@ != "covered-table-cell"@,
{
    reveal_strlit("table-cell");
    reveal_strlit("covered-table-cell");
    assert("table-cell"@.len() != "covered-table-cell"@.len());
}

proof fn lemma_cell_in(v: Seq<Tree>, c: nat, i: int, col: nat)
    requires
        0 <= i < v.len(),
        c + columns_before(v, i) <= col < c + columns_before(v, i) + columns_taken(v[i]),
    ensures
        shows(v[i]) ==> cell_in(v, c, col) == Some(v[i]),
        !shows(v[i]) ==> cell_in(v, c, col) is None,
    decreases v.len(),
{
    lemma_cell_names();
    if i > 0 {
        lemma_columns_before(v, i);
        assert(v.skip(1)[i - 1] == v[i]);
        let next = c + columns_taken(v[0]);
        lemma_cell_in(v.skip(1), next, i - 1, col);
    } else {
        assert(columns_before(v, 0) == 0);
    }
}

/// A cell stands in every column that it is repeated over, from the one behind all that
/// stand before it: in each of them the row has that cell where it shows something, and
/// none where it does not. No other cell stands there.
pub proof fn law_a_cell_stands_in_each_of_its_columns(rows: RowsView, r: u32, i: int, col: nat)
    requires
        1 <= r <= rows.at.len(),
        0 <= i < rows.at[r - 1].elems().len(),
        ({
            let v = rows.at[r - 1].elems();
            columns_before(v, i) <= col < columns_before(v, i) + columns_taken(v[i])
        }),
    ensures
        shows(rows.at[r - 1].elems()[i]) ==> cell_at(rows, r, col) == Some(
            rows.at[r - 1].elems()[i],
        ),
        !shows(rows.at[r - 1].elems()[i]) ==> cell_at(rows, r, col) is None,
{
    lemma_cell_in(rows.at[r - 1].elems(), 0, i, col);
}

/// Two columns that one cell is repeated over show the same.
pub proof fn law_repeated_columns_are_alike(rows: RowsView, r: u32, i: int, c: nat, d: nat)
    requires
        1 <= r <= rows.at.len(),
        0 <= i < rows.at[r - 1].elems().len(),
        ({
            let v = rows.at[r - 1].elems();
            &&& columns_before(v, i) <= c < columns_before(v, i) + columns_taken(v[i])
            &&& columns_before(v, i) <= d < columns_before(v, i) + columns_taken(v[i])
        }),
    ensures
        cell_at(rows, r, c) == cell_at(rows, r, d),
{
    law_a_cell_stands_in_each_of_its_columns(rows, r, i, c);
    law_a_cell_stands_in_each_of_its_columns(rows, r, i, d);
}

/// Behind the last cell of a row there is none, and none outside the rows.
pub proof fn law_no_cell_outside(rows: RowsView, r: u32, col: nat)
    ensures
        r < 1 || r > rows.at.len() ==> cell_at(rows, r, col) is None,
        1 <= r <= rows.at.len() && col >= columns_before(
            rows.at[r - 1].elems(),
            rows.at[r - 1].elems().len() as int,
        ) ==> cell_at(rows, r, col) is None,
{
    if 1 <= r <= rows.at.len() {
        let v = rows.at[r - 1].elems();
        if col >= columns_before(v, v.len() as int) {
            lemma_past_the_row(v, 0, col);
        }
    }
}

proof fn lemma_past_the_row(v: Seq<Tree>, c: nat, col: nat)
    requires
        col >= c + columns_before(v, v.len() as int),
    ensures
        cell_in(v, c, col) is None,
    decreases v.len(),
{
    lemma_cell_names();
    if v.len() > 0 {
        lemma_columns_before(v, v.len() as int);
        lemma_past_the_row(v.skip(1), c + columns_taken(v[0]), col);
    }
}

// ── the used range ───────────────────────────────────────────────────────────

proof fn lemma_reach(v: Seq<Tree>, c: nat, last: nat, i: int)
    requires
        0 <= i < v.len(),
        v[i].name == "covered-table-cell"@ || has_data(v[i]) && v[i].name == "table-cell"@,
        c + columns_before(v, i) <= MAX_COLS,
    ensures
        reach(v, c, last) >= c + columns_before(v, i) + columns_taken(v[i]),
    decreases v.len(),
{
    lemma_cell_names();
    if i > 0 {
        lemma_columns_before(v, i);
        assert(v.skip(1)[i - 1] == v[i]);
        let next = c + columns_taken(v[0]);
        assert(c <= MAX_COLS);
        let l = if is_cell(v[0]) && (v[0].name == "covered-table-cell"@ || has_data(v[0])) {
            next
        } else {
            last
        };
        lemma_reach(v.skip(1), next, l, i - 1);
    } else {
        assert(columns_before(v, 0) == 0);
        let next = c + columns_taken(v[0]);
        lemma_reach_grows(v.skip(1), next, next);
    }
}

proof fn lemma_reach_grows(v: Seq<Tree>, c: nat, last: nat)
    requires
        last <= c,
    ensures
        reach(v, c, last) >= last,
    decreases v.len(),
{
    if v.len() == 0 || c > MAX_COLS {
    } else if !is_cell(v[0]) {
        lemma_reach_grows(v.skip(1), c, last);
    } else {
        let next = c + repeats(v[0], "number-columns-repeated"@) as nat;
        lemma_reach_grows(
            v.skip(1),
            next,
            if v[0].name == "covered-table-cell"@ || has_data(v[0]) {
                next
            } else {
                last
            },
        );
    }
}

/// A row is as wide as its data reaches: every column of a cell with a value, a formula or
/// text is in it, as far as a sheet has columns.
pub proof fn law_a_row_reaches_its_data(row: Tree, i: int, col: nat)
    requires
        0 <= i < row.elems().len(),
        ({
            let n = row.elems()[i];
            n.name == "table-cell"@ && (n.attr("value-type"@) is Some || n.attr("value"@) is Some
                || n.attr("formula"@) is Some || exists|j: int|
                0 <= j < n.elems().len() && ((#[trigger] n.elems()[j]).name == "p"@
                    || n.elems()[j].name == "h"@ || n.elems()[j].name == "list"@))
        }),
        columns_before(row.elems(), i) <= col < columns_before(row.elems(), i) + columns_taken(
            row.elems()[i],
        ),
        col < 200,
    ensures
        row_width_of(row) > col,
{
    lemma_reach(row.elems(), 0, 0, i);
}

// ── rows ─────────────────────────────────────────────────────────────────────

proof fn lemma_copies<T>(v: Seq<T>, x: T, n: nat)
    ensures
        with_copies(v, x, n).len() == v.len() + n,
        begins(v, with_copies(v, x, n)),
        forall|k: int| v.len() <= k < v.len() + n ==> #[trigger] with_copies(v, x, n)[k] == x,
    decreases n,
{
    if n > 0 {
        lemma_copies(v, x, (n - 1) as nat);
    }
}

/// A row stands as often as it states: behind the rows before it come so many that are
/// it, as long as there is room, and the rows before it stay.
pub proof fn law_a_row_stands_as_often_as_it_states(acc: RowsView, store: Store, n: Tree, k: int)
    requires
        acc.wf(),
        acc.at.len() <= MAX_SCAN_ROWS,
    ensures
        ({
            let t = acc.with_row(store, n);
            let often = match n.attr_u32("number-rows-repeated"@) {
                Some(v) => if v < 1 {
                    1int
                } else {
                    v as int
                },
                None => 1,
            };
            &&& t.wf()
            &&& t.at.len() == (if acc.at.len() + often < 20_000 {
                acc.at.len() + often
            } else {
                20_000
            })
            &&& 0 <= k < acc.at.len() ==> t.at[k] == acc.at[k] && t.px[k] == acc.px[k]
                && t.hidden[k] == acc.hidden[k]
            &&& acc.at.len() <= k < t.at.len() ==> t.at[k] == n && (t.hidden[k] <==> n.attr(
                "visibility"@,
            ) == Some("collapse"@) || n.attr("visibility"@) == Some("filter"@))
            &&& t.ncols >= acc.ncols && t.ncols >= row_width_of(n)
            &&& t.ncols == acc.ncols || t.ncols == row_width_of(n)
        }),
{
    let reps = if count_of(n, "number-rows-repeated"@, MAX_SCAN_ROWS) < MAX_SCAN_ROWS
        - acc.at.len() {
        count_of(n, "number-rows-repeated"@, MAX_SCAN_ROWS) as nat
    } else {
        (MAX_SCAN_ROWS - acc.at.len()) as nat
    };
    lemma_copies(acc.at, n, reps);
    lemma_copies(acc.px, crate::odf::sheet::rows::row_px(store, n), reps);
    lemma_copies(acc.hidden, crate::odf::sheet::rows::is_hidden(n), reps);
}

/// The rows of a table come one behind the other: what follows a row leaves it where it
/// is. Rows inside a group, a header or a body of rows count like those beside it.
pub proof fn law_rows_keep_their_order(
    acc: RowsView,
    store: Store,
    v: Seq<Tree>,
    below: nat,
)
    requires
        acc.wf(),
        acc.at.len() <= MAX_SCAN_ROWS,
    ensures
        rows_each(acc, store, v, below).wf(),
        rows_each(acc, store, v, below).at.len() <= MAX_SCAN_ROWS,
        begins(acc.at, rows_each(acc, store, v, below).at),
        rows_each(acc, store, v, below).ncols >= acc.ncols,
        v.len() > 0 && acc.at.len() < MAX_SCAN_ROWS && v[0].name == "table-row"@ ==> begins(
            acc.with_row(store, v[0]).at,
            rows_each(acc, store, v, below).at,
        ),
        v.len() > 0 && below > 0 && acc.at.len() < MAX_SCAN_ROWS && (v[0].name
            == "table-header-rows"@ || v[0].name == "table-rows"@ || v[0].name
            == "table-row-group"@) ==> begins(
            rows_each(acc, store, v[0].elems(), (below - 1) as nat).at,
            rows_each(acc, store, v, below).at,
        ),
    decreases below, v.len(),
{
    if v.len() == 0 || acc.at.len() >= MAX_SCAN_ROWS {
    } else {
        let next = rows_one(acc, store, v[0], below);
        lemma_row_names();
        if v[0].name == "table-row"@ {
            law_a_row_stands_as_often_as_it_states(acc, store, v[0], 0);
            assert forall|k: int| 0 <= k < acc.at.len() implies #[trigger] next.at[k]
                == acc.at[k] by {
                law_a_row_stands_as_often_as_it_states(acc, store, v[0], k);
            }
        } else if below > 0 && (v[0].name == "table-header-rows"@ || v[0].name == "table-rows"@
            || v[0].name == "table-row-group"@) {
            law_rows_keep_their_order(acc, store, v[0].elems(), (below - 1) as nat);
        }
        law_rows_keep_their_order(next, store, v.skip(1), below);
        let all = rows_each(acc, store, v, below);
        assert forall|k: int| 0 <= k < acc.at.len() implies #[trigger] all.at[k] == acc.at[k] by {
            assert(next.at[k] == acc.at[k]);
        }
    }
}

proof fn lemma_row_names()
    ensures
        "table-row"@ != "table-rows"@ && "table-row"@ != "table-header-rows"@ && "table-row"@
            != "table-row-group"@,
{
    reveal_strlit("table-row");
    reveal_strlit("table-rows");
    reveal_strlit("table-header-rows");
    reveal_strlit("table-row-group");
    assert("table-row"@.len() == 9 && "table-rows"@.len() == 10 && "table-header-rows"@.len() == 17
        && "table-row-group"@.len() == 15);
}

/// Columns stand as often as they state, one behind the other, inside a group as beside
/// it.
pub proof fn law_columns_keep_their_order(acc: Seq<Tree>, v: Seq<Tree>, below: nat)
    requires
        acc.len() <= MAX_COLS,
    ensures
        columns_each(acc, v, below).len() <= MAX_COLS,
        begins(acc, columns_each(acc, v, below)),
        v.len() > 0 && v[0].name == "table-column"@ ==> ({
            let often = match v[0].attr_u32("number-columns-repeated"@) {
                Some(n) => if n < 1 {
                    1int
                } else if n > 200 {
                    200
                } else {
                    n as int
                },
                None => 1,
            };
            forall|k: int|
                acc.len() <= k < acc.len() + often && k < 200 ==> k < columns_each(
                    acc,
                    v,
                    below,
                ).len() && #[trigger] columns_each(acc, v, below)[k] == v[0]
        }),
        v.len() > 0 && below > 0 && (v[0].name == "table-columns"@ || v[0].name
            == "table-header-columns"@ || v[0].name == "table-column-group"@) && acc.len()
            < MAX_COLS ==> begins(
            columns_each(acc, v[0].elems(), (below - 1) as nat),
            columns_each(acc, v, below),
        ),
    decreases below, v.len(),
{
    if v.len() == 0 || acc.len() >= MAX_COLS {
    } else {
        let next = columns_one(acc, v[0], below);
        lemma_column_names();
        if v[0].name == "table-column"@ {
            let n = repeats(v[0], "number-columns-repeated"@) as int;
            lemma_copies(
                acc,
                v[0],
                (if n < MAX_COLS - acc.len() {
                    n
                } else {
                    MAX_COLS - acc.len()
                }) as nat,
            );
        } else if below > 0 && (v[0].name == "table-columns"@ || v[0].name
            == "table-header-columns"@ || v[0].name == "table-column-group"@) {
            law_columns_keep_their_order(acc, v[0].elems(), (below - 1) as nat);
        }
        law_columns_keep_their_order(next, v.skip(1), below);
        let all = columns_each(acc, v, below);
        assert forall|k: int| 0 <= k < acc.len() implies #[trigger] all[k] == acc[k] by {
            assert(next[k] == acc[k]);
        }
    }
}

proof fn lemma_column_names()
    ensures
        "table-column"@ != "table-columns"@ && "table-column"@ != "table-header-columns"@
            && "table-column"@ != "table-column-group"@,
{
    reveal_strlit("table-column");
    reveal_strlit("table-columns");
    reveal_strlit("table-header-columns");
    reveal_strlit("table-column-group");
    assert("table-column"@.len() == 12 && "table-columns"@.len() == 13
        && "table-header-columns"@.len() == 20 && "table-column-group"@.len() == 18);
}

// ── merges ───────────────────────────────────────────────────────────────────

/// A cell that spans rows or columns opens a merge of just the places that it spans, as
/// far as the sheet goes; one that spans neither opens none, and a covered cell never
/// does.
pub proof fn law_what_a_cell_spans(
    out: Seq<Merge>,
    tc: Tree,
    r: u32,
    c: nat,
    nrows: u32,
    ncols: usize,
    y: int,
    x: int,
)
    requires
        1 <= r <= nrows <= 200,
        c < ncols <= 200,
    ensures
        ({
            let down = tc.attr_u32("number-rows-spanned"@);
            let across = tc.attr_u32("number-columns-spanned"@);
            let rs = if down is Some && down->0 >= 1 {
                down->0 as int
            } else {
                1
            };
            let cs = if across is Some && across->0 >= 1 {
                across->0 as int
            } else {
                1
            };
            let t = with_merge(out, tc, r, c, nrows, ncols);
            if tc.name == "table-cell"@ && (rs > 1 && nrows > 1 || cs > 1 && ncols > 1) {
                &&& t.len() == out.len() + 1
                &&& t.drop_last() == out
                &&& covers(t.last(), y, x) <==> r <= y < r + rs && y <= nrows && c <= x < c + cs
                    && x < ncols
            } else {
                t == out
            }
        }),
{
    let t = with_merge(out, tc, r, c, nrows, ncols);
    if t != out {
        assert(t.drop_last() =~= out);
    }
}

/// The merge that covers a place is the first that does, and there is none where none
/// does.
pub proof fn law_the_first_merge_counts(v: Seq<Merge>, r: int, c: int)
    ensures
        merge_at(v, r, c) is None <==> forall|i: int|
            0 <= i < v.len() ==> !covers(#[trigger] v[i], r, c),
        merge_at(v, r, c) is Some ==> exists|i: int|
            0 <= i < v.len() && #[trigger] v[i] == merge_at(v, r, c)->0 && covers(v[i], r, c)
                && forall|j: int| 0 <= j < i ==> !covers(#[trigger] v[j], r, c),
    decreases v.len(),
{
    if v.len() > 0 && !covers(v[0], r, c) {
        let w = v.skip(1);
        law_the_first_merge_counts(w, r, c);
        if merge_at(w, r, c) is None {
            assert forall|i: int| 0 <= i < v.len() implies !covers(#[trigger] v[i], r, c) by {
                if i > 0 {
                    assert(w[i - 1] == v[i]);
                }
            }
        } else {
            let i = choose|i: int|
                0 <= i < w.len() && #[trigger] w[i] == merge_at(w, r, c)->0 && covers(w[i], r, c)
                    && forall|j: int| 0 <= j < i ==> !covers(#[trigger] w[j], r, c);
            assert(v[i + 1] == w[i]);
            assert forall|j: int| 0 <= j < i + 1 implies !covers(#[trigger] v[j], r, c) by {
                if j > 0 {
                    assert(w[j - 1] == v[j]);
                }
            }
        }
    }
}

// ── what a cell says ─────────────────────────────────────────────────────────

/// The text of a cell is that of its paragraphs, a line for each: a cell of one paragraph
/// has its text, one more paragraph is one more line, and what is no paragraph adds
/// nothing. A cell whose text is blank has none.
pub proof fn law_lines_of_a_cell(n: Tree, m: Tree, p: Tree)
    requires
        m.elems() == n.elems().push(p),
    ensures
        n.elems().len() == 0 ==> display_of(n) is None,
        n.elems().len() == 0 && (p.name == "p"@ || p.name == "h"@) ==> display_of(m) == (if trimmed(
            p.inner_text(),
        ).len() > 0 {
            Some(p.inner_text())
        } else {
            None
        }),
        display_of(n) is Some && (p.name == "p"@ || p.name == "h"@) ==> {
            let t = display_of(n)->0 + seq!['\n'] + p.inner_text();
            display_of(m) == (if trimmed(t).len() > 0 {
                Some(t)
            } else {
                None
            })
        },
        p.name != "p"@ && p.name != "h"@ ==> display_of(m) == display_of(n),
{
    let v = n.elems();
    let w = m.elems();
    assert(w.drop_last() =~= v);
    assert(w.last() == p);
    let a = para_texts(v);
    assert(trimmed(Seq::<char>::empty()).len() == 0);
    if p.name == "p"@ || p.name == "h"@ {
        let b = para_texts(w);
        assert(b == a.push(p.inner_text()));
        assert(b.drop_last() =~= a);
        if v.len() == 0 {
            assert(a.len() == 0);
            assert(joined_by(b, '\n') == p.inner_text());
        }
        if display_of(n) is Some {
            assert(a.len() > 0);
            assert(joined_by(b, '\n') == joined_by(a, '\n') + seq!['\n'] + p.inner_text());
        }
    }
}

/// A text of a cell is shown whole up to a length, and past it so much of it with an
/// ellipsis behind.
pub proof fn law_long_texts_are_cut(t: Seq<char>)
    ensures
        t.len() <= 200 ==> clipped(t) == t,
        t.len() > 200 ==> clipped(t).len() == 201 && clipped(t).last() == '…' && forall|i: int|
            0 <= i < 200 ==> #[trigger] clipped(t)[i] == t[i],
{
}

/// Numbers, percentages, amounts of money, dates and times stand on the right, truth
/// values in the middle, and all else where text does. The value that a cell stores is in
/// one of four attributes, and the first of them counts.
pub proof fn law_values_by_kind(n: Tree, kind: Option<Seq<char>>)
    ensures
        align_by(kind) == Some(Align::Right) <==> kind == Some("float"@) || kind == Some(
            "percentage"@,
        ) || kind == Some("currency"@) || kind == Some("date"@) || kind == Some("time"@),
        align_by(kind) == Some(Align::Center) <==> kind == Some("boolean"@),
        align_by(kind) is None || align_by(kind) == Some(Align::Right) || align_by(kind) == Some(
            Align::Center,
        ),
        n.attr("value"@) is Some ==> raw_of(n) == n.attr("value"@),
        n.attr("value"@) is None && n.attr("date-value"@) is Some ==> raw_of(n) == n.attr(
            "date-value"@,
        ),
        n.attr("value"@) is None && n.attr("date-value"@) is None && n.attr("time-value"@) is Some
            ==> raw_of(n) == n.attr("time-value"@),
        n.attr("value"@) is None && n.attr("date-value"@) is None && n.attr("time-value"@) is None
            ==> raw_of(n) == n.attr("boolean-value"@),
{
    reveal_strlit("float");
    reveal_strlit("percentage");
    reveal_strlit("currency");
    reveal_strlit("date");
    reveal_strlit("time");
    reveal_strlit("boolean");
    assert("boolean"@[0] == 'b');
    assert("float"@[0] == 'f' && "percentage"@[0] == 'p' && "currency"@[0] == 'c' && "date"@[0]
        == 'd' && "time"@[0] == 't');
}

// ── what can be read ─────────────────────────────────────────────────────────

proof fn lemma_face_reads(
    g: GridView,
    f: FaceView,
    rows: usize,
    cols: usize,
    terms: Seq<Seq<char>>,
)
    requires
        !face_written(g, f, rows, cols, terms).w.full,
    ensures
        readable(face_written(g, f, rows, cols, terms).w.text, f.text, terms),
{
    broadcast use group_goes_on;

    let w0 = g.w.opened(
        "td"@,
        attr_text("class"@, class_of(f)) + crate::odf::table::span_attr("colspan"@, cols)
            + crate::odf::table::span_attr("rowspan"@, rows),
    );
    let w1 = if f.inner {
        w0.opened("span"@, attr_text("class"@, "xr"@))
    } else {
        w0
    };
    let m = marked(f.text, terms, g.marks);
    let w2 = w1.raw(m.0);
    let h = face_written(g, f, rows, cols, terms);
    assert(!w2.full);
    lemma_raw_holds(w1, m.0);
    lemma_stays(w2);
    assert(goes_on(w2, h.w));
    lemma_still_holds(w2, h.w, m.0);
}

proof fn lemma_still_readable(a: Written, b: Written, t: Seq<char>, terms: Seq<Seq<char>>)
    requires
        goes_on(a, b),
        readable(a.text, t, terms),
    ensures
        readable(b.text, t, terms),
{
    let n = choose|n: u64| holds(a.text, (#[trigger] marked(t, terms, n)).0);
    lemma_still_holds(a, b, marked(t, terms, n).0);
}

/// Whether a place of the grid is drawn with the cell that stands in `row` and `col`: the
/// place is that cell's own and no merge covers it, or it is the first visible place of a
/// merge that the cell opens.
pub open spec fn draws(b: BookView, r: int, c: int, row: u32, col: nat) -> bool {
    &&& !b.cols[c].hidden
    &&& match merge_at(b.merges, r, c) {
        None => row == r && col == c,
        Some(m) => {
            &&& row == m.r0 && col == m.c0
            &&& m.r0 <= r <= m.r1 && m.c0 <= c <= m.c1
            &&& !b.tracks[r].hidden
            &&& forall|y: int| m.r0 <= y < r ==> (#[trigger] b.tracks[y]).hidden
            &&& forall|x: int| m.c0 <= x < c ==> (#[trigger] b.cols[x]).hidden
        },
    }
}

proof fn lemma_first_shown(t: Seq<Track>, a: int, z: int, k: int)
    requires
        0 <= a <= k <= z,
        k < t.len(),
        !t[k].hidden,
        forall|y: int| a <= y < k ==> (#[trigger] t[y]).hidden,
    ensures
        first_shown(t, a, z) == k,
    decreases k - a,
{
    if a < k {
        assert(t[a].hidden);
        lemma_first_shown(t, a + 1, z, k);
    }
}

proof fn lemma_place_reads(b: BookView, g: GridView, r: int, c: int, row: u32, col: nat, t: Seq<char>)
    requires
        b.wf(),
        1 <= r <= b.nrows,
        0 <= c < b.ncols,
        draws(b, r, c, row, col),
        cell_at(b.rows, row, col) is Some,
        display_of(cell_at(b.rows, row, col)->0) == Some(t),
        !place_written(b, g, r, c).w.full,
    ensures
        readable(place_written(b, g, r, c).w.text, clipped(t), b.terms),
{
    let n = cell_at(b.rows, row, col);
    let f = faced(b, g, n, col as int);
    assert(f.1.text == clipped(t));
    match merge_at(b.merges, r, c) {
        Some(m) => {
            lemma_first_shown(b.tracks, m.r0 as int, m.r1 as int, r);
            lemma_first_shown(b.cols, m.c0 as int, m.c1 as int, c);
            lemma_face_reads(
                f.0,
                f.1,
                shown_count(b.tracks, m.r0 as int, m.r1 as int) as usize,
                shown_count(b.cols, m.c0 as int, m.c1 as int) as usize,
                b.terms,
            );
        },
        None => {
            lemma_face_reads(f.0, f.1, 1, 1, b.terms);
        },
    }
}

proof fn lemma_places_read(
    b: BookView,
    g: GridView,
    r: int,
    from: int,
    c: int,
    row: u32,
    col: nat,
    t: Seq<char>,
)
    requires
        b.wf(),
        1 <= r <= b.nrows,
        0 <= from <= c < b.ncols,
        draws(b, r, c, row, col),
        cell_at(b.rows, row, col) is Some,
        display_of(cell_at(b.rows, row, col)->0) == Some(t),
        !places_written(b, g, r, from).w.full,
    ensures
        readable(places_written(b, g, r, from).w.text, clipped(t), b.terms),
    decreases c - from,
{
    let next = place_written(b, g, r, from);
    let end = places_written(b, g, r, from);
    assert(!g.w.full);
    lemma_places(b, next, r, from + 1);
    assert(goes_on(next.w, end.w)) by {
        reveal(grown);
    }
    assert(!next.w.full) by {
        reveal(goes_on);
    }
    if from == c {
        lemma_place_reads(b, g, r, c, row, col, t);
        lemma_still_readable(next.w, end.w, clipped(t), b.terms);
    } else {
        lemma_places_read(b, next, r, from + 1, c, row, col, t);
    }
}

proof fn lemma_rows_read(
    b: BookView,
    g: GridView,
    from: int,
    r: int,
    c: int,
    row: u32,
    col: nat,
    t: Seq<char>,
)
    requires
        b.wf(),
        1 <= from <= r <= b.nrows,
        0 <= c < b.ncols,
        !b.tracks[r].hidden,
        draws(b, r, c, row, col),
        cell_at(b.rows, row, col) is Some,
        display_of(cell_at(b.rows, row, col)->0) == Some(t),
        !rows_written(b, g, from).w.full,
    ensures
        readable(rows_written(b, g, from).w.text, clipped(t), b.terms),
    decreases r - from,
{
    broadcast use group_goes_on;

    let next = row_written(b, g, from);
    let end = rows_written(b, g, from);
    law_rows_go_on(b, next, from + 1);
    assert(goes_on(next.w, end.w)) by {
        reveal(grown);
    }
    assert(!next.w.full) by {
        reveal(goes_on);
    }
    if from == r {
        let w = g.w.opened(
            "tr"@,
            style_text(decl("height"@, px_text(b.tracks[r].px))),
        ).opened("th"@, attr_text("class"@, "xl-rn"@)).text(decimal(r as nat)).closed();
        let h = places_written(b, GridView { w, ..g }, r, 0);
        assert(next.w == h.w.closed());
        assert(goes_on(h.w, next.w));
        assert(!h.w.full) by {
            reveal(goes_on);
        }
        lemma_places_read(b, GridView { w, ..g }, r, 0, c, row, col, t);
        lemma_still_readable(h.w, end.w, clipped(t), b.terms);
    } else {
        lemma_rows_read(b, next, from + 1, r, c, row, col, t);
    }
}

/// On a sheet that is not cut short, the text of every cell can be read, in each of the
/// visible columns that the cell is repeated over and in each visible row that its row is
/// repeated over; and so can the text of a merged cell, in the first visible place of its
/// merge.
pub proof fn law_a_sheet_says_what_its_cells_say(
    i: SheetInput,
    table: Tree,
    cap: nat,
    r: u32,
    c: nat,
    row: u32,
    col: nat,
    j: int,
    t: Seq<char>,
)
    requires
        ({
            let b = book_of(i, table);
            &&& 1 <= r <= b.nrows && c < b.ncols
            &&& 1 <= row <= b.rows.at.len()
            &&& !b.tracks[r as int].hidden
            &&& draws(b, r as int, c as int, row, col)
            &&& {
                let v = b.rows.at[row - 1].elems();
                &&& 0 <= j < v.len() && v[j].name == "table-cell"@
                &&& columns_before(v, j) <= col < columns_before(v, j) + columns_taken(v[j])
                &&& display_of(v[j]) == Some(t)
            }
        }),
        !sheet_walked(i, table, cap).w.full,
    ensures
        readable(sheet_walked(i, table, cap).w.text, clipped(t), i.terms),
{
    broadcast use group_goes_on;

    let b = book_of(i, table);
    law_merges_stay_inside(Seq::empty(), b.rows, 1, b.nrows, b.ncols);
    assert(b.wf());
    let v = b.rows.at[row - 1].elems();
    lemma_display_shows(v[j]);
    law_a_cell_stands_in_each_of_its_columns(b.rows, row, j, col);
    let start = GridView {
        w: head_written(Written::fresh(cap), b.cols),
        marks: 0,
        styles: RulesView::none(),
        missing: false,
        asked: Seq::empty(),
    };
    let g = rows_written(b, start, 1);
    let end = sheet_walked(i, table, cap);
    assert(end.w == g.w.closed().closed().closed().closed());
    assert(goes_on(g.w, end.w));
    assert(!g.w.full) by {
        reveal(goes_on);
    }
    lemma_rows_read(b, start, 1, r as int, c as int, row, col, t);
    lemma_still_readable(g.w, end.w, clipped(t), b.terms);
}

proof fn lemma_display_shows(n: Tree)
    requires
        n.name == "table-cell"@,
        display_of(n) is Some,
    ensures
        shows(n),
{
    lemma_texts_have_paragraphs(n.elems());
    assert(trimmed(Seq::<char>::empty()).len() == 0);
    if para_texts(n.elems()).len() == 0 {
        assert(joined_by(para_texts(n.elems()), '\n') == Seq::<char>::empty());
    }
}

proof fn lemma_texts_have_paragraphs(v: Seq<Tree>)
    ensures
        para_texts(v).len() > 0 ==> exists|i: int|
            0 <= i < v.len() && ((#[trigger] v[i]).name == "p"@ || v[i].name == "h"@),
    decreases v.len(),
{
    if v.len() > 0 {
        lemma_texts_have_paragraphs(v.drop_last());
        let d = v.drop_last();
        if v.last().name == "p"@ || v.last().name == "h"@ {
            assert(v[v.len() - 1].name == "p"@ || v[v.len() - 1].name == "h"@);
        } else if para_texts(d).len() > 0 {
            let i = choose|i: int|
                0 <= i < d.len() && ((#[trigger] d[i]).name == "p"@ || d[i].name == "h"@);
            assert(v[i] == d[i]);
        }
    }
}

/// What is hidden is not written: a row leaves no trace, nor does a place of a hidden
/// column, nor a place that a merge covers but for its first visible one.
pub proof fn law_what_is_hidden_is_not_written(b: BookView, g: GridView, r: int, c: int)
    ensures
        b.tracks[r].hidden ==> row_written(b, g, r) == g,
        b.cols[c].hidden ==> place_written(b, g, r, c) == g,
        (merge_at(b.merges, r, c) matches Some(m) ==> !(r == first_shown(
            b.tracks,
            m.r0 as int,
            m.r1 as int,
        ) && c == first_shown(b.cols, m.c0 as int, m.c1 as int))
            ==> place_written(b, g, r, c) == g),
{
}

} // verus!
