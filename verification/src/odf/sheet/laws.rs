//! What writing a grid keeps, whatever the sheet holds.

use vstd::prelude::*;
use crate::chars::decimal;
use crate::html::{
    attr_text, begins, decl, goes_on, group_goes_on, lemma_stays, style_text, Written,
};
use crate::odf::length::px_text;
use crate::odf::sheet::{book_of, sheet_walked, SheetInput};
use crate::odf::sheet::grid::{
    face_written, faced, head_written, letters_written, merge_at, place_written, places_written,
    row_written, rows_written, shown_count, widths_written, BookView, FaceView, GridView,
};
use crate::odf::sheet::rows::{cell_at, default_style, Track};
use crate::odf::sheet::styles::RulesView;
use crate::odf::style::Family;
use crate::xml::Tree;

pub mod cells;
pub mod looks;
pub mod values;

verus! {

/// What a step keeps: what has been written and asked for stays, and so does the memory
/// of a missing value.
#[verifier::opaque]
pub open spec fn grown(g: GridView, h: GridView) -> bool {
    &&& goes_on(g.w, h.w)
    &&& begins(g.asked, h.asked)
    &&& g.missing ==> h.missing
}

broadcast proof fn lemma_grown_on(a: GridView, b: GridView, c: GridView)
    requires
        #[trigger] grown(a, b),
        #[trigger] grown(b, c),
    ensures
        grown(a, c),
{
    broadcast use group_goes_on;

    reveal(grown);
    assert forall|k: int| 0 <= k < a.asked.len() implies #[trigger] c.asked[k] == a.asked[k] by {
        assert(b.asked[k] == a.asked[k]);
    }
}

proof fn lemma_same(g: GridView)
    ensures
        grown(g, g),
{
    reveal(grown);
    lemma_stays(g.w);
}

proof fn lemma_faced(b: BookView, g: GridView, n: Option<Tree>, c: int)
    ensures
        grown(g, faced(b, g, n, c).0),
{
    reveal(grown);
    lemma_stays(g.w);
}

proof fn lemma_face(g: GridView, f: FaceView, rows: usize, cols: usize, terms: Seq<Seq<char>>)
    ensures
        grown(g, face_written(g, f, rows, cols, terms)),
{
    broadcast use group_goes_on;

    reveal(grown);
}

proof fn lemma_place(b: BookView, g: GridView, r: int, c: int)
    ensures
        grown(g, place_written(b, g, r, c)),
{
    broadcast use lemma_grown_on;

    lemma_same(g);
    if !b.cols[c].hidden {
        match merge_at(b.merges, r, c) {
            Some(m) => {
                let n = cell_at(b.rows, m.r0, m.c0 as nat);
                lemma_faced(b, g, n, m.c0 as int);
                let f = faced(b, g, n, m.c0 as int);
                lemma_face(
                    f.0,
                    f.1,
                    shown_count(b.tracks, m.r0 as int, m.r1 as int) as usize,
                    shown_count(b.cols, m.c0 as int, m.c1 as int) as usize,
                    b.terms,
                );
            },
            None => {
                let n = cell_at(b.rows, r as u32, c as nat);
                lemma_faced(b, g, n, c);
                let f = faced(b, g, n, c);
                lemma_face(f.0, f.1, 1, 1, b.terms);
            },
        }
    }
}

proof fn lemma_places(b: BookView, g: GridView, r: int, c: int)
    ensures
        grown(g, places_written(b, g, r, c)),
    decreases b.ncols - c,
{
    broadcast use lemma_grown_on;

    if c >= b.ncols || g.w.full {
        lemma_same(g);
    } else {
        lemma_place(b, g, r, c);
        lemma_places(b, place_written(b, g, r, c), r, c + 1);
    }
}

proof fn lemma_row(b: BookView, g: GridView, r: int)
    ensures
        grown(g, row_written(b, g, r)),
{
    broadcast use group_goes_on;

    lemma_same(g);
    if !b.tracks[r].hidden {
        let w = g.w.opened(
            "tr"@,
            style_text(decl("height"@, px_text(b.tracks[r].px))),
        ).opened("th"@, attr_text("class"@, "xl-rn"@)).text(decimal(r as nat)).closed();
        lemma_places(b, GridView { w, ..g }, r, 0);
        reveal(grown);
    }
}

/// A cell that states a style shows the same in every column, and one that states none
/// has the style that its column states for its cells.
pub proof fn law_a_column_styles_the_cells_that_state_no_style(
    b: BookView,
    g: GridView,
    n: Tree,
    c: int,
    d: int,
)
    ensures
        n.attr("style-name"@) is Some ==> faced(b, g, Some(n), c) == faced(b, g, Some(n), d),
        n.attr("style-name"@) is None ==> {
            let name = default_style(b.columns, c);
            faced(b, g, Some(n), c).1.style == (if name.len() > 0 {
                g.styles.number(name, b.store.resolved(Family::TableCell, name))
            } else {
                None
            })
        },
{
}

/// Rows are written behind what was written before, within the same bound, and no
/// question that was asked is forgotten.
pub proof fn law_rows_go_on(b: BookView, g: GridView, r: int)
    ensures
        grown(g, rows_written(b, g, r)),
    decreases b.nrows - r + 1,
{
    broadcast use lemma_grown_on;

    if r > b.nrows || g.w.full {
        lemma_same(g);
    } else {
        lemma_row(b, g, r);
        law_rows_go_on(b, row_written(b, g, r), r + 1);
    }
}

proof fn lemma_widths(w: Written, cols: Seq<Track>)
    ensures
        goes_on(w, widths_written(w, cols)),
    decreases cols.len(),
{
    broadcast use group_goes_on;

    lemma_stays(w);
    if cols.len() > 0 {
        lemma_widths(w, cols.drop_last());
    }
}

proof fn lemma_letters(w: Written, cols: Seq<Track>)
    ensures
        goes_on(w, letters_written(w, cols)),
    decreases cols.len(),
{
    broadcast use group_goes_on;

    lemma_stays(w);
    if cols.len() > 0 {
        lemma_letters(w, cols.drop_last());
    }
}

proof fn lemma_head(w: Written, cols: Seq<Track>)
    ensures
        goes_on(w, head_written(w, cols)),
{
    broadcast use group_goes_on;

    let table = w.opened("div"@, attr_text("class"@, "xl-doc"@)).opened(
        "div"@,
        attr_text("class"@, "xl-scroll"@),
    ).opened("div"@, attr_text("class"@, "xl-grid"@)).opened(
        "table"@,
        attr_text("class"@, "xl-sheet"@),
    );
    let a = table.opened("colgroup"@, Seq::empty()).void("col"@, attr_text("class"@, "xl-gut"@));
    lemma_widths(a, cols);
    let b = widths_written(a, cols).closed();
    let c = b.opened("tr"@, Seq::empty()).opened("th"@, Seq::empty()).closed();
    lemma_letters(c, cols);
    assert(goes_on(w, a));
    assert(goes_on(a, c));
}

/// Whatever a sheet holds, its preview is within the bytes that it may have.
pub proof fn law_a_sheet_stays_within_bounds(i: SheetInput, table: Tree, cap: nat)
    ensures
        sheet_walked(i, table, cap).w.cap == cap,
        sheet_walked(i, table, cap).w.used <= cap,
{
    broadcast use group_goes_on;

    let b = book_of(i, table);
    let none = Written::fresh(cap);
    let start = GridView {
        w: head_written(none, b.cols),
        marks: 0,
        styles: RulesView::none(),
        missing: false,
        asked: Seq::empty(),
    };
    lemma_head(none, b.cols);
    law_rows_go_on(b, start, 1);
    let g = rows_written(b, start, 1);
    assert(goes_on(start.w, g.w)) by {
        reveal(grown);
    }
    assert(goes_on(none, g.w.closed().closed().closed().closed()));
    reveal(goes_on);
}

} // verus!
