//! The values of cells that have no text of their own, the spans of merged cells, and what
//! is said of a sheet that is not shown whole.

use vstd::prelude::*;
use crate::chars::decimal;
use crate::html::{attr_text, goes_on, group_goes_on, lemma_stays};
use crate::markup::open_text;
use crate::model::words::{holds, lemma_opened_holds, lemma_still_holds};
use crate::odf::sheet::grid::{
    class_of, code_for, display_of, face_written, faced, raw_of, shown_count, valued, BookView,
    FaceView, GridView,
};
use crate::odf::sheet::rows::{any_drawn, row_draws, Track};
use crate::odf::sheet::{
    book_of, draws_shapes, first_only, has_shapes, shape_notes, sheet_notes, sheet_walked,
    table_doc, SheetInput, NOTE_NO_VALUE, NOTE_SHAPES,
};
use crate::odf::table::span_attr;
use crate::values::answer_to;
use crate::xml::Tree;

verus! {

/// A cell without text of its own shows what its value comes to in its format. A value that
/// has not been answered is asked for, once more at the end of what is asked; a formula
/// without a value is remembered as missing.
pub proof fn law_values_of_cells(b: BookView, g: GridView, n: Tree, style: Seq<char>)
    ensures
        ({
            let v = valued(b, g, n, style);
            let raw = raw_of(n);
            let q = (raw->0, code_for(b, style));
            let a = answer_to(b.values, q);
            &&& raw is Some && a is Some && a->0.text is Some ==> v == (g, a->0.text->0)
            &&& raw is Some && a is None ==> v.1.len() == 0 && v.0.asked == g.asked.push(q)
                && v.0.missing == g.missing
            &&& raw is None ==> v.1.len() == 0 && v.0.asked == g.asked && (v.0.missing
                <==> g.missing || n.attr("formula"@) is Some)
            &&& raw is Some && a is Some && a->0.text is None ==> v.1.len() == 0 && v.0.asked
                == g.asked && (v.0.missing <==> g.missing || n.attr("formula"@) is Some)
        }),
{
}

/// The text that a cell has goes before its value.
pub proof fn law_text_goes_before_value(b: BookView, g: GridView, n: Tree, c: int)
    ensures
        display_of(n) is Some ==> faced(b, g, Some(n), c).0.asked == g.asked && faced(
            b,
            g,
            Some(n),
            c,
        ).0.missing == g.missing,
        faced(b, g, None, c).1.text.len() == 0 && faced(b, g, None, c).0 == g,
{
}

/// The tracks that are visible from one to another, each counted once.
pub proof fn law_visible_tracks_are_counted(t: Seq<Track>, a: int, z: int)
    requires
        0 <= a <= z < t.len(),
    ensures
        !t[a].hidden ==> shown_count(t, a, z) == shown_count(t, a + 1, z) + 1,
        t[a].hidden ==> shown_count(t, a, z) == shown_count(t, a + 1, z),
        shown_count(t, z + 1, z) == 0,
        shown_count(t, a, z) <= z - a + 1,
    decreases z - a,
{
    if a < z {
        law_visible_tracks_are_counted(t, a + 1, z);
    }
}

/// A cell states how many columns and rows it spans.
pub proof fn law_spans_of_merged_cells(
    g: GridView,
    f: FaceView,
    rows: usize,
    cols: usize,
    terms: Seq<Seq<char>>,
)
    requires
        !face_written(g, f, rows, cols, terms).w.full,
    ensures
        holds(
            face_written(g, f, rows, cols, terms).w.text,
            open_text(
                "td"@,
                attr_text("class"@, class_of(f)) + (if cols > 1 {
                    attr_text("colspan"@, decimal(cols as nat))
                } else {
                    Seq::empty()
                }) + (if rows > 1 {
                    attr_text("rowspan"@, decimal(rows as nat))
                } else {
                    Seq::empty()
                }),
            ),
        ),
{
    broadcast use group_goes_on;

    let attrs = attr_text("class"@, class_of(f)) + span_attr("colspan"@, cols) + span_attr(
        "rowspan"@,
        rows,
    );
    let o = g.w.opened("td"@, attrs);
    let h = face_written(g, f, rows, cols, terms);
    lemma_stays(o);
    assert(goes_on(o, h.w));
    assert(!o.full) by {
        reveal(goes_on);
    }
    lemma_opened_holds(g.w, "td"@, attrs);
    lemma_still_holds(o, h.w, open_text("td"@, attrs));
}

/// What is said of a sheet: that shapes over it are not shown, that values are missing, and
/// how many rows and columns are shown where there are more.
pub proof fn law_what_is_said_of_a_sheet(i: SheetInput, table: Tree, g: GridView)
    ensures
        ({
            let b = book_of(i, table);
            let n = sheet_notes(i, table, g);
            &&& g.missing ==> n.contains(NOTE_NO_VALUE@)
            &&& draws_shapes(i, table) ==> n.contains(NOTE_SHAPES@)
            &&& b.rows.nrows > b.nrows ==> n.contains(
                "First "@ + decimal(b.nrows as nat) + " rows only"@,
            )
            &&& b.rows.ncols > b.ncols ==> n.contains(
                "First "@ + decimal(b.ncols as nat) + " columns only"@,
            )
            &&& !g.missing && !draws_shapes(i, table) && b.rows.nrows <= b.nrows && b.rows.ncols
                <= b.ncols ==> n == i.notes
        }),
{
    let b = book_of(i, table);
    let n0 = shape_notes(i, table);
    lemma_noted(i.notes, NOTE_SHAPES@);
    let n1 = if g.missing {
        crate::notes::noted(n0, NOTE_NO_VALUE@)
    } else {
        n0
    };
    lemma_noted(n0, NOTE_NO_VALUE@);
    let rows = first_only(b.nrows as nat, " rows only"@);
    let n2 = if b.rows.nrows > b.nrows {
        crate::notes::noted(n1, rows)
    } else {
        n1
    };
    lemma_noted(n1, rows);
    lemma_noted(n2, first_only(b.ncols as nat, " columns only"@));
}

proof fn lemma_noted(notes: Seq<Seq<char>>, note: Seq<char>)
    ensures
        crate::notes::noted(notes, note).contains(note),
        forall|x: Seq<char>|
            notes.contains(x) ==> #[trigger] crate::notes::noted(notes, note).contains(x),
{
    let n = crate::notes::noted(notes, note);
    crate::notes::law_notes_are_held_once(notes, note);
    assert forall|x: Seq<char>| notes.contains(x) implies #[trigger] n.contains(x) by {
        let k = choose|k: int| 0 <= k < notes.len() && notes[k] == x;
        assert(n[k] == x);
    }
}

/// Something is drawn over a sheet where the sheet holds shapes, or one of its cells does.
pub proof fn law_what_is_drawn_over_a_sheet(table: Tree, row: Tree, cell: Tree, i: int, j: int)
    ensures
        table.child("shapes"@) is Some ==> has_shapes(table),
        0 <= i < table.elems().len() && (table.elems()[i].name == "frame"@ || table.elems()[i].name
            == "custom-shape"@ || table.elems()[i].name == "g"@) ==> has_shapes(table),
        0 <= i < row.elems().len() && row.elems()[i] == cell && 0 <= j < cell.elems().len() && (
        cell.elems()[j].name == "frame"@ || cell.elems()[j].name == "custom-shape"@
            || cell.elems()[j].name == "g"@ || cell.elems()[j].name == "object"@
            || cell.elems()[j].name == "image"@) ==> row_draws(row),
{
    if 0 <= i < row.elems().len() && row.elems()[i] == cell && 0 <= j < cell.elems().len() && (
    cell.elems()[j].name == "frame"@ || cell.elems()[j].name == "custom-shape"@
        || cell.elems()[j].name == "g"@ || cell.elems()[j].name == "object"@ || cell.elems()[j].name
        == "image"@) {
        assert(crate::odf::sheet::rows::is_drawn(cell.elems()[j].name));
        assert(any_drawn(row.elems()[i].elems()));
    }
}

/// A sheet is shown whole or said to be cut: it is cut where the bytes ran out, and where it
/// has more rows or columns than are shown.
pub proof fn law_when_a_sheet_is_cut(i: SheetInput, table: Tree, cap: nat)
    requires
        book_of(i, table).nrows > 0,
    ensures
        table_doc(i, table, cap).truncated <==> sheet_walked(i, table, cap).w.full || book_of(
            i,
            table,
        ).rows.nrows > book_of(i, table).nrows || book_of(i, table).rows.ncols > book_of(
            i,
            table,
        ).ncols,
        table_doc(i, table, cap).asked == sheet_walked(i, table, cap).asked,
{
}

} // verus!
