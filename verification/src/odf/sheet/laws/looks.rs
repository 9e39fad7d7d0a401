//! How the cells, the rows and the columns of a sheet look, and what a sheet is called.

use vstd::prelude::*;
use crate::cellstyle::{align_inner_css, turn_text, AlignSpec, Rotation, VAlign};
use crate::chars::{decimal, trimmed};
use crate::html::{decl, goes_on, group_goes_on, lemma_stays, style_text, Written};
use crate::listnum::alpha_text;
use crate::markup::open_text;
use crate::model::looks::{lemma_itself, lemma_part};
use crate::model::words::{holds, lemma_raw_holds, lemma_still_holds};
use crate::model::Align;
use crate::odf::length::px_text;
use crate::odf::sheet::grid::{class_of, letters_written, widths_written, FaceView};
use crate::odf::sheet::rows::{
    column_track, row_px, track_at, RowsView, Track, DEFAULT_COL_PX, DEFAULT_ROW_PX, MAX_COL_PX,
    MAX_ROW_PX, MIN_COL_PX,
};
use crate::odf::sheet::styles::{cell_css, rules_text};
use crate::odf::sheet::{cols_shown, rows_shown, sheet_name_of, shown_sheet, tables_in, MAX_SHEETS};
use crate::odf::style::store::Store;
use crate::odf::style::{CellProps, Family, TextPropsView};
use crate::xml::Tree;

verus! {

/// A cell style declares what it states: a border and a gap for each side, its shade, and
/// the font, weight, slant, lines and colour of its text.
pub proof fn law_looks_of_a_cell_style(cp: CellProps, t: TextPropsView)
    ensures
        ({
            let css = cell_css(cp, t);
            let b = cp.borders;
            let p = cp.padding;
            &&& b.top is Some && b.top->0 is Line ==> holds(
                css,
                decl("border-top"@, b.top->0->Line_0.css_text()),
            )
            &&& b.right is Some && b.right->0 is Line ==> holds(
                css,
                decl("border-right"@, b.right->0->Line_0.css_text()),
            )
            &&& b.bottom is Some && b.bottom->0 is Line ==> holds(
                css,
                decl("border-bottom"@, b.bottom->0->Line_0.css_text()),
            )
            &&& b.left is Some && b.left->0 is Line ==> holds(
                css,
                decl("border-left"@, b.left->0->Line_0.css_text()),
            )
            &&& cp.background is Some ==> holds(
                css,
                decl("background-color"@, cp.background->0.css_text()),
            )
            &&& p.top is Some && p.top->0 >= 0 ==> holds(
                css,
                decl("padding-top"@, px_text(p.top->0)),
            )
            &&& p.right is Some && p.right->0 >= 0 ==> holds(
                css,
                decl("padding-right"@, px_text(p.right->0)),
            )
            &&& p.bottom is Some && p.bottom->0 >= 0 ==> holds(
                css,
                decl("padding-bottom"@, px_text(p.bottom->0)),
            )
            &&& p.left is Some && p.left->0 >= 0 ==> holds(
                css,
                decl("padding-left"@, px_text(p.left->0)),
            )
            &&& t.font is Some ==> holds(css, decl("font-family"@, t.font->0))
            &&& t.bold == Some(true) ==> holds(css, decl("font-weight"@, "700"@))
            &&& t.italic == Some(true) ==> holds(css, decl("font-style"@, "italic"@))
            &&& t.underline == Some(true) && t.strike != Some(true) ==> holds(
                css,
                decl("text-decoration"@, "underline"@),
            )
            &&& t.underline != Some(true) && t.strike == Some(true) ==> holds(
                css,
                decl("text-decoration"@, "line-through"@),
            )
            &&& t.underline == Some(true) && t.strike == Some(true) ==> holds(
                css,
                decl("text-decoration"@, "underline line-through"@),
            )
            &&& t.color is Some && t.color->0.value() is Some ==> holds(
                css,
                decl("color"@, t.color->0.value()->0.css_text()),
            )
            &&& cp.wrap == Some(true) ==> holds(css, decl("white-space"@, "pre-wrap"@))
            &&& cp.v_align == Some(VAlign::Top) ==> holds(css, decl("vertical-align"@, "top"@))
            &&& cp.v_align == Some(VAlign::Center) ==> holds(
                css,
                decl("vertical-align"@, "middle"@),
            )
            &&& cp.v_align == Some(VAlign::Bottom) ==> holds(
                css,
                decl("vertical-align"@, "bottom"@),
            )
        }),
{
    broadcast use {lemma_part, lemma_itself};

}

/// What a cell holds can be turned: against the clock as the document counts, which a page
/// counts the other way.
pub proof fn law_what_a_cell_holds_is_turned(a: AlignSpec, v: i64)
    ensures
        a.rotation is None ==> align_inner_css(a).len() == 0,
        a.rotation == Some(Rotation::Ccw(v)) ==> holds(
            align_inner_css(a),
            decl("transform"@, turn_text(Rotation::Ccw(v))),
        ) && holds(align_inner_css(a), decl("display"@, "inline-block"@)),
        v > 0 ==> turn_text(Rotation::Ccw(v)) == "rotate("@ + crate::color::fixed_text(
            -(v as int),
            1_000_000,
        ) + "deg)"@,
{
    broadcast use {lemma_part, lemma_itself};

}

/// A cell has the class of its style by its number, and the class of where its value
/// stands.
pub proof fn law_classes_of_a_cell(f: FaceView)
    ensures
        f.style is Some ==> holds(class_of(f), "xf"@ + decimal(f.style->0 as nat) + " "@),
        f.align == Some(Align::Right) ==> holds(class_of(f), " xl-num"@),
        f.align == Some(Align::Center) ==> holds(class_of(f), " xl-ctr"@),
        f.style is None && f.align is None ==> class_of(f) == "xl-t"@,
{
    broadcast use {lemma_part, lemma_itself};

    if f.style is None && f.align is None {
        assert(class_of(f) =~= "xl-t"@);
    }
}

proof fn lemma_rule(css: Seq<Seq<char>>, k: int)
    requires
        0 <= k < css.len(),
    ensures
        holds(rules_text(css), "td.xf"@ + decimal(k as nat) + "{"@ + css[k] + "}\n"@),
    decreases css.len(),
{
    broadcast use {lemma_part, lemma_itself};

    let before = rules_text(css.drop_last());
    let own = "td.xf"@ + decimal((css.len() - 1) as nat) + "{"@ + css.last() + "}\n"@;
    assert(rules_text(css) =~= before + own);
    if k < css.len() - 1 {
        lemma_rule(css.drop_last(), k);
    }
}

/// Every style of a sheet has a rule, of its number and with its declarations.
pub proof fn law_every_style_has_a_rule(css: Seq<Seq<char>>, k: int)
    requires
        0 <= k < css.len(),
    ensures
        holds(rules_text(css), "td.xf"@ + decimal(k as nat) + "{"@ + css[k] + "}\n"@),
{
    lemma_rule(css, k);
}

// ── rows and columns ─────────────────────────────────────────────────────────

/// A column is as wide as its style states, within bounds, and hidden where it says so.
pub proof fn law_widths_of_columns(store: Store, n: Tree)
    ensures
        ({
            let w = store.resolved(
                Family::TableColumn,
                n.text_attr("style-name"@),
            ).column.width_px;
            let t = column_track(store, n);
            &&& w is Some && MIN_COL_PX <= w->0 <= MAX_COL_PX ==> t.px == w->0
            &&& w is None ==> t.px == DEFAULT_COL_PX
            &&& w is Some && w->0 > MAX_COL_PX ==> t.px == MAX_COL_PX
            &&& t.hidden <==> n.attr("visibility"@) == Some("collapse"@) || n.attr("visibility"@)
                == Some("filter"@)
        }),
{
}

/// A row is as tall as its style states, within bounds.
pub proof fn law_heights_of_sheet_rows(store: Store, n: Tree, rows: RowsView, nrows: u32, i: int)
    ensures
        ({
            let h = store.resolved(Family::TableRow, n.text_attr("style-name"@)).row.height_px;
            &&& h is Some && 0 < h->0 <= MAX_ROW_PX ==> row_px(store, n) == h->0
            &&& h is None ==> row_px(store, n) == DEFAULT_ROW_PX
            &&& h is Some && h->0 > MAX_ROW_PX ==> row_px(store, n) == MAX_ROW_PX
        }),
        1 <= i <= nrows && i <= rows.px.len() && i <= rows.hidden.len() ==> track_at(
            rows,
            nrows,
            i,
        ) == (Track { px: rows.px[i - 1], hidden: rows.hidden[i - 1] }),
{
}

/// Every column that is not hidden has its letters over it and its width, and a hidden one
/// has neither.
pub proof fn law_letters_over_columns(w: Written, cols: Seq<Track>, k: int)
    requires
        0 <= k < cols.len(),
        !cols[k].hidden,
    ensures
        !letters_written(w, cols).full ==> holds(
            letters_written(w, cols).text,
            crate::html::escaped(alpha_text((k + 1) as nat, true), false),
        ),
        !widths_written(w, cols).full ==> holds(
            widths_written(w, cols).text,
            open_text("col"@, style_text(decl("width"@, px_text(cols[k].px)))),
        ),
    decreases cols.len(),
{
    broadcast use group_goes_on;

    let d = cols.drop_last();
    let a = letters_written(w, d);
    let b = widths_written(w, d);
    let x = letters_written(w, cols);
    let y = widths_written(w, cols);
    lemma_stays(a);
    lemma_stays(b);
    assert(goes_on(a, x));
    assert(goes_on(b, y));
    if k == cols.len() - 1 {
        let letters = crate::html::escaped(alpha_text(cols.len(), true), false);
        let o = a.opened("th"@, Seq::empty());
        if !x.full {
            assert(!o.raw(letters).full);
            lemma_raw_holds(o, letters);
            lemma_still_holds(o.raw(letters), x, letters);
        }
        if !y.full {
            lemma_raw_holds(b, open_text("col"@, style_text(decl("width"@, px_text(cols[k].px)))));
        }
    } else {
        law_letters_over_columns(w, d, k);
        if !x.full {
            assert(!a.full) by {
                reveal(goes_on);
            }
            lemma_still_holds(a, x, crate::html::escaped(alpha_text((k + 1) as nat, true), false));
        }
        if !y.full {
            assert(!b.full) by {
                reveal(goes_on);
            }
            lemma_still_holds(
                b,
                y,
                open_text("col"@, style_text(decl("width"@, px_text(cols[k].px)))),
            );
        }
    }
}

/// How much of a sheet is shown: its data's rows and columns, two hundred of each at the
/// most.
pub proof fn law_how_much_of_a_sheet_is_shown(rows: RowsView)
    ensures
        rows.nrows <= 200 ==> rows_shown(rows) == rows.nrows,
        rows.nrows > 200 ==> rows_shown(rows) == 200,
        1 <= rows.ncols <= 200 ==> cols_shown(rows) == rows.ncols,
        rows.ncols > 200 ==> cols_shown(rows) == 200,
        rows.ncols == 0 ==> cols_shown(rows) == 1,
{
}

// ── sheets ───────────────────────────────────────────────────────────────────

/// The sheets are the tables among some elements, in their order.
pub proof fn law_tables_are_the_sheets(v: Seq<Tree>, e: Tree)
    ensures
        e.name == "table"@ && tables_in(v).len() < MAX_SHEETS ==> tables_in(v.push(e)) == tables_in(
            v,
        ).push(e),
        e.name != "table"@ ==> tables_in(v.push(e)) == tables_in(v),
        tables_in(Seq::<Tree>::empty()).len() == 0,
{
    assert(v.push(e).drop_last() =~= v);
}

/// A sheet is called by its name, or else by its number, counted from one; and the one that
/// is asked for is shown, or the last where there are not so many.
pub proof fn law_what_a_sheet_is_called(t: Tree, i: nat, s: u32, count: nat)
    requires
        count > 0,
    ensures
        trimmed(t.text_attr("name"@)).len() > 0 ==> sheet_name_of(t, i) == trimmed(
            t.text_attr("name"@),
        ),
        trimmed(t.text_attr("name"@)).len() == 0 ==> sheet_name_of(t, i) == "Sheet "@ + decimal(
            i + 1,
        ),
        s < count ==> shown_sheet(Some(s), count) == s,
        s >= count ==> shown_sheet(Some(s), count) == count - 1,
        shown_sheet(None, count) == 0,
{
}

} // verus!
