//! Spreadsheets: one sheet at a time, as a grid.
//!
//! A cell stores the text that its producer made of its value, and that is what the grid
//! shows. A number style is looked at only for a cell that stores a value and no text.

use vstd::prelude::*;
use grid::{emit_head, emit_rows, head_written, rows_written, Book, BookView, Grid, GridView};
use rows::{
    column_tracks, columns, columns_of, merges_from, merges_in, row_tracks, rows_of, tracks_of,
    with_merge, Merge, Rows, RowsView, Track, MAX_COLS, MAX_ROWS,
};
use styles::{rules_text, RulesView, SheetStyles};
use crate::xml;
use crate::chars::{chars_of, decimal, push_text, push_u64, string_of, trim, trimmed};
use crate::document::{styled, wrap_style, DocView, OfficeDoc, Shape};
use crate::highlight::{terms_of, Marker as Highlight, Terms};
use crate::html::{attr_text, no_attrs, push_attr, Writer, Written};
use crate::markup::{balanced, is_name, is_void, lemma_attr_names, lemma_tags, plain};
use crate::media::{wanted_views, Wanted};
use crate::notes::{note_texts, noted, Notes};
use crate::odf::numstyle::{with_part, Numbers};
use crate::odf::pkg::{Package, MALFORMED};
use crate::odf::style::Styles;
use crate::odf::style::store::{opt_tree, Store};
use crate::odf::text::best_mark;
use crate::values::{answer_views, asked_views, AnswerView, Asked, AskedView, Values};
use crate::xml::{document, trees, Element, Tree};

pub mod grid;
pub mod laws;
pub mod rows;
pub mod styles;

verus! {

/// The bytes of a sheet.
pub const HTML_CAP: usize = 4_194_304;

pub const MAX_SHEETS: usize = 200;

pub const NOTE_BODY: &'static str = "Workbook sheets unreadable";

pub const NOTE_SHAPES: &'static str = "Charts and images not shown";

pub const NOTE_NO_VALUE: &'static str = "Some cells have no saved value";

pub const NO_DATA: &'static str = "This sheet holds no cell data.";

pub const EMPTY: &'static str = "This sheet is empty.";

/// The stylesheet of a grid.
pub const BASE_CSS: &'static str = ".xl-doc{background:#fff;color:#000}.xl-scroll{overflow:auto}.xl-sheet{border-collapse:collapse;table-layout:fixed;width:max-content}.xl-gut{width:40px}.xl-sheet th{background:#f3f3f3;color:#666;font-weight:400}.xl-t{border:1px solid #ddd;padding:0 2px;overflow:clip;white-space:pre}.xl-num{text-align:right}.xl-ctr{text-align:center}.xl-empty{padding:16px;color:#666}";

// ── the workbook ─────────────────────────────────────────────────────────────

/// The sheets of a workbook, as many as are kept.
pub open spec fn tables_in(v: Seq<Tree>) -> Seq<Tree>
    decreases v.len(),
{
    if v.len() == 0 {
        Seq::empty()
    } else {
        let before = tables_in(v.drop_last());
        if v.last().name == "table"@ && before.len() < MAX_SHEETS {
            before.push(v.last())
        } else {
            before
        }
    }
}

pub open spec fn tables_of(root: Tree) -> Seq<Tree> {
    match root.child("body"@) {
        Some(b) => match b.child("spreadsheet"@) {
            Some(s) => tables_in(s.elems()),
            None => Seq::empty(),
        },
        None => Seq::empty(),
    }
}

fn tables(root: &Element) -> (r: Vec<&Element>)
    ensures
        trees(r@) == tables_of(root@),
        r@.len() <= MAX_SHEETS,
{
    let mut r: Vec<&Element> = Vec::new();
    assert(trees(r@) =~= Seq::<Tree>::empty());
    let book: &Element = match root.child("body") {
        Some(b) => match b.child("spreadsheet") {
            Some(s) => s,
            None => {
                return r;
            },
        },
        None => {
            return r;
        },
    };
    let v: Vec<&Element> = book.elems();
    let ghost ts = trees(v@);
    assert(ts.take(0) =~= Seq::<Tree>::empty());
    for i in 0..v.len()
        invariant
            ts == trees(v@),
            trees(r@) == tables_in(ts.take(i as int)),
            r@.len() <= MAX_SHEETS,
    {
        assert(ts.take(i + 1).drop_last() =~= ts.take(i as int));
        assert(ts.take(i + 1).last() == v@[i as int]@);
        assert(trees(r@).len() == r@.len());
        let ghost before = r@;
        if v[i].is("table") && r.len() < MAX_SHEETS {
            r.push(v[i]);
            assert(trees(r@) =~= trees(before).push(v@[i as int]@));
        }
    }
    assert(ts.take(ts.len() as int) =~= ts);
    r
}

/// The name of a sheet, or else its number.
pub open spec fn sheet_name_of(t: Tree, i: nat) -> Seq<char> {
    let name = trimmed(t.text_attr("name"@));
    if name.len() > 0 {
        name
    } else {
        "Sheet "@ + decimal(i + 1)
    }
}

pub open spec fn sheet_names(v: Seq<Tree>) -> Seq<Seq<char>> {
    Seq::new(v.len(), |i: int| sheet_name_of(v[i], i as nat))
}

fn sheet_name(t: &Element, i: usize) -> (r: String)
    requires
        i < MAX_SHEETS,
    ensures
        r@ == sheet_name_of(t@, i as nat),
{
    let name: Vec<char> = trim(&chars_of(t.text_attr("name")));
    if name.len() > 0 {
        return string_of(&name);
    }
    let mut v: Vec<char> = Vec::new();
    push_text(&mut v, "Sheet ");
    push_u64(&mut v, i as u64 + 1);
    assert(v@ =~= "Sheet "@ + decimal((i + 1) as nat));
    string_of(&v)
}

fn names(v: &Vec<&Element>) -> (r: Vec<String>)
    requires
        v@.len() <= MAX_SHEETS,
    ensures
        note_texts(r@) == sheet_names(trees(v@)),
{
    let mut r: Vec<String> = Vec::new();
    for i in 0..v.len()
        invariant
            v@.len() <= MAX_SHEETS,
            r@.len() == i,
            forall|n: int| 0 <= n < i ==> (#[trigger] r@[n])@ == sheet_name_of(v@[n]@, n as nat),
    {
        r.push(sheet_name(v[i], i));
    }
    assert(note_texts(r@) =~= sheet_names(trees(v@)));
    r
}

/// Which sheet is shown: the one asked for, or else the last before it, or else the
/// first.
pub open spec fn shown_sheet(section: Option<u32>, count: nat) -> nat {
    match section {
        Some(s) => if s < count {
            s as nat
        } else {
            (count - 1) as nat
        },
        None => 0,
    }
}

pub open spec fn floats(v: Seq<Tree>) -> bool {
    exists|i: int|
        0 <= i < v.len() && ((#[trigger] v[i]).name == "frame"@ || v[i].name == "custom-shape"@
            || v[i].name == "g"@)
}

/// Something is drawn over the grid rather than in it.
pub open spec fn has_shapes(table: Tree) -> bool {
    table.child("shapes"@) is Some || floats(table.elems())
}

fn shapes_over(table: &Element) -> (r: bool)
    ensures
        r == has_shapes(table@),
{
    if table.child("shapes").is_some() {
        return true;
    }
    let v: Vec<&Element> = table.elems();
    let ghost ts = trees(v@);
    for i in 0..v.len()
        invariant
            ts == trees(v@),
            ts == table@.elems(),
            forall|j: int|
                0 <= j < i ==> (#[trigger] ts[j]).name != "frame"@ && ts[j].name
                    != "custom-shape"@ && ts[j].name != "g"@,
    {
        assert(ts[i as int] == v@[i as int]@);
        if v[i].is("frame") || v[i].is("custom-shape") || v[i].is("g") {
            return true;
        }
    }
    false
}

// ── the sheet ────────────────────────────────────────────────────────────────

/// What a sheet is rendered from.
pub struct SheetInput {
    pub root: Tree,
    pub styles: Option<Tree>,
    pub notes: Seq<Seq<char>>,
    pub terms: Seq<Seq<char>>,
    pub values: Seq<AnswerView>,
}

pub open spec fn sheet_input(
    p: Package,
    root: Tree,
    notes: Seq<Seq<char>>,
    terms: Seq<String>,
    values: Values,
) -> SheetInput {
    SheetInput {
        root,
        styles: match p.styles {
            Some(s) => document(s@),
            None => None,
        },
        notes,
        terms: terms_of(terms),
        values: answer_views(values.list@),
    }
}

/// The columns that are shown.
pub open spec fn cols_shown(rows: RowsView) -> usize {
    if rows.ncols < 1 {
        1
    } else if rows.ncols > MAX_COLS {
        MAX_COLS
    } else {
        rows.ncols
    }
}

/// The rows that are shown.
pub open spec fn rows_shown(rows: RowsView) -> u32 {
    if rows.nrows < MAX_ROWS {
        rows.nrows
    } else {
        MAX_ROWS
    }
}

pub open spec fn book_of(i: SheetInput, table: Tree) -> BookView {
    let store = Store::of(i.styles, Some(i.root));
    let rows = rows_of(store, table);
    let nrows = rows_shown(rows);
    let ncols = cols_shown(rows);
    BookView {
        rows,
        columns: columns_of(table),
        cols: column_tracks(store, columns_of(table), ncols as nat),
        tracks: row_tracks(rows, nrows),
        merges: merges_from(Seq::empty(), rows, 1, nrows, ncols),
        nrows,
        ncols,
        store,
        numbers: with_part(with_part(Seq::empty(), i.styles), Some(i.root)),
        terms: i.terms,
        values: i.values,
    }
}

pub open spec fn sheet_walked(i: SheetInput, table: Tree, cap: nat) -> GridView {
    let b = book_of(i, table);
    let g = rows_written(
        b,
        GridView {
            w: head_written(Written::fresh(cap), b.cols),
            marks: 0,
            styles: RulesView::none(),
            missing: false,
            asked: Seq::empty(),
        },
        1,
    );
    GridView { w: g.w.closed().closed().closed().closed(), ..g }
}

/// What is said of a sheet that is not shown whole.
pub open spec fn first_only(n: nat, what: Seq<char>) -> Seq<char> {
    "First "@ + decimal(n) + what
}

pub open spec fn sheet_notes(i: SheetInput, table: Tree, g: GridView) -> Seq<Seq<char>> {
    let b = book_of(i, table);
    let n0 = shape_notes(i, table);
    let n1 = if g.missing {
        noted(n0, NOTE_NO_VALUE@)
    } else {
        n0
    };
    let n2 = if b.rows.nrows > b.nrows {
        noted(n1, first_only(b.nrows as nat, " rows only"@))
    } else {
        n1
    };
    if b.rows.ncols > b.ncols {
        noted(n2, first_only(b.ncols as nat, " columns only"@))
    } else {
        n2
    }
}

pub open spec fn draws_shapes(i: SheetInput, table: Tree) -> bool {
    book_of(i, table).rows.shapes || has_shapes(table)
}

pub open spec fn shape_notes(i: SheetInput, table: Tree) -> Seq<Seq<char>> {
    if draws_shapes(i, table) {
        noted(i.notes, NOTE_SHAPES@)
    } else {
        i.notes
    }
}

/// The card of a sheet without cells.
pub open spec fn card(msg: Seq<char>) -> Seq<char> {
    Written::fresh(HTML_CAP as nat).opened("div"@, attr_text("class"@, "xl-empty"@)).text(
        msg,
    ).finished()
}

/// The HTML of the sheet that is shown.
pub open spec fn shown_html(i: SheetInput, section: Option<u32>, cap: nat) -> Seq<char> {
    let tables = tables_of(i.root);
    table_html(i, tables[shown_sheet(section, tables.len()) as int], cap)
}

/// The preview of a sheet, with the names of all.
pub open spec fn sheet_doc(i: SheetInput, section: Option<u32>, cap: nat) -> DocView {
    let tables = tables_of(i.root);
    let at = shown_sheet(section, tables.len());
    DocView {
        sections: sheet_names(tables),
        section: at as u32,
        ..table_doc(i, tables[at as int], cap)
    }
}

/// Merges stand inside the window that is shown.
proof fn lemma_merges_inside(
    out: Seq<Merge>,
    v: Seq<Tree>,
    r: u32,
    c: nat,
    nrows: u32,
    ncols: usize,
)
    requires
        1 <= r <= nrows <= MAX_ROWS,
        1 <= ncols <= MAX_COLS,
        inside(out, nrows, ncols),
    ensures
        inside(merges_in(out, v, r, c, nrows, ncols), nrows, ncols),
    decreases v.len(),
{
    if v.len() > 0 && c < ncols && out.len() < rows::MAX_MERGES {
        if !rows::is_cell(v[0]) {
            lemma_merges_inside(out, v.skip(1), r, c, nrows, ncols);
        } else {
            let next = with_merge(out, v[0], r, c, nrows, ncols);
            assert(inside(next, nrows, ncols));
            lemma_merges_inside(
                next,
                v.skip(1),
                r,
                c + rows::repeats(v[0], "number-columns-repeated"@) as nat,
                nrows,
                ncols,
            );
        }
    }
}

pub open spec fn inside(v: Seq<Merge>, nrows: u32, ncols: usize) -> bool {
    forall|i: int|
        0 <= i < v.len() ==> {
            let m = #[trigger] v[i];
            1 <= m.r0 <= m.r1 <= nrows && m.c0 <= m.c1 < ncols
        }
}

/// Every merge stands inside the window that is shown, whatever spans cells state.
pub proof fn law_merges_stay_inside(
    out: Seq<Merge>,
    rows: RowsView,
    r: u32,
    nrows: u32,
    ncols: usize,
)
    requires
        nrows <= MAX_ROWS,
        1 <= ncols <= MAX_COLS,
        inside(out, nrows, ncols),
    ensures
        inside(merges_from(out, rows, r, nrows, ncols), nrows, ncols),
    decreases nrows - r,
{
    if 1 <= r <= nrows && r <= rows.at.len() {
        let v = rows.at[r - 1].elems();
        lemma_merges_inside(out, v, r, 0, nrows, ncols);
        if r < nrows {
            law_merges_stay_inside(
                merges_in(out, v, r, 0, nrows, ncols),
                rows,
                (r + 1) as u32,
                nrows,
                ncols,
            );
        }
    }
}

/// Renders a sheet. A workbook without sheets is an error.
pub fn render(
    package: Package,
    notes: Notes,
    section: Option<u32>,
    terms: &[String],
    values: &Values,
) -> (r: Result<OfficeDoc, String>)
    ensures
        r is Err == (document(package.content@) is None || tables_of(
            document(package.content@)->0,
        ).len() == 0),
        r matches Err(e) ==> e@ == (if document(package.content@) is None {
            MALFORMED@
        } else {
            NOTE_BODY@
        }),
        r matches Ok(d) ==> {
            &&& d@ == sheet_doc(
                sheet_input(package, document(package.content@)->0, notes@, terms@, *values),
                section,
                HTML_CAP as nat,
            )
            &&& balanced(
                shown_html(
                    sheet_input(package, document(package.content@)->0, notes@, terms@, *values),
                    section,
                    HTML_CAP as nat,
                ),
            )
        },
{
    render_with(package, notes, section, terms, values, HTML_CAP)
}

/// Renders a sheet in so many bytes.
pub fn render_with(
    package: Package,
    notes: Notes,
    section: Option<u32>,
    terms: &[String],
    values: &Values,
    cap: usize,
) -> (r: Result<OfficeDoc, String>)
    ensures
        r is Err == (document(package.content@) is None || tables_of(
            document(package.content@)->0,
        ).len() == 0),
        r matches Err(e) ==> e@ == (if document(package.content@) is None {
            MALFORMED@
        } else {
            NOTE_BODY@
        }),
        r matches Ok(d) ==> {
            &&& d@ == sheet_doc(
                sheet_input(package, document(package.content@)->0, notes@, terms@, *values),
                section,
                cap as nat,
            )
            &&& balanced(
                shown_html(
                    sheet_input(package, document(package.content@)->0, notes@, terms@, *values),
                    section,
                    cap as nat,
                ),
            )
        },
{
    let root: Element = match xml::parse(package.content.as_str()) {
        Some(root) => root,
        None => {
            return Err(String::from_str(MALFORMED));
        },
    };
    let sheet: Option<Element> = match &package.styles {
        Some(s) => xml::parse(s.as_str()),
        None => None,
    };
    let ghost i = sheet_input(package, root@, notes@, terms@, *values);
    assert(i.styles == opt_tree(sheet));
    let content: Option<Element> = Some(root);
    let styles: Styles = Styles::of(&sheet, &content);
    let root: &Element = match &content {
        Some(r) => r,
        None => {
            return Err(String::from_str(MALFORMED));
        },
    };
    let all: Vec<&Element> = tables(root);
    assert(trees(all@).len() == all@.len());
    if all.len() == 0 {
        return Err(String::from_str(NOTE_BODY));
    }
    let last: usize = all.len() - 1;
    let at: usize = match section {
        Some(s) => if (s as u64) < all.len() as u64 {
            s as usize
        } else {
            last
        },
        None => 0,
    };
    let sections: Vec<String> = names(&all);
    let table: &Element = all[at];
    assert(table@ == trees(all@)[at as int]);
    let mut numbers: Numbers = Numbers::empty();
    if let Some(s) = &sheet {
        numbers = numbers.load(s);
    }
    let numbers: Numbers = numbers.load(root);
    let mut d: OfficeDoc = render_table(
        table,
        &styles,
        &numbers,
        notes,
        terms,
        values,
        cap,
        Ghost(i),
    );
    d.sections = sections;
    d.section = at as u32;
    assert(d@ == sheet_doc(i, section, cap as nat));
    Ok(d)
}

/// What a sheet without cells says.
pub open spec fn card_text(i: SheetInput, table: Tree) -> Seq<char> {
    if draws_shapes(i, table) {
        NO_DATA@
    } else {
        EMPTY@
    }
}

/// The HTML of a sheet, without its stylesheet. A sheet without cells has a card, and no
/// stylesheet.
pub open spec fn table_html(i: SheetInput, table: Tree, cap: nat) -> Seq<char> {
    if book_of(i, table).nrows == 0 {
        card(card_text(i, table))
    } else {
        sheet_walked(i, table, cap).w.finished()
    }
}

/// The preview of one sheet.
pub open spec fn table_doc(i: SheetInput, table: Tree, cap: nat) -> DocView {
    let b = book_of(i, table);
    let g = sheet_walked(i, table, cap);
    let empty = DocView {
        html: card(card_text(i, table)),
        shape: Shape::Sheet,
        sections: Seq::empty(),
        section: 0,
        natural: None,
        page: None,
        best_mark_id: None,
        truncated: false,
        notes: shape_notes(i, table),
        wanted: Seq::empty(),
        asked: Seq::empty(),
    };
    if b.nrows == 0 {
        empty
    } else {
        DocView {
            html: styled(BASE_CSS@, rules_text(g.styles.css), g.w.finished()),
            best_mark_id: best_mark(g.marks),
            truncated: g.w.full || b.rows.nrows > b.nrows || b.rows.ncols > b.ncols,
            notes: sheet_notes(i, table, g),
            asked: g.asked,
            ..empty
        }
    }
}

fn empty_card(msg: &str) -> (r: String)
    ensures
        r@ == card(msg@),
        balanced(r@),
{
    let mut w: Writer = Writer::new(HTML_CAP);
    let mut a: Vec<char> = no_attrs();
    assert(plain("class"@)) by {
        lemma_attr_names();
    }
    push_attr(&mut a, "class", &chars_of("xl-empty"));
    assert(a@ =~= attr_text("class"@, "xl-empty"@));
    assert(is_name("div"@) && !is_void("div"@)) by {
        lemma_tags();
    }
    w.open("div", &a);
    w.text(msg);
    w.finish()
}

fn first_note(n: u64, what: &str) -> (r: String)
    ensures
        r@ == first_only(n as nat, what@),
{
    let mut v: Vec<char> = Vec::new();
    push_text(&mut v, "First ");
    push_u64(&mut v, n);
    push_text(&mut v, what);
    assert(v@ =~= first_only(n as nat, what@));
    string_of(&v)
}

fn render_table(
    table: &Element,
    styles: &Styles,
    numbers: &Numbers,
    notes: Notes,
    terms: &[String],
    values: &Values,
    cap: usize,
    Ghost(i): Ghost<SheetInput>,
) -> (d: OfficeDoc)
    requires
        styles@ == Store::of(i.styles, Some(i.root)),
        numbers.rows() == with_part(with_part(Seq::empty(), i.styles), Some(i.root)),
        notes@ == i.notes,
        terms_of(terms@) == i.terms,
        answer_views(values.list@) == i.values,
    ensures
        d@ == table_doc(i, table@, cap as nat),
        balanced(table_html(i, table@, cap as nat)),
{
    let mut notes: Notes = notes;
    let rows: Rows = Rows::plan(styles, table);
    let drawn: bool = rows.shapes || shapes_over(table);
    if drawn {
        notes.add(NOTE_SHAPES);
    }
    let ncols: usize = if rows.ncols < 1 {
        1
    } else if rows.ncols > MAX_COLS {
        MAX_COLS
    } else {
        rows.ncols
    };
    let nrows: u32 = if rows.nrows < MAX_ROWS {
        rows.nrows
    } else {
        MAX_ROWS
    };
    let none: Vec<Asked> = Vec::new();
    let wanted: Vec<Wanted> = Vec::new();
    assert(asked_views(none@) =~= Seq::<AskedView>::empty());
    assert(wanted_views(wanted@) =~= Seq::<(Seq<char>, u32)>::empty());
    let mut d = OfficeDoc {
        html: empty_card(
            if drawn {
                NO_DATA
            } else {
                EMPTY
            },
        ),
        shape: Shape::Sheet,
        sections: Vec::new(),
        section: 0,
        natural: None,
        page: None,
        best_mark_id: None,
        truncated: false,
        notes: Vec::new(),
        wanted,
        asked: none,
    };
    assert(d@.sections =~= Seq::<Seq<char>>::empty());
    if nrows == 0 {
        d.notes = notes.into_vec();
        return d;
    }
    let query: Terms = Terms::new(terms);
    let stated: Vec<&Element> = columns(table);
    let cols: Vec<Track> = tracks_of(styles, &stated, ncols);
    let b = Book {
        rows: &rows,
        columns: stated,
        cols,
        tracks: rows.tracks(nrows),
        merges: rows.merges(nrows, ncols),
        nrows,
        ncols,
        styles,
        numbers,
        terms: &query,
        values,
    };
    proof {
        law_merges_stay_inside(Seq::empty(), rows@, 1, nrows, ncols);
    }
    assert(b@ == book_of(i, table@));
    assert(b@.wf());
    let mut w: Writer = Writer::new(cap);
    emit_head(&mut w, &b.cols);
    let mut g = Grid {
        w,
        marker: Highlight::new(),
        styles: SheetStyles::new(),
        missing: false,
        asked: Vec::new(),
    };
    assert(g@.asked =~= Seq::<AskedView>::empty());
    emit_rows(&b, &mut g);
    g.w.close();
    g.w.close();
    g.w.close();
    g.w.close();
    assert(g@ == sheet_walked(i, table@, cap as nat));
    if g.missing {
        notes.add(NOTE_NO_VALUE);
    }
    if rows.nrows > nrows {
        notes.add(first_note(nrows as u64, " rows only").as_str());
    }
    if rows.ncols > ncols {
        notes.add(first_note(ncols as u64, " columns only").as_str());
    }
    d.truncated = g.w.is_full() || rows.nrows > nrows || rows.ncols > ncols;
    d.best_mark_id = g.marker.best_mark_id();
    let css: Vec<char> = g.styles.css_block();
    let body: String = g.w.finish();
    d.html = wrap_style(BASE_CSS, &css, body.as_str());
    d.notes = notes.into_vec();
    d.asked = g.asked;
    d
}

} // verus!
