//! The grid of a sheet.

use vstd::prelude::*;
use crate::chars::{chars_of, decimal, push_text, push_u64, string_of, trim, trimmed};
use crate::highlight::{marked, Marker as Highlight, Terms};
use crate::html::{
    attr_text, decl, no_attrs, opt_view, push_attr, style_text, Style, Writer, Written,
};
use crate::listnum::{alpha, alpha_text};
use crate::markup::{are_attrs, is_name, is_void, lemma_attr_names, lemma_tags, plain};
use crate::model::Align;
use crate::names::lookup;
use crate::odf::length::{join_by, joined_by, px_text, texts};
use crate::odf::list::cut_to;
use crate::odf::numstyle::{code_of, DefRows, Numbers};
use crate::odf::sheet::rows::{
    cell_at, cell_style_name, style_name, Merge, Rows, RowsView, Track, MAX_COLS, MAX_ROWS,
};
use crate::odf::sheet::styles::{RulesView, SheetStyles};
use crate::odf::style::{Family, Resolved, Styles};
use crate::odf::style::store::{chain_data, chain_of, Store};
use crate::odf::table::{push_span, span_attr};
use crate::values::{answer_to, answer_views, asked_views, AnswerView, Asked, AskedView, Values};
use crate::xml::{trees, Element, Tree};

verus! {

/// Characters of a cell shown.
pub const MAX_CELL_CHARS: usize = 200;

// ── what a cell shows ────────────────────────────────────────────────────────

pub open spec fn para_texts(v: Seq<Tree>) -> Seq<Seq<char>>
    decreases v.len(),
{
    if v.len() == 0 {
        Seq::empty()
    } else if v.last().name == "p"@ || v.last().name == "h"@ {
        para_texts(v.drop_last()).push(v.last().inner_text())
    } else {
        para_texts(v.drop_last())
    }
}

/// The text that a cell stores, a line for each paragraph; none where it is blank.
pub open spec fn display_of(n: Tree) -> Option<Seq<char>> {
    let t = joined_by(para_texts(n.elems()), '\n');
    if trimmed(t).len() > 0 {
        Some(t)
    } else {
        None
    }
}

fn display_text(n: &Element) -> (r: Option<Vec<char>>)
    ensures
        r is Some == display_of(n@) is Some,
        r matches Some(t) ==> t@ == display_of(n@)->0,
{
    let v: Vec<&Element> = n.elems();
    let ghost ts = trees(v@);
    let mut parts: Vec<Vec<char>> = Vec::new();
    assert(ts.take(0) =~= Seq::<Tree>::empty());
    assert(texts(parts@) =~= Seq::<Seq<char>>::empty());
    for i in 0..v.len()
        invariant
            ts == trees(v@),
            texts(parts@) == para_texts(ts.take(i as int)),
    {
        assert(ts.take(i + 1).drop_last() =~= ts.take(i as int));
        assert(ts.take(i + 1).last() == v@[i as int]@);
        if v[i].is("p") || v[i].is("h") {
            let t: Vec<char> = v[i].inner_text();
            let ghost before = parts@;
            parts.push(t);
            assert(texts(parts@) =~= texts(before).push(t@));
        }
    }
    assert(ts.take(ts.len() as int) =~= ts);
    let t: Vec<char> = join_by(&parts, '\n');
    if trim(&t).len() > 0 {
        Some(t)
    } else {
        None
    }
}

/// Numbers and dates stand on the right, truth values in the middle.
pub open spec fn align_by(kind: Option<Seq<char>>) -> Option<Align> {
    if kind == Some("float"@) || kind == Some("percentage"@) || kind == Some("currency"@) || kind
        == Some("date"@) || kind == Some("time"@) {
        Some(Align::Right)
    } else if kind == Some("boolean"@) {
        Some(Align::Center)
    } else {
        None
    }
}

fn align_of(kind: Option<&str>) -> (r: Option<Align>)
    ensures
        r == align_by(
            match kind {
                Some(k) => Some(k@),
                None => None,
            },
        ),
{
    match kind {
        Some(k) => if *k == *"float" || *k == *"percentage" || *k == *"currency" || *k == *"date"
            || *k == *"time" {
            Some(Align::Right)
        } else if *k == *"boolean" {
            Some(Align::Center)
        } else {
            None
        },
        None => None,
    }
}

pub open spec fn clipped(t: Seq<char>) -> Seq<char> {
    if t.len() <= MAX_CELL_CHARS {
        t
    } else {
        t.take(MAX_CELL_CHARS as int).push('…')
    }
}

fn clip(t: &Vec<char>) -> (r: String)
    ensures
        r@ == clipped(t@),
{
    if t.len() <= MAX_CELL_CHARS {
        return string_of(t);
    }
    let mut s: String = cut_to(string_of(t).as_str(), MAX_CELL_CHARS);
    s.push('…');
    s
}

/// The value that a cell stores.
pub open spec fn raw_of(n: Tree) -> Option<Seq<char>> {
    if n.attr("value"@) is Some {
        n.attr("value"@)
    } else if n.attr("date-value"@) is Some {
        n.attr("date-value"@)
    } else if n.attr("time-value"@) is Some {
        n.attr("time-value"@)
    } else {
        n.attr("boolean-value"@)
    }
}

fn raw_value(n: &Element) -> (r: Option<&str>)
    ensures
        r is Some == raw_of(n@) is Some,
        r matches Some(s) ==> s@ == raw_of(n@)->0,
{
    if let Some(v) = n.attr_local("value") {
        return Some(v);
    }
    if let Some(v) = n.attr_local("date-value") {
        return Some(v);
    }
    if let Some(v) = n.attr_local("time-value") {
        return Some(v);
    }
    n.attr_local("boolean-value")
}

// ── the sheet ────────────────────────────────────────────────────────────────

/// What a grid is written from.
pub struct Book<'a> {
    pub rows: &'a Rows<'a>,
    /// The columns that the sheet states.
    pub columns: Vec<&'a Element>,
    pub cols: Vec<Track>,
    /// The rows, counted from one.
    pub tracks: Vec<Track>,
    pub merges: Vec<Merge>,
    pub nrows: u32,
    pub ncols: usize,
    pub styles: &'a Styles,
    pub numbers: &'a Numbers,
    pub terms: &'a Terms,
    pub values: &'a Values,
}

pub struct BookView {
    pub rows: RowsView,
    pub columns: Seq<Tree>,
    pub cols: Seq<Track>,
    pub tracks: Seq<Track>,
    pub merges: Seq<Merge>,
    pub nrows: u32,
    pub ncols: usize,
    pub store: Store,
    pub numbers: DefRows,
    pub terms: Seq<Seq<char>>,
    pub values: Seq<AnswerView>,
}

impl<'a> View for Book<'a> {
    type V = BookView;

    open spec fn view(&self) -> BookView {
        BookView {
            rows: self.rows@,
            columns: trees(self.columns@),
            cols: self.cols@,
            tracks: self.tracks@,
            merges: self.merges@,
            nrows: self.nrows,
            ncols: self.ncols,
            store: self.styles@,
            numbers: self.numbers.rows(),
            terms: self.terms@,
            values: answer_views(self.values.list@),
        }
    }
}

impl BookView {
    /// There is a track for every row and every column.
    pub open spec fn wf(self) -> bool {
        &&& self.nrows <= MAX_ROWS
        &&& self.ncols <= MAX_COLS
        &&& self.cols.len() == self.ncols
        &&& self.tracks.len() == self.nrows + 2
        &&& forall|i: int|
            0 <= i < self.merges.len() ==> {
                let m = #[trigger] self.merges[i];
                1 <= m.r0 <= m.r1 <= self.nrows && m.c0 <= m.c1 < self.ncols
            }
    }
}

/// A grid being written.
pub struct Grid {
    pub w: Writer,
    pub marker: Highlight,
    pub styles: SheetStyles,
    /// A formula has no value.
    pub missing: bool,
    pub asked: Vec<Asked>,
}

pub struct GridView {
    pub w: Written,
    pub marks: u64,
    pub styles: RulesView,
    pub missing: bool,
    pub asked: Seq<AskedView>,
}

impl View for Grid {
    type V = GridView;

    open spec fn view(&self) -> GridView {
        GridView {
            w: self.w@,
            marks: self.marker@,
            styles: self.styles@,
            missing: self.missing,
            asked: asked_views(self.asked@),
        }
    }
}

/// The code that a cell style shows values through.
pub open spec fn code_for(b: BookView, style: Seq<char>) -> Option<Seq<char>> {
    match chain_data(chain_of(b.store.styles, Family::TableCell, style)) {
        Some(name) => match lookup(b.numbers, name) {
            Some(d) => Some(code_of(b.numbers, d)),
            None => None,
        },
        None => None,
    }
}

fn code_of_style<'a>(b: &Book<'a>, style: &str) -> (r: Option<String>)
    ensures
        opt_view(r) == code_for(b@, style@),
{
    match b.styles.data_style_of(style) {
        Some(name) => b.numbers.code(name.as_str()),
        None => None,
    }
}

/// The text of a cell that stores none: what its value shows as. A formula without a
/// value is remembered, and a value without an answer is asked for.
pub open spec fn valued(b: BookView, g: GridView, n: Tree, style: Seq<char>) -> (
    GridView,
    Seq<char>,
) {
    let lost = GridView { missing: g.missing || n.attr("formula"@) is Some, ..g };
    match raw_of(n) {
        None => (lost, Seq::empty()),
        Some(raw) => match answer_to(b.values, (raw, code_for(b, style))) {
            Some(a) => match a.text {
                Some(t) => (g, t),
                None => (lost, Seq::empty()),
            },
            None => (
                GridView { asked: g.asked.push((raw, code_for(b, style))), ..g },
                Seq::empty(),
            ),
        },
    }
}

fn value_text<'a>(b: &Book<'a>, g: &mut Grid, n: &Element, style: &str) -> (r: Vec<char>)
    ensures
        (final(g)@, r@) == valued(b@, old(g)@, n@, style@),
{
    let none: Vec<char> = no_attrs();
    let formula: bool = n.attr_local("formula").is_some();
    let raw: &str = match raw_value(n) {
        Some(raw) => raw,
        None => {
            if formula {
                g.missing = true;
            }
            return none;
        },
    };
    let asked = Asked { raw: String::from_str(raw), code: code_of_style(b, style) };
    match b.values.get(&asked) {
        Some(a) => match &a.text {
            Some(t) => chars_of(t.as_str()),
            None => {
                if formula {
                    g.missing = true;
                }
                none
            },
        },
        None => {
            let ghost before = g.asked@;
            g.asked.push(asked);
            assert(asked_views(g.asked@) =~= asked_views(before).push(asked@));
            none
        },
    }
}

/// What a cell of the grid shows.
pub struct Face<S = String> {
    pub text: S,
    pub align: Option<Align>,
    pub style: Option<u32>,
    /// The content is turned, and needs a box of its own.
    pub inner: bool,
}

pub type FaceView = Face<Seq<char>>;

impl View for Face<String> {
    type V = FaceView;

    open spec fn view(&self) -> FaceView {
        Face { text: self.text@, align: self.align, style: self.style, inner: self.inner }
    }
}

/// What a cell of column `c` shows: the text that its producer made, or else its value.
pub open spec fn faced(b: BookView, g: GridView, n: Option<Tree>, c: int) -> (
    GridView,
    FaceView,
) {
    match n {
        None => (g, Face { text: Seq::empty(), align: None, style: None, inner: false }),
        Some(n) => {
            let name = cell_style_name(b.columns, n, c);
            let r = b.store.resolved(Family::TableCell, name);
            let g1 = if name.len() > 0 {
                GridView { styles: g.styles.with(name, r), ..g }
            } else {
                g
            };
            let v = match display_of(n) {
                Some(t) => (g1, t),
                None => valued(b, g1, n, name),
            };
            (
                v.0,
                Face {
                    text: clipped(v.1),
                    align: align_by(n.attr("value-type"@)),
                    style: if name.len() > 0 {
                        g.styles.number(name, r)
                    } else {
                        None
                    },
                    inner: r.cell.rotation is Some,
                },
            )
        },
    }
}

fn face<'a>(b: &Book<'a>, g: &mut Grid, n: Option<&'a Element>, c: usize) -> (r: Face)
    ensures
        (final(g)@, r@) == faced(
            b@,
            old(g)@,
            match n {
                Some(n) => Some(n@),
                None => None,
            },
            c as int,
        ),
{
    let n: &'a Element = match n {
        Some(n) => n,
        None => {
            let text: String = String::new();
            assert(text@ =~= Seq::<char>::empty());
            return Face { text, align: None, style: None, inner: false };
        },
    };
    let name: &str = style_name(&b.columns, n, c);
    let r: Resolved = b.styles.resolve(Family::TableCell, name);
    let named: bool = chars_of(name).len() > 0;
    let style: Option<u32> = if named {
        g.styles.intern(name, &r)
    } else {
        None
    };
    let text: Vec<char> = match display_text(n) {
        Some(t) => t,
        None => value_text(b, g, n, name),
    };
    Face {
        text: clip(&text),
        align: align_of(n.attr_local("value-type")),
        style,
        inner: r.cell.rotation.is_some(),
    }
}

// ── merges ───────────────────────────────────────────────────────────────────

/// The first visible of the tracks from `a` to `z`; `a` where none is.
pub open spec fn first_shown(t: Seq<Track>, a: int, z: int) -> int
    decreases z - a,
{
    if a < z && 0 <= a < t.len() && t[a].hidden {
        first_shown(t, a + 1, z)
    } else {
        a
    }
}

/// How many of the tracks from `a` to `z` are visible.
pub open spec fn shown_count(t: Seq<Track>, a: int, z: int) -> nat
    decreases z - a + 1,
{
    if a > z {
        0
    } else {
        shown_count(t, a + 1, z) + if 0 <= a < t.len() && !t[a].hidden {
            1nat
        } else {
            0nat
        }
    }
}

fn first_visible(t: &Vec<Track>, a: usize, z: usize) -> (r: usize)
    requires
        a <= z,
        z < t@.len(),
    ensures
        r == first_shown(t@, a as int, z as int),
{
    let mut i: usize = a;
    while i < z && t[i].hidden
        invariant
            a <= i <= z,
            z < t@.len(),
            first_shown(t@, a as int, z as int) == first_shown(t@, i as int, z as int),
        decreases z - i,
    {
        i = i + 1;
    }
    i
}

fn count_visible(t: &Vec<Track>, a: usize, z: usize) -> (r: usize)
    requires
        a <= z,
        z < t@.len(),
    ensures
        r == shown_count(t@, a as int, z as int),
        r <= z - a + 1,
{
    let total: usize = t.len();
    let mut i: usize = z + 1;
    let mut n: usize = 0;
    while i > a
        invariant
            a <= i <= z + 1,
            z < total,
            total == t@.len(),
            n == shown_count(t@, i as int, z as int),
            n <= z + 1 - i,
        decreases i,
    {
        i = i - 1;
        if !t[i].hidden {
            n = n + 1;
        }
    }
    n
}

pub open spec fn covers(m: Merge, r: int, c: int) -> bool {
    m.r0 <= r <= m.r1 && m.c0 <= c <= m.c1
}

/// The first merge that covers a place.
pub open spec fn merge_at(v: Seq<Merge>, r: int, c: int) -> Option<Merge>
    decreases v.len(),
{
    if v.len() == 0 {
        None
    } else if covers(v[0], r, c) {
        Some(v[0])
    } else {
        merge_at(v.skip(1), r, c)
    }
}

fn find_merge(v: &Vec<Merge>, r: u32, c: usize) -> (m: Option<Merge>)
    ensures
        m == merge_at(v@, r as int, c as int),
        m matches Some(x) ==> v@.contains(x),
{
    assert(v@.skip(0) =~= v@);
    for i in 0..v.len()
        invariant
            merge_at(v@, r as int, c as int) == merge_at(v@.skip(i as int), r as int, c as int),
    {
        assert(v@.skip(i as int)[0] == v@[i as int]);
        assert(v@.skip(i as int).skip(1) =~= v@.skip(i + 1));
        let m: Merge = v[i];
        if m.r0 <= r && r <= m.r1 && m.c0 <= c && c <= m.c1 {
            assert(v@[i as int] == m);
            return Some(m);
        }
    }
    None
}

// ── writing ──────────────────────────────────────────────────────────────────

pub open spec fn class_of(f: FaceView) -> Seq<char> {
    (match f.style {
        Some(id) => "xf"@ + decimal(id as nat) + " "@,
        None => Seq::empty(),
    }) + "xl-t"@ + (match f.align {
        Some(Align::Right) => " xl-num"@,
        Some(Align::Center) => " xl-ctr"@,
        _ => Seq::empty(),
    })
}

fn class(f: &Face) -> (r: Vec<char>)
    ensures
        r@ == class_of(f@),
{
    let mut v: Vec<char> = Vec::new();
    if let Some(id) = f.style {
        push_text(&mut v, "xf");
        push_u64(&mut v, id as u64);
        push_text(&mut v, " ");
    }
    push_text(&mut v, "xl-t");
    match f.align {
        Some(Align::Right) => push_text(&mut v, " xl-num"),
        Some(Align::Center) => push_text(&mut v, " xl-ctr"),
        _ => {},
    }
    assert(v@ =~= class_of(f@));
    v
}

/// After a cell of the grid.
pub open spec fn face_written(
    g: GridView,
    f: FaceView,
    rows: usize,
    cols: usize,
    terms: Seq<Seq<char>>,
) -> GridView {
    let w0 = g.w.opened(
        "td"@,
        attr_text("class"@, class_of(f)) + span_attr("colspan"@, cols) + span_attr(
            "rowspan"@,
            rows,
        ),
    );
    let w1 = if f.inner {
        w0.opened("span"@, attr_text("class"@, "xr"@))
    } else {
        w0
    };
    let m = marked(f.text, terms, g.marks);
    let w2 = w1.raw(m.0);
    let w3 = if f.inner {
        w2.closed()
    } else {
        w2
    };
    GridView { w: w3.closed(), marks: m.1, ..g }
}

fn emit_face(g: &mut Grid, f: &Face, rows: usize, cols: usize, terms: &Terms)
    ensures
        final(g)@ == face_written(old(g)@, f@, rows, cols, terms@),
{
    let mut a: Vec<char> = no_attrs();
    assert(plain("class"@)) by {
        lemma_attr_names();
    }
    push_attr(&mut a, "class", &class(f));
    assert(plain("colspan"@) && plain("rowspan"@)) by {
        lemma_attr_names();
    }
    push_span(&mut a, "colspan", cols);
    push_span(&mut a, "rowspan", rows);
    assert(a@ =~= attr_text("class"@, class_of(f@)) + span_attr("colspan"@, cols) + span_attr(
        "rowspan"@,
        rows,
    ));
    assert(is_name("td"@) && !is_void("td"@)) by {
        lemma_tags();
    }
    g.w.open("td", &a);
    if f.inner {
        let mut b: Vec<char> = no_attrs();
        assert(plain("class"@)) by {
            lemma_attr_names();
        }
        push_attr(&mut b, "class", &chars_of("xr"));
        assert(b@ =~= attr_text("class"@, "xr"@));
        assert(is_name("span"@) && !is_void("span"@)) by {
            lemma_tags();
        }
        g.w.open("span", &b);
    }
    let t: Vec<char> = g.marker.mark(f.text.as_str(), terms);
    g.w.raw(&t);
    if f.inner {
        g.w.close();
    }
    g.w.close();
}

/// After one place of the grid. A merge is shown in its first visible place, with what
/// its opening cell holds; the other places that it covers show nothing.
pub open spec fn place_written(b: BookView, g: GridView, r: int, c: int) -> GridView {
    if b.cols[c].hidden {
        g
    } else {
        match merge_at(b.merges, r, c) {
            Some(m) => if r == first_shown(b.tracks, m.r0 as int, m.r1 as int) && c == first_shown(
                b.cols,
                m.c0 as int,
                m.c1 as int,
            ) {
                let f = faced(b, g, cell_at(b.rows, m.r0, m.c0 as nat), m.c0 as int);
                face_written(
                    f.0,
                    f.1,
                    shown_count(b.tracks, m.r0 as int, m.r1 as int) as usize,
                    shown_count(b.cols, m.c0 as int, m.c1 as int) as usize,
                    b.terms,
                )
            } else {
                g
            },
            None => {
                let f = faced(b, g, cell_at(b.rows, r as u32, c as nat), c);
                face_written(f.0, f.1, 1, 1, b.terms)
            },
        }
    }
}

fn emit_place<'a>(b: &Book<'a>, g: &mut Grid, r: u32, c: usize)
    requires
        b@.wf(),
        c < b.ncols,
        1 <= r <= b.nrows,
    ensures
        final(g)@ == place_written(b@, old(g)@, r as int, c as int),
{
    if b.cols[c].hidden {
        return;
    }
    match find_merge(&b.merges, r, c) {
        Some(m) => {
            proof {
                let i = choose|i: int| 0 <= i < b.merges@.len() && b.merges@[i] == m;
                assert(b@.merges[i] == m);
            }
            let row: usize = first_visible(&b.tracks, m.r0 as usize, m.r1 as usize);
            let col: usize = first_visible(&b.cols, m.c0, m.c1);
            if r as usize == row && c == col {
                let f: Face = face(b, g, b.rows.cell(m.r0, m.c0), m.c0);
                let rows: usize = count_visible(&b.tracks, m.r0 as usize, m.r1 as usize);
                let cols: usize = count_visible(&b.cols, m.c0, m.c1);
                emit_face(g, &f, rows, cols, b.terms);
            }
        },
        None => {
            let f: Face = face(b, g, b.rows.cell(r, c), c);
            emit_face(g, &f, 1, 1, b.terms);
        },
    }
}

/// After the places of a row from `c` on.
pub open spec fn places_written(b: BookView, g: GridView, r: int, c: int) -> GridView
    decreases b.ncols - c,
{
    if c >= b.ncols || g.w.full {
        g
    } else {
        places_written(b, place_written(b, g, r, c), r, c + 1)
    }
}

/// After one row: its number, and its places.
pub open spec fn row_written(b: BookView, g: GridView, r: int) -> GridView {
    if b.tracks[r].hidden {
        g
    } else {
        let w = g.w.opened(
            "tr"@,
            style_text(decl("height"@, px_text(b.tracks[r].px))),
        ).opened("th"@, attr_text("class"@, "xl-rn"@)).text(decimal(r as nat)).closed();
        let h = places_written(b, GridView { w, ..g }, r, 0);
        GridView { w: h.w.closed(), ..h }
    }
}

fn emit_row<'a>(b: &Book<'a>, g: &mut Grid, r: u32)
    requires
        b@.wf(),
        1 <= r <= b.nrows,
    ensures
        final(g)@ == row_written(b@, old(g)@, r as int),
{
    let t: Track = b.tracks[r as usize];
    if t.hidden {
        return;
    }
    let mut s = Style::new();
    s.push_px("height", t.px);
    assert(s.css@ =~= decl("height"@, px_text(t.px)));
    let mut a: Vec<char> = no_attrs();
    s.push_to(&mut a);
    assert(a@ =~= style_text(s.css@));
    assert(is_name("tr"@) && !is_void("tr"@)) by {
        lemma_tags();
    }
    g.w.open("tr", &a);
    let mut h: Vec<char> = no_attrs();
    assert(plain("class"@)) by {
        lemma_attr_names();
    }
    push_attr(&mut h, "class", &chars_of("xl-rn"));
    assert(h@ =~= attr_text("class"@, "xl-rn"@));
    assert(is_name("th"@) && !is_void("th"@)) by {
        lemma_tags();
    }
    g.w.open("th", &h);
    let mut n: Vec<char> = Vec::new();
    push_u64(&mut n, r as u64);
    assert(n@ =~= decimal(r as nat));
    g.w.text(string_of(&n).as_str());
    g.w.close();
    let ghost goal = places_written(b@, g@, r as int, 0);
    let mut c: usize = 0;
    while c < b.ncols && !g.w.is_full()
        invariant
            c <= b.ncols,
            b@.wf(),
            1 <= r <= b.nrows,
            places_written(b@, g@, r as int, c as int) == goal,
        decreases b.ncols - c,
    {
        emit_place(b, g, r, c);
        c = c + 1;
    }
    g.w.close();
}

/// After the rows from `r` on.
pub open spec fn rows_written(b: BookView, g: GridView, r: int) -> GridView
    decreases b.nrows - r + 1,
{
    if r > b.nrows || g.w.full {
        g
    } else {
        rows_written(b, row_written(b, g, r), r + 1)
    }
}

/// Writes the rows.
pub fn emit_rows<'a>(b: &Book<'a>, g: &mut Grid)
    requires
        b@.wf(),
    ensures
        final(g)@ == rows_written(b@, old(g)@, 1),
{
    let ghost goal = rows_written(b@, g@, 1);
    let mut r: u32 = 1;
    while r <= b.nrows && !g.w.is_full()
        invariant
            1 <= r <= b.nrows + 1,
            b@.wf(),
            rows_written(b@, g@, r as int) == goal,
        decreases b.nrows + 1 - r,
    {
        emit_row(b, g, r);
        r = r + 1;
    }
}

// ── the head ─────────────────────────────────────────────────────────────────

pub open spec fn widths_written(w: Written, cols: Seq<Track>) -> Written
    decreases cols.len(),
{
    if cols.len() == 0 {
        w
    } else {
        let before = widths_written(w, cols.drop_last());
        if cols.last().hidden {
            before
        } else {
            before.void("col"@, style_text(decl("width"@, px_text(cols.last().px))))
        }
    }
}

pub open spec fn letters_written(w: Written, cols: Seq<Track>) -> Written
    decreases cols.len(),
{
    if cols.len() == 0 {
        w
    } else {
        let before = letters_written(w, cols.drop_last());
        if cols.last().hidden {
            before
        } else {
            before.opened("th"@, Seq::empty()).text(alpha_text(cols.len(), true)).closed()
        }
    }
}

/// The frame of a grid, the widths of its columns, and the row of their letters.
pub open spec fn head_written(w: Written, cols: Seq<Track>) -> Written {
    let table = w.opened("div"@, attr_text("class"@, "xl-doc"@)).opened(
        "div"@,
        attr_text("class"@, "xl-scroll"@),
    ).opened("div"@, attr_text("class"@, "xl-grid"@)).opened(
        "table"@,
        attr_text("class"@, "xl-sheet"@),
    );
    let widths = widths_written(
        table.opened("colgroup"@, Seq::empty()).void("col"@, attr_text("class"@, "xl-gut"@)),
        cols,
    ).closed();
    letters_written(
        widths.opened("tr"@, Seq::empty()).opened("th"@, Seq::empty()).closed(),
        cols,
    ).closed()
}

fn open_class(w: &mut Writer, tag: &'static str, class: &str)
    requires
        is_name(tag@),
        !is_void(tag@),
    ensures
        final(w)@ == old(w)@.opened(tag@, attr_text("class"@, class@)),
{
    let mut a: Vec<char> = no_attrs();
    assert(plain("class"@)) by {
        lemma_attr_names();
    }
    push_attr(&mut a, "class", &chars_of(class));
    assert(a@ =~= attr_text("class"@, class@));
    w.open(tag, &a);
}

/// Writes the frame and the head.
pub fn emit_head(w: &mut Writer, cols: &Vec<Track>)
    requires
        cols@.len() <= MAX_COLS,
    ensures
        final(w)@ == head_written(old(w)@, cols@),
{
    let none: Vec<char> = no_attrs();
    assert(is_name("div"@) && !is_void("div"@) && is_name("table"@) && !is_void("table"@)) by {
        lemma_tags();
    }
    open_class(w, "div", "xl-doc");
    open_class(w, "div", "xl-scroll");
    open_class(w, "div", "xl-grid");
    open_class(w, "table", "xl-sheet");
    assert(is_name("colgroup"@) && !is_void("colgroup"@)) by {
        lemma_tags();
    }
    w.open("colgroup", &none);
    let mut a: Vec<char> = no_attrs();
    assert(plain("class"@)) by {
        lemma_attr_names();
    }
    push_attr(&mut a, "class", &chars_of("xl-gut"));
    assert(a@ =~= attr_text("class"@, "xl-gut"@));
    assert(is_name("col"@) && is_void("col"@)) by {
        lemma_tags();
    }
    w.void("col", &a);
    emit_widths(w, cols);
    w.close();
    assert(is_name("tr"@) && !is_void("tr"@)) by {
        lemma_tags();
    }
    w.open("tr", &none);
    assert(is_name("th"@) && !is_void("th"@)) by {
        lemma_tags();
    }
    w.open("th", &none);
    w.close();
    emit_letters(w, cols);
    w.close();
}

fn emit_widths(w: &mut Writer, cols: &Vec<Track>)
    ensures
        final(w)@ == widths_written(old(w)@, cols@),
{
    let ghost start = w@;
    assert(cols@.take(0) =~= Seq::<Track>::empty());
    for i in 0..cols.len()
        invariant
            w@ == widths_written(start, cols@.take(i as int)),
    {
        assert(cols@.take(i + 1).drop_last() =~= cols@.take(i as int));
        if !cols[i].hidden {
            let mut s = Style::new();
            s.push_px("width", cols[i].px);
            assert(s.css@ =~= decl("width"@, px_text(cols@[i as int].px)));
            let mut a: Vec<char> = no_attrs();
            s.push_to(&mut a);
            assert(a@ =~= style_text(s.css@));
            assert(is_name("col"@) && is_void("col"@)) by {
                lemma_tags();
            }
            w.void("col", &a);
        }
    }
    assert(cols@.take(cols@.len() as int) =~= cols@);
}

fn emit_letters(w: &mut Writer, cols: &Vec<Track>)
    requires
        cols@.len() <= MAX_COLS,
    ensures
        final(w)@ == letters_written(old(w)@, cols@),
{
    let none: Vec<char> = no_attrs();
    let ghost start = w@;
    assert(cols@.take(0) =~= Seq::<Track>::empty());
    for i in 0..cols.len()
        invariant
            none@ == Seq::<char>::empty(),
            are_attrs(none@),
            cols@.len() <= MAX_COLS,
            w@ == letters_written(start, cols@.take(i as int)),
    {
        assert(cols@.take(i + 1).drop_last() =~= cols@.take(i as int));
        if !cols[i].hidden {
            assert(is_name("th"@) && !is_void("th"@)) by {
                lemma_tags();
            }
            w.open("th", &none);
            w.text(string_of(&alpha(i as u32 + 1, true)).as_str());
            w.close();
        }
    }
    assert(cols@.take(cols@.len() as int) =~= cols@);
}

} // verus!
