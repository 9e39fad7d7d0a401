//! Text documents: one continuous column of blocks.
//!
//! The walk over a body is the same for a page and for a slide. It reads from an `Env`
//! that does not change and works on a `Ctx` that does; the contracts say what the `Ctx`
//! is after each element.

use vstd::prelude::*;
use blocks::{walk, walked};
use tail::{emit_note_tail, tailed};
use crate::xml;
use crate::chars::chars_of;
use crate::docshape::{page_css, page_rule, Page, BASE_CSS, MIN_COLUMN_PX};
use crate::document::{styled, wrap_style, DocView, OfficeDoc, Shape};
use crate::highlight::{mark_id, terms_of, Marker as Highlight, Terms};
use crate::html::{attr_text, copy_opt, no_attrs, opt_view, push_attr, Markup, Writer, Written};
use crate::link::{bookmark_id, bookmark_of};
use crate::markup::{balanced, is_name, is_void, lemma_attr_names, lemma_tags, plain};
use crate::media::{picture_views, wanted_views, PictureView, Pictures, Wanted};
use crate::model::{
    as_px, emit_paras, para_views, paras_inked, run_views, to_px, HtmlStyle, Inked, Para, ParaView,
    Run,
};
use crate::notes::{note_texts, noted, Notes};
use crate::odf::length::Px;
use crate::odf::list::{with_list_part, Lists, Numbering};
use crate::odf::pkg::{Entries, Package, MALFORMED};
use crate::odf::style::{
    size_in, size_pt, BreakKind, Family, PageSetup, Resolved, Styles, DEFAULT_SIZE_PT,
};
use crate::odf::style::store::{chain_master, chain_of, opt_tree, SetupView, Store};
use crate::values::AskedView;
use crate::xml::{document, trees, Element, Tree};

pub mod blocks;
pub mod laws;
pub mod runs;
pub mod tail;

verus! {

/// The class names that a stylesheet has for the walk.
#[derive(Clone, Copy, Debug)]
pub struct Classes {
    pub html: HtmlStyle,
    pub table: &'static str,
    /// A table without column widths to lay out against.
    pub table_auto: &'static str,
    pub cell: &'static str,
}

/// The names of a page's stylesheet.
pub open spec fn doc_classes() -> Classes {
    Classes {
        html: HtmlStyle {
            para_class: "of-p",
            list_class: "of-p of-li",
            marker_class: "of-bu",
            text_class: "of-tx",
            break_class: "of-pb",
            img_class: "of-img",
            graphic_class: "of-gph",
            scalable: false,
        },
        table: "of-tbl",
        table_auto: "of-tbl of-tbl-auto",
        cell: "of-tc",
    }
}

impl Classes {
    /// The names of a page's stylesheet.
    pub fn doc() -> (r: Classes)
        ensures
            r == doc_classes(),
    {
        Classes {
            html: HtmlStyle {
                para_class: "of-p",
                list_class: "of-p of-li",
                marker_class: "of-bu",
                text_class: "of-tx",
                break_class: "of-pb",
                img_class: "of-img",
                graphic_class: "of-gph",
                scalable: false,
            },
            table: "of-tbl",
            table_auto: "of-tbl of-tbl-auto",
            cell: "of-tc",
        }
    }
}

/// The paragraph style that text falls back to.
pub const BASE_STYLE: &'static str = "Standard";

/// Paragraphs drawn.
pub const MAX_PARAS: usize = 20_000;

/// Runs per paragraph.
pub const MAX_RUNS: usize = 4000;

/// How deep elements that wrap content may be nested, plus one.
pub const DEPTHS: usize = 17;

/// Text frames drawn.
pub const MAX_BOXES: usize = 64;

/// How deep text frames may be nested.
pub const MAX_BOX_DEPTH: usize = 3;

/// How deep tables may be nested.
pub const MAX_NEST: usize = 3;

/// The bytes of one text frame.
pub const BOX_CAP: usize = 262_144;

pub const MAX_BOOKMARKS: usize = 2000;

/// Spaces that one element may stand for.
pub const MAX_SPACES: u32 = 200;

/// Foot- and endnotes shown.
pub const MAX_NOTES_SHOWN: usize = 64;

/// Characters of a citation kept.
pub const MAX_CITATION_CHARS: usize = 16;

pub const NOTE_PARAS: &'static str = "Long document — first part only";

pub const NOTE_BOXES: &'static str = "Some text boxes not shown";

pub const NOTE_TXBX: &'static str = "Frames placed in the text flow";

pub const NOTE_HEADER: &'static str = "Headers and footers not shown";

pub const NOTE_COLUMNS: &'static str = "Multi-column section shown as one column";

pub const NOTE_NOTES_CAPPED: &'static str = "Some footnotes not shown";

pub const NOTE_BULLET_IMAGE: &'static str = "Image bullets shown as plain bullets";

pub const NOTE_BODY: &'static str = "Document body unreadable";

// ── what a walk reads ────────────────────────────────────────────────────────

/// What a walk reads and does not change.
pub struct Env<'a> {
    /// The listing that references are held against.
    pub entries: &'a Entries,
    /// The width of the column.
    pub column_px: Px,
    pub classes: Classes,
    pub styles: &'a Styles,
    /// The fonts that the page states, which a run of the same leaves unsaid.
    pub default_font: Option<String>,
    /// The section styles that lay their content out in columns.
    pub multi_col: Vec<String>,
    pub terms: &'a Terms,
    pub pictures: &'a Pictures,
}

/// An `Env` as contracts see it.
pub struct EnvView {
    pub entries: Seq<Seq<char>>,
    pub column_px: Px,
    pub classes: Classes,
    pub styles: Store,
    pub default_font: Option<Seq<char>>,
    pub multi_col: Seq<Seq<char>>,
    pub terms: Seq<Seq<char>>,
    pub pictures: Seq<PictureView>,
}

impl<'a> View for Env<'a> {
    type V = EnvView;

    open spec fn view(&self) -> EnvView {
        EnvView {
            entries: self.entries@,
            column_px: self.column_px,
            classes: self.classes,
            styles: self.styles@,
            default_font: opt_view(self.default_font),
            multi_col: note_texts(self.multi_col@),
            terms: self.terms@,
            pictures: picture_views(self.pictures.list@),
        }
    }
}

impl<'a> Env<'a> {
    /// The same, with a column of another width.
    pub fn with_column(&self, column_px: Px) -> (r: Env<'a>)
        ensures
            r@ == (EnvView { column_px, ..self@ }),
    {
        let mut multi_col: Vec<String> = Vec::new();
        for i in 0..self.multi_col.len()
            invariant
                multi_col@.len() == i,
                forall|n: int|
                    0 <= n < i ==> (#[trigger] multi_col@[n])@ == self.multi_col@[n]@,
        {
            multi_col.push(String::from_str(self.multi_col[i].as_str()));
        }
        assert(note_texts(multi_col@) =~= note_texts(self.multi_col@));
        Env {
            entries: self.entries,
            column_px,
            classes: self.classes,
            styles: self.styles,
            default_font: copy_opt(&self.default_font),
            multi_col,
            terms: self.terms,
            pictures: self.pictures,
        }
    }
}

// ── what a walk changes ──────────────────────────────────────────────────────

/// A foot- or endnote that the text refers to.
pub struct NoteRef<'a> {
    pub endnote: bool,
    pub label: String,
    pub body: &'a Element,
    /// Its number among those of its kind.
    pub num: usize,
}

/// A note as contracts see it.
pub struct NoteView {
    pub endnote: bool,
    pub label: Seq<char>,
    pub body: Tree,
    pub num: usize,
}

impl<'a> View for NoteRef<'a> {
    type V = NoteView;

    open spec fn view(&self) -> NoteView {
        NoteView { endnote: self.endnote, label: self.label@, body: self.body@, num: self.num }
    }
}

pub open spec fn note_views(v: Seq<NoteRef>) -> Seq<NoteView> {
    v.map_values(|n: NoteRef| n@)
}

pub open spec fn markup_views(v: Seq<Markup>) -> Seq<Seq<char>> {
    v.map_values(|m: Markup| m@)
}

/// What a walk writes, and what it keeps count of.
pub struct Ctx<'a> {
    pub w: Writer,
    /// Graphics drawn, pictures and boxes alike.
    pub images: usize,
    pub lists: Lists,
    pub marker: Highlight,
    pub notes: Notes,
    /// Blocks that cannot stand inside the paragraph being built, and follow it.
    pub pending: Vec<Markup>,
    pub boxes: usize,
    pub bookmarks: usize,
    pub paras: usize,
    /// Table cells planned.
    pub cells: usize,
    pub note_refs: Vec<NoteRef<'a>>,
    /// The notes themselves are being written: a note inside a note is dropped.
    pub in_note: bool,
    /// The style of the paragraph just before. The start of a body or of a cell has none.
    pub prev_style: Option<String>,
    /// The pictures that were not handed in.
    pub wanted: Vec<Wanted>,
}

/// A `Ctx` as contracts see it.
pub struct CtxView {
    pub w: Written,
    pub images: usize,
    pub lists: Numbering,
    pub marks: u64,
    pub notes: Seq<Seq<char>>,
    pub pending: Seq<Seq<char>>,
    pub boxes: usize,
    pub bookmarks: usize,
    pub paras: usize,
    pub cells: usize,
    pub note_refs: Seq<NoteView>,
    pub in_note: bool,
    pub prev_style: Option<Seq<char>>,
    pub wanted: Seq<(Seq<char>, u32)>,
}

impl<'a> View for Ctx<'a> {
    type V = CtxView;

    open spec fn view(&self) -> CtxView {
        CtxView {
            w: self.w@,
            images: self.images,
            lists: self.lists@,
            marks: self.marker@,
            notes: self.notes@,
            pending: markup_views(self.pending@),
            boxes: self.boxes,
            bookmarks: self.bookmarks,
            paras: self.paras,
            cells: self.cells,
            note_refs: note_views(self.note_refs@),
            in_note: self.in_note,
            prev_style: opt_view(self.prev_style),
            wanted: wanted_views(self.wanted@),
        }
    }
}

/// How much deeper a walk may go.
#[derive(Clone, Copy, Debug)]
pub struct Room {
    /// Text frames inside one another.
    pub boxes: usize,
    /// Tables inside one another.
    pub tables: usize,
    /// Elements that wrap content.
    pub depth: usize,
}

impl Room {
    pub open spec fn whole() -> Room {
        Room { boxes: MAX_BOX_DEPTH, tables: MAX_NEST, depth: DEPTHS }
    }

    pub fn full() -> (r: Room)
        ensures
            r == Room::whole(),
    {
        Room { boxes: MAX_BOX_DEPTH, tables: MAX_NEST, depth: DEPTHS }
    }

    /// The room inside one more wrapper.
    pub open spec fn inner(self) -> Room {
        Room { depth: (self.depth - 1) as usize, ..self }
    }

    /// The room inside one more table.
    pub open spec fn in_table(self) -> Room {
        Room { tables: (self.tables - 1) as usize, depth: DEPTHS, ..self }
    }

    /// The room inside one more text frame.
    pub open spec fn in_box(boxes: usize) -> Room {
        Room { boxes: (boxes - 1) as usize, tables: MAX_NEST, depth: DEPTHS }
    }
}

impl CtxView {
    /// Before anything is walked.
    pub open spec fn fresh(w: Written, lists: Numbering, notes: Seq<Seq<char>>) -> CtxView {
        CtxView {
            w,
            images: 0,
            lists,
            marks: 0,
            notes,
            pending: Seq::empty(),
            boxes: 0,
            bookmarks: 0,
            paras: 0,
            cells: 0,
            note_refs: Seq::empty(),
            in_note: false,
            prev_style: None,
            wanted: Seq::empty(),
        }
    }

    pub open spec fn noting(self, note: Seq<char>) -> CtxView {
        CtxView { notes: noted(self.notes, note), ..self }
    }

    /// After a paragraph.
    pub open spec fn inked(self, k: EnvView, p: ParaView) -> CtxView {
        let x = paras_inked(
            Inked { w: self.w, marks: self.marks },
            seq![p],
            k.classes.html,
            k.terms,
        );
        CtxView { w: x.w, marks: x.marks, ..self }
    }

    /// After a break that the author states. `auto` only cancels one.
    pub open spec fn broken(self, k: EnvView, b: Option<BreakKind>) -> CtxView {
        if b == Some(BreakKind::Page) || b == Some(BreakKind::Column) {
            CtxView {
                w: self.w.void("br"@, attr_text("class"@, k.classes.html.break_class@)),
                ..self
            }
        } else {
            self
        }
    }

    /// After the blocks that waited for the paragraph to end.
    pub open spec fn flushed(self) -> CtxView {
        CtxView { w: with_raws(self.w, self.pending), pending: Seq::empty(), ..self }
    }
}

pub open spec fn with_raws(w: Written, v: Seq<Seq<char>>) -> Written
    decreases v.len(),
{
    if v.len() == 0 {
        w
    } else {
        with_raws(w, v.drop_last()).raw(v.last())
    }
}

impl<'a> Ctx<'a> {
    /// Before anything is walked.
    pub fn new(w: Writer, lists: Lists, notes: Notes) -> (r: Ctx<'a>)
        ensures
            r@ == CtxView::fresh(w@, lists@, notes@),
    {
        let r = Ctx {
            w,
            images: 0,
            lists,
            marker: Highlight::new(),
            notes,
            pending: Vec::new(),
            boxes: 0,
            bookmarks: 0,
            paras: 0,
            cells: 0,
            note_refs: Vec::new(),
            in_note: false,
            prev_style: None,
            wanted: Vec::new(),
        };
        assert(r@.pending =~= Seq::<Seq<char>>::empty());
        assert(r@.note_refs =~= Seq::<NoteView>::empty());
        assert(r@.wanted =~= Seq::<(Seq<char>, u32)>::empty());
        r
    }

    pub fn note(&mut self, note: &str)
        ensures
            final(self)@ == old(self)@.noting(note@),
    {
        self.notes.add(note);
    }

    pub fn ink(&mut self, k: &Env<'a>, p: Para)
        ensures
            final(self)@ == old(self)@.inked(k@, p@),
    {
        let mut v: Vec<Para> = Vec::new();
        let ghost view = p@;
        v.push(p);
        assert(para_views(v@) =~= seq![view]);
        emit_paras(&mut self.w, v.as_slice(), &k.classes.html, &mut self.marker, k.terms);
    }

    pub fn break_page(&mut self, k: &Env<'a>, b: Option<BreakKind>)
        ensures
            final(self)@ == old(self)@.broken(k@, b),
    {
        if b == Some(BreakKind::Page) || b == Some(BreakKind::Column) {
            let mut a: Vec<char> = no_attrs();
            assert(plain("class"@)) by {
                lemma_attr_names();
            }
            push_attr(&mut a, "class", &chars_of(k.classes.html.break_class));
            assert(a@ =~= attr_text("class"@, k.classes.html.break_class@));
            assert(is_name("br"@) && is_void("br"@)) by {
                lemma_tags();
            }
            self.w.void("br", &a);
        }
    }

    pub fn flush(&mut self)
        ensures
            final(self)@ == old(self)@.flushed(),
    {
        let mut v: Vec<Markup> = Vec::new();
        std::mem::swap(&mut v, &mut self.pending);
        let ghost start = self@;
        let ghost ps = markup_views(v@);
        assert(start.pending =~= Seq::<Seq<char>>::empty());
        assert(ps.take(0) =~= Seq::<Seq<char>>::empty());
        for i in 0..v.len()
            invariant
                ps == markup_views(v@),
                self@ == (CtxView { w: with_raws(start.w, ps.take(i as int)), ..start }),
        {
            assert(ps.take(i + 1).drop_last() =~= ps.take(i as int));
            assert(ps.take(i + 1).last() == v@[i as int]@);
            v[i].write(&mut self.w);
        }
        assert(ps.take(ps.len() as int) =~= ps);
    }

    /// The id of a bookmark.
    pub fn bookmark(&mut self, n: &Element) -> (r: Option<String>)
        ensures
            opt_view(r) == mark_of(old(self)@, n@),
            final(self)@ == old(self)@.marking(n@),
    {
        if self.bookmarks >= MAX_BOOKMARKS {
            return None;
        }
        match n.attr_local("name") {
            Some(name) => match bookmark_id(name) {
                Some(id) => {
                    self.bookmarks = self.bookmarks + 1;
                    Some(id)
                },
                None => None,
            },
            None => None,
        }
    }
}

/// The id of a bookmark, as long as there are not too many.
pub open spec fn mark_of(s: CtxView, n: Tree) -> Option<Seq<char>> {
    if s.bookmarks >= MAX_BOOKMARKS {
        None
    } else {
        match n.attr("name"@) {
            Some(name) => bookmark_of(name),
            None => None,
        }
    }
}

impl CtxView {
    pub open spec fn marking(self, n: Tree) -> CtxView {
        if mark_of(self, n) is Some {
            CtxView { bookmarks: (self.bookmarks + 1) as usize, ..self }
        } else {
            self
        }
    }
}

// ── the page ─────────────────────────────────────────────────────────────────

/// The bytes of a document.
pub const HTML_CAP: usize = 8_388_608;

pub const DEFAULT_TAB_PX: Px = 18_288_000_000;

pub const MAX_TAB_PX: Px = 146_304_000_000;

/// Paragraphs looked at for the master page that a document starts on.
pub const MAX_MASTER_SCAN: usize = 512;

pub const MAX_SECTION_STYLES: usize = 1024;

/// The master page that the first of some paragraphs to name one starts.
pub open spec fn master_among(store: Store, v: Seq<Tree>, n: nat) -> Option<Seq<char>>
    decreases v.len(),
{
    if v.len() == 0 || n == 0 {
        None
    } else if v[0].name == "p"@ || v[0].name == "h"@ {
        let own = match v[0].attr("style-name"@) {
            Some(name) => chain_master(chain_of(store.styles, Family::Paragraph, name)),
            None => None,
        };
        if own is Some {
            own
        } else {
            master_among(store, v.skip(1), (n - 1) as nat)
        }
    } else {
        master_among(store, v.skip(1), n)
    }
}

fn first_master(styles: &Styles, body: &Element) -> (r: Option<String>)
    ensures
        opt_view(r) == master_among(styles@, body@.inside(), MAX_MASTER_SCAN as nat),
{
    let v: Vec<&Element> = body.inside();
    let ghost ts = trees(v@);
    let ghost goal = master_among(styles@, ts, MAX_MASTER_SCAN as nat);
    assert(ts.skip(0) =~= ts);
    let mut left: usize = MAX_MASTER_SCAN;
    for i in 0..v.len()
        invariant
            ts == trees(v@),
            ts == body@.inside(),
            goal == master_among(styles@, ts, MAX_MASTER_SCAN as nat),
            master_among(styles@, ts.skip(i as int), left as nat) == goal,
    {
        assert(ts.skip(i as int)[0] == v@[i as int]@);
        assert(ts.skip(i as int).skip(1) =~= ts.skip(i + 1));
        if left == 0 {
            return None;
        }
        if v[i].is("p") || v[i].is("h") {
            if let Some(name) = v[i].attr_local("style-name") {
                let own: Option<String> = styles.master_page_of(name);
                if own.is_some() {
                    return own;
                }
            }
            left = left - 1;
        }
    }
    None
}

/// Whether a section style lays its content out in columns.
pub open spec fn has_columns(s: Tree) -> bool {
    s.child("section-properties"@) matches Some(p) && p.child("columns"@) matches Some(c)
        && c.attr_u32("column-count"@) matches Some(n) && n > 1
}

fn in_columns(s: &Element) -> (r: bool)
    ensures
        r == has_columns(s@),
{
    match s.child("section-properties") {
        Some(p) => match p.child("columns") {
            Some(c) => match c.attr_u32("column-count") {
                Some(n) => n > 1,
                None => false,
            },
            None => false,
        },
        None => false,
    }
}

pub open spec fn with_section(out: Seq<Seq<char>>, s: Tree) -> Seq<Seq<char>> {
    let name = s.attr("name"@);
    if s.name == "style"@ && s.attr("family"@) == Some("section"@) && out.len()
        < MAX_SECTION_STYLES && name is Some && has_columns(s) {
        noted(out, name->0)
    } else {
        out
    }
}

pub open spec fn with_sections(out: Seq<Seq<char>>, v: Seq<Tree>) -> Seq<Seq<char>>
    decreases v.len(),
{
    if v.len() == 0 {
        out
    } else {
        with_section(with_sections(out, v.drop_last()), v.last())
    }
}

/// The section styles with columns, each one once.
pub open spec fn sections_in(v: Seq<Tree>) -> Seq<Seq<char>>
    decreases v.len(),
{
    if v.len() == 0 {
        Seq::empty()
    } else {
        let before = sections_in(v.drop_last());
        if v.last().name == "styles"@ || v.last().name == "automatic-styles"@ {
            with_sections(before, v.last().elems())
        } else {
            before
        }
    }
}

fn add_sections(out: &mut Notes, container: &Element, count: usize) -> (r: usize)
    requires
        count == old(out)@.len(),
        count <= MAX_SECTION_STYLES,
    ensures
        final(out)@ == with_sections(old(out)@, container@.elems()),
        r == final(out)@.len(),
        r <= MAX_SECTION_STYLES,
{
    let ghost start = out@;
    let mut n: usize = count;
    let v: Vec<&Element> = container.elems();
    let ghost ts = trees(v@);
    assert(ts.take(0) =~= Seq::<Tree>::empty());
    for i in 0..v.len()
        invariant
            ts == trees(v@),
            n == out@.len(),
            n <= MAX_SECTION_STYLES,
            out@ == with_sections(start, ts.take(i as int)),
    {
        assert(ts.take(i + 1).drop_last() =~= ts.take(i as int));
        assert(ts.take(i + 1).last() == v@[i as int]@);
        let s: &Element = v[i];
        let family: bool = match s.attr_local("family") {
            Some(f) => *f == *"section",
            None => false,
        };
        if s.is("style") && family && n < MAX_SECTION_STYLES {
            if let Some(name) = s.attr_local("name") {
                if in_columns(s) && !out.has(name) {
                    out.add(name);
                    n = n + 1;
                }
            }
        }
    }
    assert(ts.take(ts.len() as int) =~= ts);
    n
}

fn multi_column_sections(root: &Element) -> (r: Vec<String>)
    ensures
        note_texts(r@) == sections_in(root@.elems()),
{
    let mut out: Notes = Notes::new();
    let mut n: usize = 0;
    let v: Vec<&Element> = root.elems();
    let ghost ts = trees(v@);
    assert(ts.take(0) =~= Seq::<Tree>::empty());
    for i in 0..v.len()
        invariant
            ts == trees(v@),
            n == out@.len(),
            n <= MAX_SECTION_STYLES,
            out@ == sections_in(ts.take(i as int)),
    {
        assert(ts.take(i + 1).drop_last() =~= ts.take(i as int));
        assert(ts.take(i + 1).last() == v@[i as int]@);
        if v[i].is("styles") || v[i].is("automatic-styles") {
            n = add_sections(&mut out, v[i], n);
        }
    }
    assert(ts.take(ts.len() as int) =~= ts);
    out.into_vec()
}

/// The distance between tab stops.
pub open spec fn tab_of(v: Option<Px>) -> Px {
    match v {
        Some(v) => if v <= 0 {
            DEFAULT_TAB_PX
        } else if v > MAX_TAB_PX {
            MAX_TAB_PX
        } else {
            v
        },
        None => DEFAULT_TAB_PX,
    }
}

fn tab_px(v: Option<Px>) -> (r: Px)
    ensures
        r == tab_of(v),
{
    match v {
        Some(v) => if v <= 0 {
            DEFAULT_TAB_PX
        } else if v > MAX_TAB_PX {
            MAX_TAB_PX
        } else {
            v
        },
        None => DEFAULT_TAB_PX,
    }
}

/// The width of the column between a page's margins.
pub open spec fn column_of(p: Page) -> Px {
    let v = as_px(p.width - p.left - p.right);
    if v < MIN_COLUMN_PX {
        MIN_COLUMN_PX
    } else {
        v
    }
}

fn column_px(p: &Page) -> (r: Px)
    ensures
        r == column_of(*p),
{
    let v: Px = to_px(p.width as i128 - p.left as i128 - p.right as i128);
    if v < MIN_COLUMN_PX {
        MIN_COLUMN_PX
    } else {
        v
    }
}

/// The notes with some more.
pub open spec fn all_noted(notes: Seq<Seq<char>>, v: Seq<Seq<char>>) -> Seq<Seq<char>>
    decreases v.len(),
{
    if v.len() == 0 {
        notes
    } else {
        noted(all_noted(notes, v.drop_last()), v.last())
    }
}

/// Adds notes.
pub fn add_notes(notes: &mut Notes, v: &Vec<String>)
    ensures
        final(notes)@ == all_noted(old(notes)@, note_texts(v@)),
{
    let ghost start = notes@;
    let ghost ns = note_texts(v@);
    assert(ns.take(0) =~= Seq::<Seq<char>>::empty());
    for i in 0..v.len()
        invariant
            ns == note_texts(v@),
            notes@ == all_noted(start, ns.take(i as int)),
    {
        assert(ns.take(i + 1).drop_last() =~= ns.take(i as int));
        assert(ns.take(i + 1).last() == v@[i as int]@);
        notes.add(v[i].as_str());
    }
    assert(ns.take(ns.len() as int) =~= ns);
}

/// The list styles of two parts.
pub open spec fn lists_of(styles: Option<Tree>, content: Option<Tree>) -> Numbering {
    Numbering::fresh(with_list_part(with_list_part(Seq::empty(), styles), content))
}

/// What a renderer is given: the body, the stylesheet, and what goes with them.
pub struct Input {
    pub root: Tree,
    pub styles: Option<Tree>,
    pub entries: Seq<Seq<char>>,
    pub notes: Seq<Seq<char>>,
    pub terms: Seq<Seq<char>>,
    pub pictures: Seq<PictureView>,
    pub picture_notes: Seq<Seq<char>>,
}

/// What a renderer is given, once the parts are parsed.
pub open spec fn input_of(
    p: Package,
    root: Tree,
    notes: Seq<Seq<char>>,
    terms: Seq<String>,
    pictures: Pictures,
) -> Input {
    Input {
        root,
        styles: match p.styles {
            Some(s) => document(s@),
            None => None,
        },
        entries: p.entries@,
        notes,
        terms: terms_of(terms),
        pictures: picture_views(pictures.list@),
        picture_notes: note_texts(pictures.notes@),
    }
}

pub open spec fn text_body(root: Tree) -> Option<Tree> {
    match root.child("body"@) {
        Some(b) => b.child("text"@),
        None => None,
    }
}

/// The page that a document starts on.
pub open spec fn setup_of(i: Input) -> SetupView {
    let store = Store::of(i.styles, Some(i.root));
    store.setup(
        match text_body(i.root) {
            Some(b) => master_among(store, b.inside(), MAX_MASTER_SCAN as nat),
            None => None,
        },
    )
}

pub open spec fn doc_env(i: Input) -> EnvView {
    let store = Store::of(i.styles, Some(i.root));
    EnvView {
        entries: i.entries,
        column_px: column_of(setup_of(i).page),
        classes: doc_classes(),
        styles: store,
        default_font: store.resolved(Family::Paragraph, BASE_STYLE@).text.font,
        multi_col: sections_in(i.root.elems()),
        terms: i.terms,
        pictures: i.pictures,
    }
}

/// The state once the body and its notes have been written, inside the page.
pub open spec fn doc_walked(i: Input, cap: nat) -> CtxView {
    let setup = setup_of(i);
    let s = CtxView::fresh(
        Written::fresh(cap).opened("div"@, attr_text("class"@, "of-page"@)),
        lists_of(i.styles, Some(i.root)),
        if setup.has_header || setup.has_footer {
            noted(i.notes, NOTE_HEADER@)
        } else {
            i.notes
        },
    );
    match text_body(i.root) {
        Some(b) => tailed(doc_env(i), walked(doc_env(i), s, b, Room::whole())),
        None => s.noting(NOTE_BODY@),
    }
}

/// The HTML of a text document, without its stylesheet.
pub open spec fn text_html(i: Input, cap: nat) -> Seq<char> {
    doc_walked(i, cap).w.closed().finished()
}

/// The preview of a text document. It is one column: there are no sections.
pub open spec fn text_doc(i: Input, cap: nat) -> DocView {
    let page = setup_of(i).page;
    let base = Store::of(i.styles, Some(i.root)).resolved(Family::Paragraph, BASE_STYLE@);
    doc_from(
        doc_walked(i, cap),
        BASE_CSS@,
        page_rule(
            page,
            base.text.font,
            size_in(base.text.size, DEFAULT_SIZE_PT),
            tab_of(base.para.tab_stop_distance_px),
        ),
        Shape::Doc,
        None,
        Some((page.width, page.left, page.top)),
        i.picture_notes,
    )
}

/// The id of the mark to show first, where there is one.
pub open spec fn best_mark(marks: u64) -> Option<Seq<char>> {
    if marks > 0 {
        Some(mark_id(0))
    } else {
        None
    }
}

/// Renders a text document. The section is not looked at: a text document has one.
pub fn render(
    package: Package,
    notes: Notes,
    _section: Option<u32>,
    terms: &[String],
    pictures: &Pictures,
) -> (r: Result<OfficeDoc, String>)
    ensures
        r is Err == document(package.content@) is None,
        r matches Err(e) ==> e@ == MALFORMED@,
        r matches Ok(d) ==> d@ == text_doc(
            input_of(package, document(package.content@)->0, notes@, terms@, *pictures),
            HTML_CAP as nat,
        ),
        r is Ok ==> balanced(
            text_html(
                input_of(package, document(package.content@)->0, notes@, terms@, *pictures),
                HTML_CAP as nat,
            ),
        ),
{
    render_with(package, notes, terms, pictures, HTML_CAP)
}

/// Renders a text document in so many bytes.
pub fn render_with(
    package: Package,
    notes: Notes,
    terms: &[String],
    pictures: &Pictures,
    cap: usize,
) -> (r: Result<OfficeDoc, String>)
    ensures
        r is Err == document(package.content@) is None,
        r matches Err(e) ==> e@ == MALFORMED@,
        r matches Ok(d) ==> d@ == text_doc(
            input_of(package, document(package.content@)->0, notes@, terms@, *pictures),
            cap as nat,
        ),
        r is Ok ==> balanced(
            text_html(
                input_of(package, document(package.content@)->0, notes@, terms@, *pictures),
                cap as nat,
            ),
        ),
{
    let root: Element = match xml::parse(package.content.as_str()) {
        Some(root) => root,
        None => {
            return Err(String::from_str(MALFORMED));
        },
    };
    let sheet: Option<Element> = match &package.styles {
        Some(s) => xml::parse(s.as_str()),
        None => None,
    };
    let ghost i = input_of(package, root@, notes@, terms@, *pictures);
    assert(i.styles == opt_tree(sheet));
    let content: Option<Element> = Some(root);
    let styles: Styles = Styles::of(&sheet, &content);
    let lists: Lists = Lists::of(&sheet, &content);
    let root: &Element = match &content {
        Some(r) => r,
        None => {
            return Err(String::from_str(MALFORMED));
        },
    };
    Ok(render_doc(root, &styles, lists, &package.entries, notes, terms, pictures, cap, Ghost(i)))
}

#[verifier::spinoff_prover]
fn render_doc(
    root: &Element,
    styles: &Styles,
    lists: Lists,
    entries: &Entries,
    notes: Notes,
    terms: &[String],
    pictures: &Pictures,
    cap: usize,
    Ghost(i): Ghost<Input>,
) -> (d: OfficeDoc)
    requires
        root@ == i.root,
        styles@ == Store::of(i.styles, Some(i.root)),
        lists@ == lists_of(i.styles, Some(i.root)),
        entries@ == i.entries,
        notes@ == i.notes,
        terms_of(terms@) == i.terms,
        picture_views(pictures.list@) == i.pictures,
        note_texts(pictures.notes@) == i.picture_notes,
    ensures
        d@ == text_doc(i, cap as nat),
        balanced(text_html(i, cap as nat)),
{
    let mut notes: Notes = notes;
    let body: Option<&Element> = match root.child("body") {
        Some(b) => b.child("text"),
        None => None,
    };
    let master: Option<String> = match body {
        Some(b) => first_master(styles, b),
        None => None,
    };
    let setup: PageSetup = match &master {
        Some(m) => styles.page_setup(Some(m.as_str())),
        None => styles.page_setup(None),
    };
    assert(setup@ == setup_of(i));
    if setup.has_header || setup.has_footer {
        notes.add(NOTE_HEADER);
    }
    let base: Resolved = styles.resolve(Family::Paragraph, BASE_STYLE);
    let query: Terms = Terms::new(terms);
    let k = Env {
        entries,
        column_px: column_px(&setup.page),
        classes: Classes::doc(),
        styles,
        default_font: copy_opt(&base.text.font),
        multi_col: multi_column_sections(root),
        terms: &query,
        pictures,
    };
    assert(k@ == doc_env(i));
    let mut w: Writer = Writer::new(cap);
    let mut a: Vec<char> = no_attrs();
    assert(plain("class"@)) by {
        lemma_attr_names();
    }
    push_attr(&mut a, "class", &chars_of("of-page"));
    assert(a@ =~= attr_text("class"@, "of-page"@));
    assert(is_name("div"@) && !is_void("div"@)) by {
        lemma_tags();
    }
    w.open("div", &a);
    let mut ctx: Ctx = Ctx::new(w, lists, notes);
    match body {
        Some(b) => {
            walk(&k, &mut ctx, b, Room::full());
            emit_note_tail(&k, &mut ctx);
        },
        None => {
            ctx.note(NOTE_BODY);
        },
    }
    assert(ctx@ == doc_walked(i, cap as nat));
    let css: Vec<char> = page_css(
        &setup.page,
        &base.text.font,
        size_pt(&base.text, DEFAULT_SIZE_PT),
        tab_px(base.para.tab_stop_distance_px),
    );
    let (page, left, top): (Px, Px, Px) = (setup.page.width, setup.page.left, setup.page.top);
    finish(ctx, BASE_CSS, &css, Shape::Doc, None, Some((page, left, top)), pictures)
}

/// The preview that a walk comes to, inside one element that is still open.
pub open spec fn doc_from(
    s: CtxView,
    base: Seq<char>,
    own: Seq<char>,
    shape: Shape,
    natural: Option<(Px, Px)>,
    page: Option<(Px, Px, Px)>,
    more: Seq<Seq<char>>,
) -> DocView {
    DocView {
        html: styled(base, own, s.w.closed().finished()),
        shape,
        sections: Seq::empty(),
        section: 0,
        natural,
        page,
        best_mark_id: best_mark(s.marks),
        truncated: s.w.closed().full,
        notes: all_noted(s.notes, more),
        wanted: s.wanted,
        asked: Seq::empty(),
    }
}

/// Closes the element that is still open, and puts the preview together.
pub fn finish<'a>(
    ctx: Ctx<'a>,
    base: &str,
    own: &Vec<char>,
    shape: Shape,
    natural: Option<(Px, Px)>,
    page: Option<(Px, Px, Px)>,
    pictures: &Pictures,
) -> (d: OfficeDoc)
    ensures
        d@ == doc_from(
            ctx@,
            base@,
            own@,
            shape,
            natural,
            page,
            note_texts(pictures.notes@),
        ),
        balanced(ctx@.w.closed().finished()),
{
    let ghost s = ctx@;
    let mut ctx: Ctx<'a> = ctx;
    ctx.w.close();
    add_notes(&mut ctx.notes, &pictures.notes);
    let truncated: bool = ctx.w.is_full();
    let best_mark_id: Option<String> = ctx.marker.best_mark_id();
    let body: String = ctx.w.finish();
    let d = OfficeDoc {
        html: wrap_style(base, own, body.as_str()),
        shape,
        sections: Vec::new(),
        section: 0,
        natural,
        page,
        best_mark_id,
        truncated,
        notes: ctx.notes.into_vec(),
        wanted: ctx.wanted,
        asked: Vec::new(),
    };
    assert(d@.sections =~= Seq::<Seq<char>>::empty());
    assert(d@.asked =~= Seq::<AskedView>::empty());
    d
}

/// Adds a run.
pub fn push_run(out: &mut Vec<Run>, r: Run)
    ensures
        run_views(final(out)@) == run_views(old(out)@).push(r@),
{
    let ghost before = out@;
    out.push(r);
    assert(run_views(out@) =~= run_views(before).push(r@));
}

} // verus!
