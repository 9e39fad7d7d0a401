//! A document's styles: the stylesheet's and the body's own, by family and name.

use vstd::prelude::*;
use crate::xml;
use crate::docshape::{Page, MAX_MARGIN_PX, MAX_PAGE_PX, MIN_COLUMN_PX, MIN_PAGE_PX};
use crate::html::{copy_opt, opt_view};
use crate::names::{law_stored_is_found, lookup, stored, Names};
use crate::odf::length::{clamp_px, clamped, Px};
use crate::odf::numstyle::{name_from, name_of};
use crate::odf::style::{merge, merged, unstated, Family, Resolved, ResolvedView};
use crate::odf::style::props::{
    attr_says, family_of_list, first_family, len, len_attr, or_else, parse_props, props_of, says,
    Faces, MAX_NAME,
};
use crate::xml::{document, trees, Element, Tree};

verus! {

/// Styles that a document may define.
pub const MAX_STYLES: usize = 4096;

/// Parents that are followed.
pub const MAX_PARENT: usize = 16;

// ── what a store holds ───────────────────────────────────────────────────────

/// A style as it is defined.
#[verifier::ext_equal]
#[derive(Debug)]
pub struct RawStyle<S = String, R = Resolved> {
    pub parent: Option<S>,
    /// The master page that a block in this style starts.
    pub master: Option<S>,
    /// The number style that a cell's value is shown through.
    pub data_style: Option<S>,
    pub props: R,
}

pub type RawView = RawStyle<Seq<char>, ResolvedView>;

impl View for RawStyle<String, Resolved> {
    type V = RawView;

    open spec fn view(&self) -> RawView {
        RawStyle {
            parent: opt_view(self.parent),
            master: opt_view(self.master),
            data_style: opt_view(self.data_style),
            props: self.props@,
        }
    }
}

/// A master page: the layout and the background it points at, and whether it asks for a
/// header or a footer.
#[verifier::ext_equal]
#[derive(Debug)]
pub struct MasterPage<S = String> {
    pub layout: Option<S>,
    pub drawing_page: Option<S>,
    pub has_header: bool,
    pub has_footer: bool,
}

pub type MasterView = MasterPage<Seq<char>>;

impl View for MasterPage<String> {
    type V = MasterView;

    open spec fn view(&self) -> MasterView {
        MasterPage {
            layout: opt_view(self.layout),
            drawing_page: opt_view(self.drawing_page),
            has_header: self.has_header,
            has_footer: self.has_footer,
        }
    }
}

/// A master page's geometry, and what else a renderer asks of it.
#[verifier::ext_equal]
#[derive(Debug)]
pub struct PageSetup<S = String> {
    pub page: Page,
    /// A hint for printing. The width and the height are in the page's own orientation
    /// already.
    pub landscape: bool,
    pub has_header: bool,
    pub has_footer: bool,
    /// The style of the slide's background.
    pub drawing_page_style: Option<S>,
    /// Both extents were stated: the page is the document's own.
    pub stated: bool,
}

pub type SetupView = PageSetup<Seq<char>>;

impl View for PageSetup<String> {
    type V = SetupView;

    open spec fn view(&self) -> SetupView {
        PageSetup {
            page: self.page,
            landscape: self.landscape,
            has_header: self.has_header,
            has_footer: self.has_footer,
            drawing_page_style: opt_view(self.drawing_page_style),
            stated: self.stated,
        }
    }
}

pub open spec fn no_setup() -> SetupView {
    PageSetup {
        page: Page::letter(),
        landscape: false,
        has_header: false,
        has_footer: false,
        drawing_page_style: None,
        stated: false,
    }
}

impl Default for PageSetup<String> {
    fn default() -> (r: PageSetup<String>)
        ensures
            r@ == no_setup(),
    {
        PageSetup {
            page: Page::default(),
            landscape: false,
            has_header: false,
            has_footer: false,
            drawing_page_style: None,
            stated: false,
        }
    }
}

/// A store as contracts see it.
#[verifier::ext_equal]
pub struct Store {
    /// By `style_key`.
    pub styles: Seq<(Seq<char>, RawView)>,
    /// By the family's letter.
    pub defaults: Seq<(Seq<char>, ResolvedView)>,
    /// The real family behind a declared font name.
    pub faces: Faces,
    pub layouts: Seq<(Seq<char>, SetupView)>,
    pub masters: Seq<(Seq<char>, MasterView)>,
    pub first_master: Option<Seq<char>>,
}

/// The parsed styles of a document.
#[derive(Debug)]
pub struct Styles {
    styles: Names<RawStyle>,
    defaults: Names<Resolved>,
    faces: Names<String>,
    layouts: Names<PageSetup>,
    masters: Names<MasterPage>,
    first_master: Option<String>,
}

impl View for Styles {
    type V = Store;

    closed spec fn view(&self) -> Store {
        Store {
            styles: self.styles@,
            defaults: self.defaults@,
            faces: self.faces@,
            layouts: self.layouts@,
            masters: self.masters@,
            first_master: opt_view(self.first_master),
        }
    }
}

// ── families ─────────────────────────────────────────────────────────────────

pub open spec fn family_named(v: Seq<char>) -> Option<Family> {
    if v == "text"@ {
        Some(Family::Text)
    } else if v == "paragraph"@ {
        Some(Family::Paragraph)
    } else if v == "graphic"@ {
        Some(Family::Graphic)
    } else if v == "presentation"@ {
        Some(Family::Presentation)
    } else if v == "drawing-page"@ {
        Some(Family::DrawingPage)
    } else if v == "table"@ {
        Some(Family::Table)
    } else if v == "table-column"@ {
        Some(Family::TableColumn)
    } else if v == "table-row"@ {
        Some(Family::TableRow)
    } else if v == "table-cell"@ {
        Some(Family::TableCell)
    } else {
        None
    }
}

fn family_of(v: &str) -> (r: Option<Family>)
    ensures
        r == family_named(v@),
{
    if *v == *"text" {
        Some(Family::Text)
    } else if *v == *"paragraph" {
        Some(Family::Paragraph)
    } else if *v == *"graphic" {
        Some(Family::Graphic)
    } else if *v == *"presentation" {
        Some(Family::Presentation)
    } else if *v == *"drawing-page" {
        Some(Family::DrawingPage)
    } else if *v == *"table" {
        Some(Family::Table)
    } else if *v == *"table-column" {
        Some(Family::TableColumn)
    } else if *v == *"table-row" {
        Some(Family::TableRow)
    } else if *v == *"table-cell" {
        Some(Family::TableCell)
    } else {
        None
    }
}

/// A letter for each family.
pub open spec fn letter(f: Family) -> char {
    match f {
        Family::Text => 't',
        Family::Paragraph => 'p',
        Family::Graphic => 'g',
        Family::Presentation => 's',
        Family::DrawingPage => 'd',
        Family::Table => 'T',
        Family::TableColumn => 'C',
        Family::TableRow => 'R',
        Family::TableCell => 'c',
    }
}

fn family_letter(f: Family) -> (r: char)
    ensures
        r == letter(f),
{
    match f {
        Family::Text => 't',
        Family::Paragraph => 'p',
        Family::Graphic => 'g',
        Family::Presentation => 's',
        Family::DrawingPage => 'd',
        Family::Table => 'T',
        Family::TableColumn => 'C',
        Family::TableRow => 'R',
        Family::TableCell => 'c',
    }
}

/// The key of a style: its family and its name.
pub open spec fn style_key(f: Family, name: Seq<char>) -> Seq<char> {
    seq![letter(f)] + name
}

fn key_of(f: Family, name: &str) -> (r: String)
    ensures
        r@ == style_key(f, name@),
{
    let mut s: String = String::new();
    s.push(family_letter(f));
    s.append(name);
    assert(s@ =~= style_key(f, name@));
    s
}

/// Styles of two families or of two names never share a key.
pub proof fn law_keys_are_distinct(f: Family, g: Family, a: Seq<char>, b: Seq<char>)
    ensures
        style_key(f, a) == style_key(g, b) <==> f == g && a == b,
{
    if style_key(f, a) == style_key(g, b) {
        assert(style_key(f, a)[0] == letter(f));
        assert(style_key(g, b)[0] == letter(g));
        assert(style_key(f, a).skip(1) =~= a);
        assert(style_key(g, b).skip(1) =~= b);
    }
}

// ── loading ──────────────────────────────────────────────────────────────────

/// The font declarations after one more.
pub open spec fn with_face(faces: Faces, e: Tree) -> Faces {
    let name = name_from(e.attr("name"@), MAX_NAME as nat);
    if e.name != "font-face"@ || name is None || faces.len() >= MAX_STYLES {
        faces
    } else {
        let family = match e.attr("font-family"@) {
            Some(v) => first_family(v),
            None => None,
        };
        stored(
            faces,
            name->0,
            match family {
                Some(f) => f,
                None => name->0,
            },
        )
    }
}

pub open spec fn with_faces(faces: Faces, v: Seq<Tree>) -> Faces
    decreases v.len(),
{
    if v.len() == 0 {
        faces
    } else {
        with_face(with_faces(faces, v.drop_last()), v.last())
    }
}

pub open spec fn with_face_lists(faces: Faces, v: Seq<Tree>) -> Faces
    decreases v.len(),
{
    if v.len() == 0 {
        faces
    } else {
        let before = with_face_lists(faces, v.drop_last());
        if v.last().name == "font-face-decls"@ {
            with_faces(before, v.last().elems())
        } else {
            before
        }
    }
}

pub open spec fn opt_name(e: Tree, attr: Seq<char>) -> Option<Seq<char>> {
    name_from(e.attr(attr), MAX_NAME as nat)
}

pub open spec fn family_attr(e: Tree) -> Option<Family> {
    match e.attr("family"@) {
        Some(v) => family_named(v),
        None => None,
    }
}

pub open spec fn raw_of(e: Tree, faces: Faces) -> RawView {
    RawStyle {
        parent: opt_name(e, "parent-style-name"@),
        master: opt_name(e, "master-page-name"@),
        data_style: opt_name(e, "data-style-name"@),
        props: props_of(e.elems(), faces),
    }
}

/// A page layout's extent, where it is within bounds.
pub open spec fn extent_of(p: Tree, attr: Seq<char>) -> Option<Px> {
    match len_attr(p, attr) {
        Some(v) => if MIN_PAGE_PX <= v <= MAX_PAGE_PX {
            Some(v)
        } else {
            None
        },
        None => None,
    }
}

pub open spec fn stated_extents(p: Tree) -> bool {
    extent_of(p, "page-width"@) is Some && extent_of(p, "page-height"@) is Some
}

/// The widest margin of a page: two of them leave a column.
pub open spec fn margin_limit(extent: int) -> int {
    clamped((extent - MIN_COLUMN_PX) / 2, 0, MAX_MARGIN_PX as int)
}

/// A margin: its own attribute, or else the one for all four sides.
pub open spec fn margin_of(p: Tree, attr: Seq<char>, extent: Px, fallback: Px) -> Px {
    match or_else(len_attr(p, attr), len_attr(p, "margin"@)) {
        Some(v) => clamped(v as int, 0, margin_limit(extent as int)) as i64,
        None => fallback,
    }
}

/// A page's box. Half a stated size is none.
pub open spec fn page_of(p: Tree) -> Page {
    let base = Page::letter();
    let width = if stated_extents(p) {
        extent_of(p, "page-width"@)->0
    } else {
        base.width
    };
    let height = if stated_extents(p) {
        extent_of(p, "page-height"@)->0
    } else {
        base.height
    };
    Page {
        width,
        height,
        left: margin_of(p, "margin-left"@, width, base.left),
        right: margin_of(p, "margin-right"@, width, base.right),
        top: margin_of(p, "margin-top"@, height, base.top),
        bottom: margin_of(p, "margin-bottom"@, height, base.bottom),
    }
}

pub open spec fn setup_of(e: Tree) -> SetupView {
    match e.child("page-layout-properties"@) {
        Some(p) => PageSetup {
            page: page_of(p),
            stated: stated_extents(p),
            landscape: says(p, "print-orientation"@, "landscape"@),
            ..no_setup()
        },
        None => no_setup(),
    }
}

pub open spec fn is_header(name: Seq<char>) -> bool {
    name == "header"@ || name == "header-left"@ || name == "header-first"@
}

pub open spec fn is_footer(name: Seq<char>) -> bool {
    name == "footer"@ || name == "footer-left"@ || name == "footer-first"@
}

/// A part of a master page that is not switched off.
pub open spec fn is_shown(e: Tree) -> bool {
    e.attr_bool("display"@) != Some(false)
}

pub open spec fn any_header(v: Seq<Tree>) -> bool {
    exists|k: int| 0 <= k < v.len() && is_header((#[trigger] v[k]).name) && is_shown(v[k])
}

pub open spec fn any_footer(v: Seq<Tree>) -> bool {
    exists|k: int| 0 <= k < v.len() && is_footer((#[trigger] v[k]).name) && is_shown(v[k])
}

pub open spec fn master_of(e: Tree) -> MasterView {
    MasterPage {
        layout: opt_name(e, "page-layout-name"@),
        drawing_page: opt_name(e, "style-name"@),
        has_header: any_header(e.elems()),
        has_footer: any_footer(e.elems()),
    }
}

impl Store {
    pub open spec fn empty() -> Store {
        Store {
            styles: Seq::empty(),
            defaults: Seq::empty(),
            faces: Seq::empty(),
            layouts: Seq::empty(),
            masters: Seq::empty(),
            first_master: None,
        }
    }

    pub open spec fn with_style(self, e: Tree) -> Store {
        let name = opt_name(e, "name"@);
        if self.styles.len() >= MAX_STYLES || family_attr(e) is None || name is None {
            self
        } else {
            Store {
                styles: stored(
                    self.styles,
                    style_key(family_attr(e)->0, name->0),
                    raw_of(e, self.faces),
                ),
                ..self
            }
        }
    }

    pub open spec fn with_default(self, e: Tree) -> Store {
        match family_attr(e) {
            Some(f) => Store {
                defaults: stored(self.defaults, seq![letter(f)], props_of(e.elems(), self.faces)),
                ..self
            },
            None => self,
        }
    }

    pub open spec fn with_layout(self, e: Tree) -> Store {
        let name = opt_name(e, "name"@);
        if name is None || self.layouts.len() >= MAX_STYLES {
            self
        } else {
            Store { layouts: stored(self.layouts, name->0, setup_of(e)), ..self }
        }
    }

    pub open spec fn with_master(self, e: Tree) -> Store {
        let name = opt_name(e, "name"@);
        if name is None || self.masters.len() >= MAX_STYLES {
            self
        } else {
            Store {
                masters: stored(self.masters, name->0, master_of(e)),
                first_master: match self.first_master {
                    Some(m) => Some(m),
                    None => name,
                },
                ..self
            }
        }
    }

    /// After one element of a style container.
    pub open spec fn with_entry(self, e: Tree) -> Store {
        if e.name == "style"@ {
            self.with_style(e)
        } else if e.name == "default-style"@ {
            self.with_default(e)
        } else if e.name == "page-layout"@ {
            self.with_layout(e)
        } else {
            self
        }
    }

    pub open spec fn with_entries(self, v: Seq<Tree>) -> Store
        decreases v.len(),
    {
        if v.len() == 0 {
            self
        } else {
            self.with_entries(v.drop_last()).with_entry(v.last())
        }
    }

    pub open spec fn with_masters(self, v: Seq<Tree>) -> Store
        decreases v.len(),
    {
        if v.len() == 0 {
            self
        } else {
            let before = self.with_masters(v.drop_last());
            if v.last().name == "master-page"@ {
                before.with_master(v.last())
            } else {
                before
            }
        }
    }

    /// After the style containers among some elements.
    pub open spec fn with_containers(self, v: Seq<Tree>) -> Store
        decreases v.len(),
    {
        if v.len() == 0 {
            self
        } else {
            let before = self.with_containers(v.drop_last());
            let c = v.last();
            if c.name == "styles"@ || c.name == "automatic-styles"@ {
                before.with_entries(c.elems())
            } else if c.name == "master-styles"@ {
                before.with_masters(c.elems())
            } else {
                before
            }
        }
    }

    pub open spec fn with_part_faces(self, part: Option<Tree>) -> Store {
        match part {
            Some(root) => Store { faces: with_face_lists(self.faces, root.elems()), ..self },
            None => self,
        }
    }

    pub open spec fn with_part(self, part: Option<Tree>) -> Store {
        match part {
            Some(root) => self.with_containers(root.elems()),
            None => self,
        }
    }

    /// The styles of a document. The fonts of both parts are known to the styles of
    /// both, and the body's styles take the place of the stylesheet's of the same name.
    pub open spec fn of(styles: Option<Tree>, content: Option<Tree>) -> Store {
        Store::empty().with_part_faces(styles).with_part_faces(content).with_part(styles).with_part(
            content,
        )
    }
}

fn is_header_part(e: &Element) -> (r: bool)
    ensures
        r == is_header(e@.name),
{
    e.is("header") || e.is("header-left") || e.is("header-first")
}

fn is_footer_part(e: &Element) -> (r: bool)
    ensures
        r == is_footer(e@.name),
{
    e.is("footer") || e.is("footer-left") || e.is("footer-first")
}

fn shown(e: &Element) -> (r: bool)
    ensures
        r == is_shown(e@),
{
    match e.attr_bool("display") {
        Some(b) => b,
        None => true,
    }
}

fn extent(p: &Element, attr: &str) -> (r: Option<Px>)
    ensures
        r == extent_of(p@, attr@),
{
    match len(p, attr) {
        Some(v) => if MIN_PAGE_PX <= v && v <= MAX_PAGE_PX {
            Some(v)
        } else {
            None
        },
        None => None,
    }
}

fn margin(p: &Element, attr: &str, extent: Px, fallback: Px) -> (r: Px)
    requires
        MIN_PAGE_PX <= extent <= MAX_PAGE_PX,
    ensures
        r == margin_of(p@, attr@, extent, fallback),
{
    let v: Px = match len(p, attr) {
        Some(v) => v,
        None => match len(p, "margin") {
            Some(v) => v,
            None => {
                return fallback;
            },
        },
    };
    let limit: Px = clamp_px((extent - MIN_COLUMN_PX) / 2, 0, MAX_MARGIN_PX);
    clamp_px(v, 0, limit)
}

fn page_box(p: &Element) -> (r: Page)
    ensures
        r == page_of(p@),
{
    let base: Page = Page::default();
    let mut width: Px = base.width;
    let mut height: Px = base.height;
    if let Some(w) = extent(p, "page-width") {
        if let Some(h) = extent(p, "page-height") {
            width = w;
            height = h;
        }
    }
    Page {
        width,
        height,
        left: margin(p, "margin-left", width, base.left),
        right: margin(p, "margin-right", width, base.right),
        top: margin(p, "margin-top", height, base.top),
        bottom: margin(p, "margin-bottom", height, base.bottom),
    }
}

/// Whether a margin is stated.
pub open spec fn margin_stated(p: Tree, attr: Seq<char>) -> bool {
    or_else(len_attr(p, attr), len_attr(p, "margin"@)) is Some
}

/// The margins that a document states, however wide, leave a column between them. So do
/// the margins that it does not state, on a page that is not much narrower than they are.
pub proof fn law_margins_leave_a_column(p: Tree)
    ensures
        (margin_stated(p, "margin-left"@) && margin_stated(p, "margin-right"@)) || page_of(p).width
            >= 3 * MIN_COLUMN_PX ==> page_of(p).width - page_of(p).left - page_of(p).right
            >= MIN_COLUMN_PX,
        (margin_stated(p, "margin-top"@) && margin_stated(p, "margin-bottom"@)) || page_of(p).height
            >= 3 * MIN_COLUMN_PX ==> page_of(p).height - page_of(p).top - page_of(p).bottom
            >= MIN_COLUMN_PX,
{
}

// ── chains ───────────────────────────────────────────────────────────────────

/// The names of a style's chain, from the style itself to its root. A name that was seen
/// ends the chain, and so does one that no style has.
pub open spec fn chain_names(
    rows: Seq<(Seq<char>, RawView)>,
    f: Family,
    name: Seq<char>,
    seen: Seq<Seq<char>>,
) -> Seq<Seq<char>>
    decreases MAX_PARENT - seen.len(),
{
    if name.len() == 0 || seen.len() >= MAX_PARENT || seen.contains(name) {
        Seq::empty()
    } else {
        match lookup(rows, style_key(f, name)) {
            None => Seq::empty(),
            Some(raw) => seq![name] + chain_names(
                rows,
                f,
                match raw.parent {
                    Some(p) => p,
                    None => Seq::empty(),
                },
                seen.push(name),
            ),
        }
    }
}

/// The styles of some names.
pub open spec fn raws_of(
    rows: Seq<(Seq<char>, RawView)>,
    f: Family,
    names: Seq<Seq<char>>,
) -> Seq<RawView> {
    names.map_values(|n: Seq<char>| lookup(rows, style_key(f, n))->0)
}

/// A style's chain, from the style itself to its root.
pub open spec fn chain_of(
    rows: Seq<(Seq<char>, RawView)>,
    f: Family,
    name: Seq<char>,
) -> Seq<RawView> {
    raws_of(rows, f, chain_names(rows, f, name, Seq::empty()))
}

/// A chain ends: it is no longer than `MAX_PARENT`, and no style is in it twice.
pub proof fn law_chain_ends(
    rows: Seq<(Seq<char>, RawView)>,
    f: Family,
    name: Seq<char>,
    seen: Seq<Seq<char>>,
)
    requires
        seen.len() <= MAX_PARENT,
    ensures
        chain_names(rows, f, name, seen).len() <= MAX_PARENT - seen.len(),
        forall|i: int, j: int|
            #![trigger chain_names(rows, f, name, seen)[i], chain_names(rows, f, name, seen)[j]]
            0 <= i < j < chain_names(rows, f, name, seen).len() ==> chain_names(
                rows,
                f,
                name,
                seen,
            )[i] != chain_names(rows, f, name, seen)[j],
        forall|i: int|
            0 <= i < chain_names(rows, f, name, seen).len() ==> !seen.contains(
                #[trigger] chain_names(rows, f, name, seen)[i],
            ),
    decreases MAX_PARENT - seen.len(),
{
    if name.len() == 0 || seen.len() >= MAX_PARENT || seen.contains(name) {
    } else if let Some(raw) = lookup(rows, style_key(f, name)) {
        let up = match raw.parent {
            Some(p) => p,
            None => Seq::empty(),
        };
        let more = seen.push(name);
        law_chain_ends(rows, f, up, more);
        let rest = chain_names(rows, f, up, more);
        let all = chain_names(rows, f, name, seen);
        assert(more[seen.len() as int] == name);
        assert(more.contains(name));
        assert forall|i: int| 0 <= i < all.len() implies !seen.contains(#[trigger] all[i]) by {
            if i > 0 {
                assert(all[i] == rest[i - 1]);
                if seen.contains(all[i]) {
                    let k = choose|k: int| 0 <= k < seen.len() && seen[k] == all[i];
                    assert(more[k] == all[i]);
                    assert(more.contains(rest[i - 1]));
                }
            }
        }
        assert forall|i: int, j: int| #![trigger all[i], all[j]]
            0 <= i < j < all.len() implies all[i] != all[j] by {
            assert(all[j] == rest[j - 1]);
            if i > 0 {
                assert(all[i] == rest[i - 1]);
            } else {
                assert(!more.contains(rest[j - 1]));
            }
        }
    }
}

/// What a chain states over some defaults, its root first.
pub open spec fn cascaded(base: ResolvedView, chain: Seq<RawView>) -> ResolvedView
    decreases chain.len(),
{
    if chain.len() == 0 {
        base
    } else {
        merged(cascaded(base, chain.skip(1)), chain[0].props)
    }
}

/// The first master page that a chain names, the style's own first.
pub open spec fn chain_master(chain: Seq<RawView>) -> Option<Seq<char>>
    decreases chain.len(),
{
    if chain.len() == 0 {
        None
    } else {
        or_else(chain[0].master, chain_master(chain.skip(1)))
    }
}

/// The first number style that a chain names, the style's own first.
pub open spec fn chain_data(chain: Seq<RawView>) -> Option<Seq<char>>
    decreases chain.len(),
{
    if chain.len() == 0 {
        None
    } else {
        or_else(chain[0].data_style, chain_data(chain.skip(1)))
    }
}

impl Store {
    /// What a style comes to: the family's defaults, and its chain over them.
    #[verifier::opaque]
    pub open spec fn resolved(self, f: Family, name: Seq<char>) -> ResolvedView {
        cascaded(
            match lookup(self.defaults, seq![letter(f)]) {
                Some(d) => d,
                None => unstated(),
            },
            chain_of(self.styles, f, name),
        )
    }

    /// The master page that a document shows: the one named, or else its first.
    pub open spec fn master(self, name: Option<Seq<char>>) -> Option<MasterView> {
        let own = match name {
            Some(n) => lookup(self.masters, n),
            None => None,
        };
        match own {
            Some(m) => Some(m),
            None => match self.first_master {
                Some(n) => lookup(self.masters, n),
                None => None,
            },
        }
    }

    #[verifier::opaque]
    pub open spec fn setup(self, name: Option<Seq<char>>) -> SetupView {
        match self.master(name) {
            None => no_setup(),
            Some(m) => {
                let layout = match m.layout {
                    Some(n) => lookup(self.layouts, n),
                    None => None,
                };
                PageSetup {
                    has_header: m.has_header,
                    has_footer: m.has_footer,
                    drawing_page_style: m.drawing_page,
                    ..(match layout {
                        Some(l) => l,
                        None => no_setup(),
                    })
                }
            },
        }
    }
}

pub open spec fn raw_views(v: Seq<&RawStyle>) -> Seq<RawView> {
    v.map_values(|r: &RawStyle| r@)
}

fn name_seen(seen: &Vec<String>, name: &str) -> (r: bool)
    ensures
        r == seen@.map_values(|s: String| s@).contains(name@),
{
    let ghost views = seen@.map_values(|s: String| s@);
    for i in 0..seen.len()
        invariant
            views == seen@.map_values(|s: String| s@),
            forall|k: int| 0 <= k < i ==> #[trigger] views[k] != name@,
    {
        assert(views[i as int] == seen@[i as int]@);
        if *seen[i].as_str() == *name {
            return true;
        }
    }
    false
}

impl Styles {
    /// A document without styles.
    pub fn empty() -> (s: Styles)
        ensures
            s@ == Store::empty(),
    {
        Styles {
            styles: Names::new(),
            defaults: Names::new(),
            faces: Names::new(),
            layouts: Names::new(),
            masters: Names::new(),
            first_master: None,
        }
    }

    /// The styles of a stylesheet, if there is one, and of a body. A part that cannot be
    /// read adds none.
    pub fn parse(styles_xml: Option<&str>, content_xml: &str) -> (s: Styles)
        ensures
            s@ == Store::of(
                match styles_xml {
                    Some(x) => document(x@),
                    None => None,
                },
                document(content_xml@),
            ),
    {
        let sheet: Option<Element> = match styles_xml {
            Some(x) => xml::parse(x),
            None => None,
        };
        let content: Option<Element> = xml::parse(content_xml);
        Styles::of(&sheet, &content)
    }

    /// The styles of two parsed parts.
    pub fn of(sheet: &Option<Element>, content: &Option<Element>) -> (s: Styles)
        ensures
            s@ == Store::of(opt_tree(*sheet), opt_tree(*content)),
    {
        let mut s = Styles::empty();
        if let Some(root) = sheet {
            s.load_faces(root);
        }
        if let Some(root) = content {
            s.load_faces(root);
        }
        if let Some(root) = sheet {
            s.load(root);
        }
        if let Some(root) = content {
            s.load(root);
        }
        s
    }

    fn load_faces(&mut self, root: &Element)
        ensures
            final(self)@ == old(self)@.with_part_faces(Some(root@)),
    {
        let ghost start = self@;
        let v: Vec<&Element> = root.elems();
        let ghost ts = trees(v@);
        assert(ts.take(0) =~= Seq::<Tree>::empty());
        for i in 0..v.len()
            invariant
                ts == trees(v@),
                self@ == (Store { faces: with_face_lists(start.faces, ts.take(i as int)), ..start }),
        {
            assert(ts.take(i + 1).drop_last() =~= ts.take(i as int));
            assert(ts.take(i + 1).last() == v@[i as int]@);
            if v[i].is("font-face-decls") {
                self.load_face_list(v[i]);
            }
        }
        assert(ts.take(ts.len() as int) =~= ts);
    }

    fn load_face_list(&mut self, list: &Element)
        ensures
            final(self)@ == (Store {
                faces: with_faces(old(self)@.faces, list@.elems()),
                ..old(self)@
            }),
    {
        let ghost start = self@;
        let v: Vec<&Element> = list.elems();
        let ghost ts = trees(v@);
        assert(ts.take(0) =~= Seq::<Tree>::empty());
        for i in 0..v.len()
            invariant
                ts == trees(v@),
                self@ == (Store { faces: with_faces(start.faces, ts.take(i as int)), ..start }),
        {
            assert(ts.take(i + 1).drop_last() =~= ts.take(i as int));
            assert(ts.take(i + 1).last() == v@[i as int]@);
            let face: &Element = v[i];
            if face.is("font-face") && self.faces.len() < MAX_STYLES {
                if let Some(name) = name_of(face, "name", MAX_NAME) {
                    let listed: Option<String> = match face.attr_local("font-family") {
                        Some(f) => family_of_list(f),
                        None => None,
                    };
                    let family: String = match listed {
                        Some(f) => f,
                        None => String::from_str(name.as_str()),
                    };
                    self.faces.put(name, family);
                }
            }
        }
        assert(ts.take(ts.len() as int) =~= ts);
    }

    fn load(&mut self, root: &Element)
        ensures
            final(self)@ == old(self)@.with_part(Some(root@)),
    {
        let ghost start = self@;
        let v: Vec<&Element> = root.elems();
        let ghost ts = trees(v@);
        assert(ts.take(0) =~= Seq::<Tree>::empty());
        for i in 0..v.len()
            invariant
                ts == trees(v@),
                self@ == start.with_containers(ts.take(i as int)),
        {
            assert(ts.take(i + 1).drop_last() =~= ts.take(i as int));
            assert(ts.take(i + 1).last() == v@[i as int]@);
            let c: &Element = v[i];
            if c.is("styles") || c.is("automatic-styles") {
                self.load_entries(c);
            } else if c.is("master-styles") {
                self.load_masters(c);
            }
        }
        assert(ts.take(ts.len() as int) =~= ts);
    }

    fn load_entries(&mut self, container: &Element)
        ensures
            final(self)@ == old(self)@.with_entries(container@.elems()),
    {
        let ghost start = self@;
        let v: Vec<&Element> = container.elems();
        let ghost ts = trees(v@);
        assert(ts.take(0) =~= Seq::<Tree>::empty());
        for i in 0..v.len()
            invariant
                ts == trees(v@),
                self@ == start.with_entries(ts.take(i as int)),
        {
            assert(ts.take(i + 1).drop_last() =~= ts.take(i as int));
            assert(ts.take(i + 1).last() == v@[i as int]@);
            let e: &Element = v[i];
            if e.is("style") {
                self.load_style(e);
            } else if e.is("default-style") {
                self.load_default(e);
            } else if e.is("page-layout") {
                self.load_layout(e);
            }
        }
        assert(ts.take(ts.len() as int) =~= ts);
    }

    fn load_masters(&mut self, container: &Element)
        ensures
            final(self)@ == old(self)@.with_masters(container@.elems()),
    {
        let ghost start = self@;
        let v: Vec<&Element> = container.elems();
        let ghost ts = trees(v@);
        assert(ts.take(0) =~= Seq::<Tree>::empty());
        for i in 0..v.len()
            invariant
                ts == trees(v@),
                self@ == start.with_masters(ts.take(i as int)),
        {
            assert(ts.take(i + 1).drop_last() =~= ts.take(i as int));
            assert(ts.take(i + 1).last() == v@[i as int]@);
            if v[i].is("master-page") {
                self.load_master(v[i]);
            }
        }
        assert(ts.take(ts.len() as int) =~= ts);
    }

    fn load_style(&mut self, e: &Element)
        ensures
            final(self)@ == old(self)@.with_style(e@),
    {
        if self.styles.len() >= MAX_STYLES {
            return;
        }
        let family: Family = match e.attr_local("family") {
            Some(v) => match family_of(v) {
                Some(f) => f,
                None => {
                    return;
                },
            },
            None => {
                return;
            },
        };
        let name: String = match name_of(e, "name", MAX_NAME) {
            Some(n) => n,
            None => {
                return;
            },
        };
        let raw = RawStyle {
            parent: name_of(e, "parent-style-name", MAX_NAME),
            master: name_of(e, "master-page-name", MAX_NAME),
            data_style: name_of(e, "data-style-name", MAX_NAME),
            props: parse_props(e, &self.faces),
        };
        assert(raw@ == raw_of(e@, self.faces@));
        self.styles.put(key_of(family, name.as_str()), raw);
    }

    fn load_default(&mut self, e: &Element)
        ensures
            final(self)@ == old(self)@.with_default(e@),
    {
        if let Some(v) = e.attr_local("family") {
            if let Some(f) = family_of(v) {
                let props: Resolved = parse_props(e, &self.faces);
                let mut key: String = String::new();
                key.push(family_letter(f));
                assert(key@ =~= seq![letter(f)]);
                self.defaults.put(key, props);
            }
        }
    }

    fn load_layout(&mut self, e: &Element)
        ensures
            final(self)@ == old(self)@.with_layout(e@),
    {
        let name: String = match name_of(e, "name", MAX_NAME) {
            Some(n) => n,
            None => {
                return;
            },
        };
        if self.layouts.len() >= MAX_STYLES {
            return;
        }
        let mut setup: PageSetup = PageSetup::default();
        if let Some(p) = e.child("page-layout-properties") {
            setup.page = page_box(p);
            setup.stated = extent(p, "page-width").is_some() && extent(p, "page-height").is_some();
            setup.landscape = attr_says(p, "print-orientation", "landscape");
        }
        assert(setup@ == setup_of(e@));
        self.layouts.put(name, setup);
    }

    fn load_master(&mut self, e: &Element)
        ensures
            final(self)@ == old(self)@.with_master(e@),
    {
        let name: String = match name_of(e, "name", MAX_NAME) {
            Some(n) => n,
            None => {
                return;
            },
        };
        if self.masters.len() >= MAX_STYLES {
            return;
        }
        let parts: Vec<&Element> = e.elems();
        let ghost ts = e@.elems();
        let mut has_header: bool = false;
        let mut has_footer: bool = false;
        for i in 0..parts.len()
            invariant
                trees(parts@) == ts,
                has_header == (exists|k: int|
                    0 <= k < i && is_header((#[trigger] ts[k]).name) && is_shown(ts[k])),
                has_footer == (exists|k: int|
                    0 <= k < i && is_footer((#[trigger] ts[k]).name) && is_shown(ts[k])),
        {
            assert(ts[i as int] == parts@[i as int]@);
            if is_header_part(parts[i]) && shown(parts[i]) {
                has_header = true;
            }
            if is_footer_part(parts[i]) && shown(parts[i]) {
                has_footer = true;
            }
        }
        let m = MasterPage {
            layout: name_of(e, "page-layout-name", MAX_NAME),
            drawing_page: name_of(e, "style-name", MAX_NAME),
            has_header,
            has_footer,
        };
        assert(m@ == master_of(e@));
        if self.first_master.is_none() {
            self.first_master = Some(String::from_str(name.as_str()));
        }
        self.masters.put(name, m);
    }

    /// A style's chain, from the style itself to its root.
    fn chain(&self, family: Family, name: &str) -> (r: Vec<&RawStyle>)
        ensures
            raw_views(r@) == chain_of(self@.styles, family, name@),
    {
        let ghost rows = self.styles@;
        let ghost goal = chain_names(rows, family, name@, Seq::empty());
        let mut out: Vec<&RawStyle> = Vec::new();
        let mut seen: Vec<String> = Vec::new();
        let mut cur: String = String::from_str(name);
        assert(seen@.map_values(|s: String| s@) =~= Seq::<Seq<char>>::empty());
        assert(raw_views(out@) =~= raws_of(rows, family, Seq::empty()));
        assert(Seq::<Seq<char>>::empty() + goal =~= goal);
        loop
            invariant
                rows == self.styles@,
                seen@.len() <= MAX_PARENT,
                raw_views(out@) == raws_of(rows, family, seen@.map_values(|s: String| s@)),
                seen@.map_values(|s: String| s@) + chain_names(
                    rows,
                    family,
                    cur@,
                    seen@.map_values(|s: String| s@),
                ) == goal,
            ensures
                raw_views(out@) == raws_of(rows, family, goal),
            decreases MAX_PARENT - seen@.len(),
        {
            let ghost sv = seen@.map_values(|s: String| s@);
            if cur.as_str().is_empty() || seen.len() >= MAX_PARENT || name_seen(
                &seen,
                cur.as_str(),
            ) {
                assert(sv + Seq::<Seq<char>>::empty() =~= sv);
                break;
            }
            let raw: &RawStyle = match self.styles.get(key_of(family, cur.as_str()).as_str()) {
                Some(r) => r,
                None => {
                    assert(sv + Seq::<Seq<char>>::empty() =~= sv);
                    break;
                },
            };
            let ghost before = raw_views(out@);
            out.push(raw);
            let next: String = match &raw.parent {
                Some(p) => String::from_str(p.as_str()),
                None => String::new(),
            };
            proof {
                let up = match raw@.parent {
                    Some(p) => p,
                    None => Seq::empty(),
                };
                assert(next@ =~= up);
                let rest = chain_names(rows, family, up, sv.push(cur@));
                assert(sv + (seq![cur@] + rest) =~= sv.push(cur@) + rest);
                assert(raw_views(out@) =~= before.push(raw@));
                assert(raws_of(rows, family, sv.push(cur@)) =~= raws_of(rows, family, sv).push(
                    raw@,
                ));
            }
            let ghost held = seen@;
            seen.push(cur);
            assert(seen@.map_values(|s: String| s@) =~= sv.push(cur@));
            cur = next;
        }
        out
    }

    /// What a style comes to: its family's defaults, and its chain over them, root
    /// first. A name that no style has comes to the defaults alone.
    pub fn resolve(&self, family: Family, name: &str) -> (r: Resolved)
        ensures
            r@ == self@.resolved(family, name@),
    {
        proof {
            reveal(Store::resolved);
        }
        let mut key: String = String::new();
        key.push(family_letter(family));
        assert(key@ =~= seq![letter(family)]);
        let mut out: Resolved = match self.defaults.get(key.as_str()) {
            Some(d) => d.copy(),
            None => Resolved::default(),
        };
        let ghost base = out@;
        let links: Vec<&RawStyle> = self.chain(family, name);
        let ghost chain = raw_views(links@);
        let mut i: usize = links.len();
        assert(chain.skip(chain.len() as int) =~= Seq::<RawView>::empty());
        while i > 0
            invariant
                i <= links@.len(),
                chain == raw_views(links@),
                out@ == cascaded(base, chain.skip(i as int)),
            decreases i,
        {
            i = i - 1;
            assert(chain.skip(i as int).skip(1) =~= chain.skip(i + 1));
            assert(chain.skip(i as int)[0] == links@[i as int]@);
            merge(&mut out, &links[i].props);
        }
        assert(chain.skip(0) =~= chain);
        out
    }

    /// The master page that a paragraph style starts, from the nearest link of its chain
    /// that names one.
    pub fn master_page_of(&self, name: &str) -> (r: Option<String>)
        ensures
            opt_view(r) == chain_master(chain_of(self@.styles, Family::Paragraph, name@)),
    {
        let links: Vec<&RawStyle> = self.chain(Family::Paragraph, name);
        let ghost chain = raw_views(links@);
        assert(chain.skip(0) =~= chain);
        for i in 0..links.len()
            invariant
                chain == raw_views(links@),
                chain == chain_of(self@.styles, Family::Paragraph, name@),
                chain_master(chain) == chain_master(chain.skip(i as int)),
        {
            assert(chain.skip(i as int)[0] == links@[i as int]@);
            assert(chain.skip(i as int).skip(1) =~= chain.skip(i + 1));
            if links[i].master.is_some() {
                return copy_opt(&links[i].master);
            }
        }
        None
    }

    /// The number style that a cell style shows its value through, from the nearest link
    /// of its chain that names one.
    pub fn data_style_of(&self, name: &str) -> (r: Option<String>)
        ensures
            opt_view(r) == chain_data(chain_of(self@.styles, Family::TableCell, name@)),
    {
        let links: Vec<&RawStyle> = self.chain(Family::TableCell, name);
        let ghost chain = raw_views(links@);
        assert(chain.skip(0) =~= chain);
        for i in 0..links.len()
            invariant
                chain == raw_views(links@),
                chain == chain_of(self@.styles, Family::TableCell, name@),
                chain_data(chain) == chain_data(chain.skip(i as int)),
        {
            assert(chain.skip(i as int)[0] == links@[i as int]@);
            assert(chain.skip(i as int).skip(1) =~= chain.skip(i + 1));
            if links[i].data_style.is_some() {
                return copy_opt(&links[i].data_style);
            }
        }
        None
    }

    /// The real family behind a declared font name.
    pub fn font_family(&self, name: &str) -> (r: Option<&str>)
        ensures
            r is Some == lookup(self@.faces, name@) is Some,
            r matches Some(f) ==> f@ == lookup(self@.faces, name@)->0,
    {
        match self.faces.get(name) {
            Some(f) => Some(f.as_str()),
            None => None,
        }
    }

    /// The name of the first master page.
    pub fn first_master(&self) -> (r: Option<&str>)
        ensures
            r is Some == self@.first_master is Some,
            r matches Some(m) ==> m@ == self@.first_master->0,
    {
        match &self.first_master {
            Some(m) => Some(m.as_str()),
            None => None,
        }
    }

    fn find_master(&self, name: Option<&str>) -> (r: Option<&MasterPage>)
        ensures
            r is Some == self@.master(opt_str(name)) is Some,
            r matches Some(m) ==> m@ == self@.master(opt_str(name))->0,
    {
        if let Some(n) = name {
            if let Some(m) = self.masters.get(n) {
                return Some(m);
            }
        }
        match &self.first_master {
            Some(n) => self.masters.get(n.as_str()),
            None => None,
        }
    }

    /// The geometry of a master page: the one named, or else the document's first, or
    /// else a letter page. A layout that the document does not define is a letter page
    /// too.
    pub fn page_setup(&self, master: Option<&str>) -> (r: PageSetup)
        ensures
            r@ == self@.setup(opt_str(master)),
    {
        proof {
            reveal(Store::setup);
        }
        let m: &MasterPage = match self.find_master(master) {
            Some(m) => m,
            None => {
                return PageSetup::default();
            },
        };
        let layout: Option<&PageSetup> = match &m.layout {
            Some(n) => self.layouts.get(n.as_str()),
            None => None,
        };
        let (page, landscape, stated): (Page, bool, bool) = match layout {
            Some(l) => (l.page, l.landscape, l.stated),
            None => (Page::default(), false, false),
        };
        PageSetup {
            page,
            landscape,
            has_header: m.has_header,
            has_footer: m.has_footer,
            drawing_page_style: copy_opt(&m.drawing_page),
            stated,
        }
    }
}

pub open spec fn opt_tree(e: Option<Element>) -> Option<Tree> {
    match e {
        Some(e) => Some(e@),
        None => None,
    }
}

pub open spec fn opt_str(v: Option<&str>) -> Option<Seq<char>> {
    match v {
        Some(s) => Some(s@),
        None => None,
    }
}

/// A style that comes later takes the name of one that came before, of its own family
/// alone.
pub proof fn law_a_later_style_takes_the_name(s: Store, e: Tree, g: Family, other: Seq<char>)
    requires
        s.styles.len() < MAX_STYLES,
        family_attr(e) is Some,
        opt_name(e, "name"@) is Some,
    ensures
        lookup(
            s.with_style(e).styles,
            style_key(family_attr(e)->0, opt_name(e, "name"@)->0),
        ) == Some(raw_of(e, s.faces)),
        (g != family_attr(e)->0 || other != opt_name(e, "name"@)->0) ==> lookup(
            s.with_style(e).styles,
            style_key(g, other),
        ) == lookup(s.styles, style_key(g, other)),
{
    let f = family_attr(e)->0;
    let name = opt_name(e, "name"@)->0;
    law_keys_are_distinct(f, g, name, other);
    law_stored_is_found(s.styles, style_key(f, name), raw_of(e, s.faces), style_key(g, other));
}

} // verus!
