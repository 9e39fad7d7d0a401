//! The paragraph model, and its HTML.
//!
//! Paragraphs of runs that carry resolved values. Sizes are lengths like any other: a
//! point is four thirds of a pixel. The class names are a renderer's own and arrive in
//! an `HtmlStyle`.

use vstd::prelude::*;
use crate::chars::{push_all, push_text};
use crate::color::{fixed_text, push_fixed, Color};
use crate::highlight::{marked, Marker, Terms};
use crate::html::{
    attr_text, class_text, copy_opt, decl, decl_if, goes_on, group_goes_on, lemma_stays, no_attrs,
    opt_color, opt_decl, opt_view, push_attr, push_class, style_text, Style, Writer, Written,
};
use crate::markup::{are_attrs, is_name, is_void, lemma_attr_names, lemma_tags, plain};
use crate::odf::length::{push_px, px_text, BorderStyle, Pct, Px, PX};

pub mod laws;
pub mod looks;
pub mod words;

verus! {

/// A single line of text, as a share of the font size.
pub const SINGLE_LINE: Pct = 120_000_000;

// ── the model ────────────────────────────────────────────────────────────────

#[derive(Clone, Copy, PartialEq, Eq, Debug, Structural)]
pub enum Align {
    Left,
    Center,
    Right,
    Justify,
}

impl Align {
    pub open spec fn word(self) -> Seq<char> {
        match self {
            Align::Left => "left"@,
            Align::Center => "center"@,
            Align::Right => "right"@,
            Align::Justify => "justify"@,
        }
    }

    pub fn css(self) -> (r: &'static str)
        ensures
            r@ == self.word(),
    {
        match self {
            Align::Left => "left",
            Align::Center => "center",
            Align::Right => "right",
            Align::Justify => "justify",
        }
    }
}

/// How tall one line of a paragraph is.
#[derive(Clone, Copy, PartialEq, Eq, Debug, Structural)]
pub enum LineHeight {
    /// A share of the font size.
    Multiple(Pct),
    /// Exactly so tall.
    Exact(Px),
    /// At least so tall, and taller where the content needs it.
    AtLeast(Px),
}

impl Default for LineHeight {
    fn default() -> (r: LineHeight)
        ensures
            r == LineHeight::Multiple(SINGLE_LINE),
    {
        LineHeight::Multiple(SINGLE_LINE)
    }
}

/// Capitals shown in place of a text's own letters.
#[derive(Clone, Copy, PartialEq, Eq, Debug, Structural)]
pub enum Caps {
    All,
    Small,
}

#[derive(Clone, Copy, PartialEq, Eq, Debug, Structural)]
pub enum Script {
    Super,
    Sub,
}

/// What a break interrupts.
#[derive(Clone, Copy, PartialEq, Eq, Debug, Structural)]
pub enum Break {
    Line,
    Page,
    Column,
}

/// The side of the column that a graphic is pulled to.
#[derive(Clone, Copy, PartialEq, Eq, Debug, Structural)]
pub enum Side {
    Left,
    Right,
}

/// The bullet or number before a paragraph.
#[verifier::ext_equal]
#[derive(Clone, Debug)]
pub struct ListMarker<S = String> {
    pub label: S,
    pub color: Option<Color>,
    /// A CSS font stack; `None` takes the paragraph's.
    pub font: Option<S>,
    /// `None` takes the paragraph's.
    pub size_pt: Option<Px>,
}

/// A span of text in one style.
#[verifier::ext_equal]
#[derive(Clone, Debug)]
pub struct TextRun<S = String> {
    pub text: S,
    /// Never inherited: a run that states no size carries the paragraph's.
    pub size_pt: Px,
    pub bold: bool,
    pub italic: bool,
    pub underline: bool,
    pub strike: bool,
    pub color: Option<Color>,
    /// A CSS font stack.
    pub font: Option<S>,
    pub caps: Option<Caps>,
    pub letter_spacing_pt: Px,
    pub script: Option<Script>,
    /// The colour behind the text.
    pub highlight: Option<Color>,
    /// Where the run links to. Whoever makes a run decides what may stand here.
    pub link: Option<S>,
}

/// A graphic and its box: an image, or the placeholder that it degrades to.
#[verifier::ext_equal]
#[derive(Clone, Debug)]
pub struct Graphic<S = String> {
    /// A `data:` URI; `None` draws the placeholder.
    pub src: Option<S>,
    pub w_px: Px,
    pub h_px: Px,
    /// The placeholder's text, or the image's alternative text.
    pub label: S,
    pub float: Option<Side>,
}

#[verifier::ext_equal]
#[derive(Clone, Debug)]
pub enum Run<S = String> {
    Text(TextRun<S>),
    Break(Break),
    Tab,
    Graphic(Graphic<S>),
    /// A place that a link can lead to.
    Anchor(S),
}

/// One edge of a paragraph's box.
#[derive(Clone, Copy, PartialEq, Eq, Debug, Structural)]
pub struct Border {
    pub width_px: Px,
    /// An edge that states no style is solid.
    pub style: Option<BorderStyle>,
    pub color: Option<Color>,
    /// The gap between the edge and the text.
    pub space_px: Px,
}

#[derive(Clone, Copy, PartialEq, Eq, Debug, Structural)]
pub struct Borders {
    pub top: Option<Border>,
    pub right: Option<Border>,
    pub bottom: Option<Border>,
    pub left: Option<Border>,
}

impl Default for Borders {
    fn default() -> (r: Borders)
        ensures
            r == (Borders { top: None, right: None, bottom: None, left: None }),
    {
        Borders { top: None, right: None, bottom: None, left: None }
    }
}

/// One paragraph: its box, its marker and its runs.
#[verifier::ext_equal]
#[derive(Clone, Debug)]
pub struct Para<S = String, R = Vec<Run<String>>> {
    pub runs: R,
    pub size_pt: Px,
    pub align: Option<Align>,
    pub indent_px: Px,
    pub indent_end_px: Px,
    /// The first line's offset: negative hangs it to the left of the rest.
    pub first_line_px: Px,
    pub line: LineHeight,
    pub space_before_px: Px,
    pub space_after_px: Px,
    pub marker: Option<ListMarker<S>>,
    pub rtl: bool,
    pub shade: Option<Color>,
    pub borders: Borders,
    /// 1 to 6 make the paragraph a heading.
    pub heading: Option<u8>,
}

pub type MarkerView = ListMarker<Seq<char>>;

pub type TextView = TextRun<Seq<char>>;

pub type GraphicView = Graphic<Seq<char>>;

pub type RunView = Run<Seq<char>>;

pub type ParaView = Para<Seq<char>, Seq<RunView>>;

impl View for ListMarker<String> {
    type V = MarkerView;

    open spec fn view(&self) -> MarkerView {
        ListMarker {
            label: self.label@,
            color: self.color,
            font: opt_view(self.font),
            size_pt: self.size_pt,
        }
    }
}

impl View for TextRun<String> {
    type V = TextView;

    open spec fn view(&self) -> TextView {
        TextRun {
            text: self.text@,
            size_pt: self.size_pt,
            bold: self.bold,
            italic: self.italic,
            underline: self.underline,
            strike: self.strike,
            color: self.color,
            font: opt_view(self.font),
            caps: self.caps,
            letter_spacing_pt: self.letter_spacing_pt,
            script: self.script,
            highlight: self.highlight,
            link: opt_view(self.link),
        }
    }
}

impl View for Graphic<String> {
    type V = GraphicView;

    open spec fn view(&self) -> GraphicView {
        Graphic {
            src: opt_view(self.src),
            w_px: self.w_px,
            h_px: self.h_px,
            label: self.label@,
            float: self.float,
        }
    }
}

impl View for Run<String> {
    type V = RunView;

    open spec fn view(&self) -> RunView {
        match *self {
            Run::Text(t) => Run::Text(t@),
            Run::Break(b) => Run::Break(b),
            Run::Tab => Run::Tab,
            Run::Graphic(g) => Run::Graphic(g@),
            Run::Anchor(id) => Run::Anchor(id@),
        }
    }
}

pub open spec fn run_views(v: Seq<Run<String>>) -> Seq<RunView> {
    v.map_values(|r: Run<String>| r@)
}

pub open spec fn marker_view(m: Option<ListMarker<String>>) -> Option<MarkerView> {
    match m {
        Some(m) => Some(m@),
        None => None,
    }
}

impl View for Para<String, Vec<Run<String>>> {
    type V = ParaView;

    open spec fn view(&self) -> ParaView {
        Para {
            runs: run_views(self.runs@),
            size_pt: self.size_pt,
            align: self.align,
            indent_px: self.indent_px,
            indent_end_px: self.indent_end_px,
            first_line_px: self.first_line_px,
            line: self.line,
            space_before_px: self.space_before_px,
            space_after_px: self.space_after_px,
            marker: marker_view(self.marker),
            rtl: self.rtl,
            shade: self.shade,
            borders: self.borders,
            heading: self.heading,
        }
    }
}

impl Default for TextRun<String> {
    fn default() -> (r: TextRun<String>)
        ensures
            r@ == (TextRun {
                text: Seq::<char>::empty(),
                size_pt: 0,
                bold: false,
                italic: false,
                underline: false,
                strike: false,
                color: None,
                font: None,
                caps: None,
                letter_spacing_pt: 0,
                script: None,
                highlight: None,
                link: None,
            }),
    {
        let text: String = String::new();
        assert(text@ =~= Seq::<char>::empty());
        TextRun {
            text,
            size_pt: 0,
            bold: false,
            italic: false,
            underline: false,
            strike: false,
            color: None,
            font: None,
            caps: None,
            letter_spacing_pt: 0,
            script: None,
            highlight: None,
            link: None,
        }
    }
}

impl Default for Para<String, Vec<Run<String>>> {
    fn default() -> (r: Para<String, Vec<Run<String>>>)
        ensures
            r@ == (Para {
                runs: Seq::<RunView>::empty(),
                size_pt: 0,
                align: None,
                indent_px: 0,
                indent_end_px: 0,
                first_line_px: 0,
                line: LineHeight::Multiple(SINGLE_LINE),
                space_before_px: 0,
                space_after_px: 0,
                marker: None::<MarkerView>,
                rtl: false,
                shade: None,
                borders: Borders { top: None, right: None, bottom: None, left: None },
                heading: None,
            }),
    {
        let runs: Vec<Run<String>> = Vec::new();
        assert(run_views(runs@) =~= Seq::<RunView>::empty());
        Para {
            runs,
            size_pt: 0,
            align: None,
            indent_px: 0,
            indent_end_px: 0,
            first_line_px: 0,
            line: LineHeight::Multiple(SINGLE_LINE),
            space_before_px: 0,
            space_after_px: 0,
            marker: None,
            rtl: false,
            shade: None,
            borders: Borders { top: None, right: None, bottom: None, left: None },
            heading: None,
        }
    }
}

impl ListMarker<String> {
    pub fn copy(&self) -> (r: ListMarker<String>)
        ensures
            r@ == self@,
    {
        let r = ListMarker {
            label: String::from_str(self.label.as_str()),
            color: self.color,
            font: copy_opt(&self.font),
            size_pt: self.size_pt,
        };
        assert(r@ =~= self@);
        r
    }
}

// ── html ─────────────────────────────────────────────────────────────────────

/// How a renderer spells the model: its class names, and whether lengths ride a CSS
/// variable that a fitting pass can shrink.
#[derive(Clone, Copy, Debug)]
pub struct HtmlStyle {
    pub para_class: &'static str,
    /// The class of a paragraph that has a marker.
    pub list_class: &'static str,
    pub marker_class: &'static str,
    /// The class around the runs of a paragraph that has a marker.
    pub text_class: &'static str,
    /// The class of a page or column break; where it is empty those are plain breaks.
    pub break_class: &'static str,
    pub img_class: &'static str,
    /// The class of a graphic that cannot be drawn.
    pub graphic_class: &'static str,
    /// Every size can be shrunk by a fitting pass.
    pub scalable: bool,
}

/// A writer and the number of the next mark.
#[verifier::ext_equal]
pub struct Inked {
    pub w: Written,
    pub marks: u64,
}

/// A length that a fitting pass can shrink.
pub open spec fn scaled_text(px: Px, scalable: bool) -> Seq<char> {
    if scalable {
        "calc("@ + px_text(px) + " * var(--af, 1))"@
    } else {
        px_text(px)
    }
}

fn scaled_px(px: Px, scalable: bool) -> (r: Vec<char>)
    ensures
        r@ == scaled_text(px, scalable),
{
    let mut v: Vec<char> = Vec::new();
    if scalable {
        push_text(&mut v, "calc(");
        push_px(&mut v, px);
        push_text(&mut v, " * var(--af, 1))");
    } else {
        push_px(&mut v, px);
    }
    assert(v@ =~= scaled_text(px, scalable));
    v
}

// ── runs ─────────────────────────────────────────────────────────────────────

/// Whether two lengths are further apart than `by`.
pub open spec fn apart(a: int, b: int, by: int) -> bool {
    a - b > by || b - a > by
}

fn differ(a: i64, b: i64, by: i64) -> (r: bool)
    ensures
        r == apart(a as int, b as int, by as int),
{
    let d: i128 = a as i128 - b as i128;
    d > by as i128 || -d > by as i128
}

/// Sizes closer than this are the same size: a hundredth of a point.
pub const SAME_SIZE: i64 = 5_080_000;

pub open spec fn decoration(t: TextView) -> Seq<char> {
    if t.underline && t.strike {
        "underline line-through"@
    } else if t.underline {
        "underline"@
    } else if t.strike {
        "line-through"@
    } else {
        Seq::empty()
    }
}

/// What a run states that its paragraph does not.
pub open spec fn run_css(t: TextView, base_pt: Px, scalable: bool) -> Seq<char> {
    Seq::empty() + decl_if(
        apart(t.size_pt as int, base_pt as int, SAME_SIZE as int),
        "font-size"@,
        scaled_text(t.size_pt, scalable),
    ) + decl_if(t.bold, "font-weight"@, "700"@) + decl_if(t.italic, "font-style"@, "italic"@) + decl(
        "text-decoration"@,
        decoration(t),
    ) + opt_color("color"@, t.color) + opt_color("background-color"@, t.highlight) + opt_decl(
        "font-family"@,
        t.font,
    ) + decl_if(t.caps == Some(Caps::All), "text-transform"@, "uppercase"@) + decl_if(
        t.caps == Some(Caps::Small),
        "font-variant"@,
        "small-caps"@,
    ) + decl_if(t.letter_spacing_pt != 0, "letter-spacing"@, px_text(t.letter_spacing_pt))
        + decl_if(t.script == Some(Script::Super), "vertical-align"@, "super"@) + decl_if(
        t.script == Some(Script::Sub),
        "vertical-align"@,
        "sub"@,
    ) + decl_if(t.script is Some, "font-size"@, "0.65em"@)
}

fn run_style(t: &TextRun, base_pt: Px, scalable: bool) -> (s: Style)
    ensures
        s.css@ == run_css(t@, base_pt, scalable),
{
    let mut s = Style::new();
    if differ(t.size_pt, base_pt, SAME_SIZE) {
        s.push_chars("font-size", &scaled_px(t.size_pt, scalable));
    } else {
        assert(s.css@ =~= s.css@ + Seq::<char>::empty());
    }
    s.push_if(t.bold, "font-weight", "700");
    s.push_if(t.italic, "font-style", "italic");
    if t.underline && t.strike {
        s.push("text-decoration", "underline line-through");
    } else if t.underline {
        s.push("text-decoration", "underline");
    } else if t.strike {
        s.push("text-decoration", "line-through");
    } else {
        assert(s.css@ =~= s.css@ + decl("text-decoration"@, decoration(t@)));
    }
    s.push_opt_color("color", t.color);
    s.push_opt_color("background-color", t.highlight);
    s.push_opt_text("font-family", &t.font);
    s.push_if(t.caps == Some(Caps::All), "text-transform", "uppercase");
    s.push_if(t.caps == Some(Caps::Small), "font-variant", "small-caps");
    s.push_px_if(t.letter_spacing_pt != 0, "letter-spacing", t.letter_spacing_pt);
    s.push_if(t.script == Some(Script::Super), "vertical-align", "super");
    s.push_if(t.script == Some(Script::Sub), "vertical-align", "sub");
    s.push_if(t.script.is_some(), "font-size", "0.65em");
    s
}

/// After one run. A link stands around the styled text, so that the document's own
/// colour is the one that shows.
pub open spec fn run_inked(
    x: Inked,
    t: TextView,
    base_pt: Px,
    scalable: bool,
    terms: Seq<Seq<char>>,
) -> Inked {
    let css = run_css(t, base_pt, scalable);
    let m = marked(t.text, terms, x.marks);
    let w0 = match t.link {
        Some(href) => x.w.opened("a"@, attr_text("href"@, href) + attr_text("title"@, href)),
        None => x.w,
    };
    let w1 = if css.len() == 0 {
        w0.raw(m.0)
    } else {
        w0.opened("span"@, style_text(css)).raw(m.0).closed()
    };
    let w2 = match t.link {
        Some(_) => w1.closed(),
        None => w1,
    };
    Inked { w: w2, marks: m.1 }
}

fn emit_run(
    w: &mut Writer,
    t: &TextRun,
    base_pt: Px,
    scalable: bool,
    hl: &mut Marker,
    terms: &Terms,
)
    ensures
        (Inked { w: final(w)@, marks: final(hl)@ }) == run_inked(
            Inked { w: old(w)@, marks: old(hl)@ },
            t@,
            base_pt,
            scalable,
            terms@,
        ),
{
    let s: Style = run_style(t, base_pt, scalable);
    if let Some(href) = &t.link {
        let mut h: Vec<char> = Vec::new();
        push_text(&mut h, href.as_str());
        assert(h@ =~= href@);
        let mut a: Vec<char> = no_attrs();
        assert(plain("href"@)) by {
            lemma_attr_names();
        }
        push_attr(&mut a, "href", &h);
        assert(plain("title"@)) by {
            lemma_attr_names();
        }
        push_attr(&mut a, "title", &h);
        assert(a@ =~= attr_text("href"@, href@) + attr_text("title"@, href@));
        assert(is_name("a"@) && !is_void("a"@)) by {
            lemma_tags();
        }
        w.open("a", &a);
    }
    let html: Vec<char> = hl.mark(t.text.as_str(), terms);
    if s.css.len() == 0 {
        w.raw(&html);
    } else {
        let mut a: Vec<char> = no_attrs();
        s.push_to(&mut a);
        assert(a@ =~= style_text(s.css@));
        assert(is_name("span"@) && !is_void("span"@)) by {
            lemma_tags();
        }
        w.open("span", &a);
        w.raw(&html);
        w.close();
    }
    if t.link.is_some() {
        w.close();
    }
}

// ── graphics ─────────────────────────────────────────────────────────────────

pub open spec fn graphic_css(g: GraphicView) -> Seq<char> {
    Seq::empty() + decl("width"@, px_text(g.w_px)) + decl("height"@, px_text(g.h_px)) + decl_if(
        g.float == Some(Side::Left),
        "float"@,
        "left"@,
    ) + decl_if(g.float == Some(Side::Left), "margin"@, "0 8px 4px 0"@) + decl_if(
        g.float == Some(Side::Right),
        "float"@,
        "right"@,
    ) + decl_if(g.float == Some(Side::Right), "margin"@, "0 0 4px 8px"@)
}

/// After a graphic: the image, or a box of the same size with its label.
pub open spec fn graphic_written(w: Written, g: GraphicView, st: HtmlStyle) -> Written {
    let css = graphic_css(g);
    match g.src {
        Some(src) => w.void(
            "img"@,
            class_text(st.img_class@) + attr_text("src"@, src) + attr_text("alt"@, g.label)
                + style_text(css),
        ),
        None => w.opened("span"@, class_text(st.graphic_class@) + style_text(css)).text(
            g.label,
        ).closed(),
    }
}

fn emit_graphic(w: &mut Writer, g: &Graphic, st: &HtmlStyle)
    ensures
        final(w)@ == graphic_written(old(w)@, g@, *st),
{
    let mut s = Style::new();
    s.push_px("width", g.w_px);
    s.push_px("height", g.h_px);
    s.push_if(g.float == Some(Side::Left), "float", "left");
    s.push_if(g.float == Some(Side::Left), "margin", "0 8px 4px 0");
    s.push_if(g.float == Some(Side::Right), "float", "right");
    s.push_if(g.float == Some(Side::Right), "margin", "0 0 4px 8px");
    assert(s.css@ == graphic_css(g@));
    let mut a: Vec<char> = no_attrs();
    match &g.src {
        Some(src) => {
            push_class(&mut a, st.img_class);
            let mut v: Vec<char> = Vec::new();
            push_text(&mut v, src.as_str());
            assert(v@ =~= src@);
            assert(plain("src"@)) by {
                lemma_attr_names();
            }
            push_attr(&mut a, "src", &v);
            let mut l: Vec<char> = Vec::new();
            push_text(&mut l, g.label.as_str());
            assert(l@ =~= g.label@);
            assert(plain("alt"@)) by {
                lemma_attr_names();
            }
            push_attr(&mut a, "alt", &l);
            s.push_to(&mut a);
            assert(a@ =~= class_text(st.img_class@) + attr_text("src"@, src@) + attr_text(
                "alt"@,
                g.label@,
            ) + style_text(s.css@));
            assert(is_name("img"@) && is_void("img"@)) by {
                lemma_tags();
            }
            w.void("img", &a);
        },
        None => {
            push_class(&mut a, st.graphic_class);
            s.push_to(&mut a);
            assert(a@ =~= class_text(st.graphic_class@) + style_text(s.css@));
            assert(is_name("span"@) && !is_void("span"@)) by {
                lemma_tags();
            }
            w.open("span", &a);
            w.text(g.label.as_str());
            w.close();
        },
    }
}

// ── paragraphs ───────────────────────────────────────────────────────────────

/// A number as near to `v` as a length can be.
pub open spec fn as_px(v: int) -> Px {
    if v > i64::MAX {
        i64::MAX
    } else if v < i64::MIN {
        i64::MIN
    } else {
        v as i64
    }
}

pub fn to_px(v: i128) -> (r: Px)
    ensures
        r == as_px(v as int),
{
    if v > i64::MAX as i128 {
        i64::MAX
    } else if v < i64::MIN as i128 {
        i64::MIN
    } else {
        v as i64
    }
}

/// The left margin: a marker takes the place that the first line hangs into.
pub open spec fn margin_left(p: ParaView) -> Px {
    if p.marker is Some {
        let v = p.indent_px + p.first_line_px;
        if v > 0 {
            as_px(v)
        } else {
            0
        }
    } else {
        p.indent_px
    }
}

/// The `line-height` that a line needs; nothing for a single line.
pub open spec fn line_text(line: LineHeight, scalable: bool) -> Seq<char> {
    match line {
        LineHeight::Exact(px) => scaled_text(px, scalable),
        LineHeight::AtLeast(px) => "max("@ + scaled_text(px, scalable) + ", 1.2em)"@,
        LineHeight::Multiple(m) => if apart(m as int, SINGLE_LINE as int, 100_000) {
            fixed_text(m as int, 100_000_000)
        } else {
            Seq::empty()
        },
    }
}

fn line_value(line: LineHeight, scalable: bool) -> (r: Vec<char>)
    ensures
        r@ == line_text(line, scalable),
{
    let mut v: Vec<char> = Vec::new();
    match line {
        LineHeight::Exact(px) => {
            return scaled_px(px, scalable);
        },
        LineHeight::AtLeast(px) => {
            push_text(&mut v, "max(");
            let s: Vec<char> = scaled_px(px, scalable);
            push_all(&mut v, &s);
            push_text(&mut v, ", 1.2em)");
        },
        LineHeight::Multiple(m) => {
            if differ(m, SINGLE_LINE, 100_000) {
                push_fixed(&mut v, m, 100_000_000);
            }
        },
    }
    assert(v@ =~= line_text(line, scalable));
    v
}

pub open spec fn edge_text(e: Border) -> Seq<char> {
    px_text(e.width_px) + seq![' '] + (match e.style {
        Some(k) => k.word(),
        None => "solid"@,
    }) + (match e.color {
        Some(c) => seq![' '] + c.css_text(),
        None => Seq::empty(),
    })
}

/// One edge and the gap it asks for. An edge of no width draws nothing and says nothing.
pub open spec fn edge_css(border: Seq<char>, padding: Seq<char>, e: Option<Border>) -> Seq<char> {
    match e {
        Some(e) => if e.width_px > 0 {
            decl(border, edge_text(e)) + decl_if(e.space_px > 0, padding, px_text(e.space_px))
        } else {
            Seq::empty()
        },
        None => Seq::empty(),
    }
}

fn push_edge(s: &mut Style, border: &str, padding: &str, e: Option<Border>)
    ensures
        final(s).css@ == old(s).css@ + edge_css(border@, padding@, e),
{
    let ghost before = s.css@;
    if let Some(e) = e {
        if e.width_px > 0 {
            let mut v: Vec<char> = Vec::new();
            push_px(&mut v, e.width_px);
            v.push(' ');
            match e.style {
                Some(k) => push_text(&mut v, k.css()),
                None => push_text(&mut v, "solid"),
            }
            if let Some(c) = e.color {
                v.push(' ');
                push_text(&mut v, c.css().as_str());
            }
            assert(v@ =~= edge_text(e));
            s.push_chars(border, &v);
            s.push_px_if(e.space_px > 0, padding, e.space_px);
        }
    }
    assert(s.css@ =~= before + edge_css(border@, padding@, e));
}

/// A paragraph's own declarations.
pub open spec fn para_css(p: ParaView, scalable: bool) -> Seq<char> {
    Seq::empty() + (match p.align {
        Some(a) => decl("text-align"@, a.word()),
        None => Seq::empty(),
    }) + decl_if(margin_left(p) != 0, "margin-left"@, px_text(margin_left(p))) + decl_if(
        p.marker is None && p.first_line_px != 0,
        "text-indent"@,
        px_text(p.first_line_px),
    ) + decl_if(p.indent_end_px != 0, "margin-right"@, px_text(p.indent_end_px)) + decl_if(
        p.space_before_px > 0,
        "margin-top"@,
        px_text(p.space_before_px),
    ) + decl_if(p.space_after_px > 0, "margin-bottom"@, px_text(p.space_after_px)) + decl(
        "font-size"@,
        scaled_text(p.size_pt, scalable),
    ) + decl("line-height"@, line_text(p.line, scalable)) + decl_if(p.rtl, "direction"@, "rtl"@)
        + opt_color("background-color"@, p.shade) + edge_css(
        "border-top"@,
        "padding-top"@,
        p.borders.top,
    ) + edge_css("border-right"@, "padding-right"@, p.borders.right) + edge_css(
        "border-bottom"@,
        "padding-bottom"@,
        p.borders.bottom,
    ) + edge_css("border-left"@, "padding-left"@, p.borders.left)
}

fn para_style(p: &Para, scalable: bool) -> (s: Style)
    ensures
        s.css@ == para_css(p@, scalable),
{
    let mut s = Style::new();
    match p.align {
        Some(a) => s.push("text-align", a.css()),
        None => {
            assert(s.css@ =~= s.css@ + Seq::<char>::empty());
        },
    }
    let left: Px = if p.marker.is_some() {
        let v: i128 = p.indent_px as i128 + p.first_line_px as i128;
        if v > 0 {
            to_px(v)
        } else {
            0
        }
    } else {
        p.indent_px
    };
    assert(left == margin_left(p@));
    s.push_px_if(left != 0, "margin-left", left);
    s.push_px_if(p.marker.is_none() && p.first_line_px != 0, "text-indent", p.first_line_px);
    s.push_px_if(p.indent_end_px != 0, "margin-right", p.indent_end_px);
    s.push_px_if(p.space_before_px > 0, "margin-top", p.space_before_px);
    s.push_px_if(p.space_after_px > 0, "margin-bottom", p.space_after_px);
    s.push_chars("font-size", &scaled_px(p.size_pt, scalable));
    s.push_chars("line-height", &line_value(p.line, scalable));
    s.push_if(p.rtl, "direction", "rtl");
    s.push_opt_color("background-color", p.shade);
    push_edge(&mut s, "border-top", "padding-top", p.borders.top);
    push_edge(&mut s, "border-right", "padding-right", p.borders.right);
    push_edge(&mut s, "border-bottom", "padding-bottom", p.borders.bottom);
    push_edge(&mut s, "border-left", "padding-left", p.borders.left);
    s
}

pub open spec fn marker_css(m: MarkerView, hang: Px, scalable: bool) -> Seq<char> {
    Seq::empty() + (if 2 * hang < -PX {
        decl("width"@, px_text(as_px(-hang)))
    } else {
        decl("padding-right"@, "0.3em"@)
    }) + opt_color("color"@, m.color) + opt_decl("font-family"@, m.font) + (match m.size_pt {
        Some(pt) => decl("font-size"@, scaled_text(pt, scalable)),
        None => Seq::empty(),
    })
}

/// After a paragraph's marker, which is as wide as the first line hangs.
pub open spec fn marker_written(w: Written, m: MarkerView, st: HtmlStyle, hang: Px) -> Written {
    w.opened(
        "span"@,
        attr_text("class"@, st.marker_class@) + style_text(marker_css(m, hang, st.scalable)),
    ).text(m.label).closed()
}

fn emit_marker(w: &mut Writer, m: &ListMarker, st: &HtmlStyle, hang: Px)
    ensures
        final(w)@ == marker_written(old(w)@, m@, *st, hang),
{
    let mut s = Style::new();
    if 2 * (hang as i128) < -(PX as i128) {
        s.push_px("width", to_px(-(hang as i128)));
    } else {
        s.push("padding-right", "0.3em");
    }
    s.push_opt_color("color", m.color);
    s.push_opt_text("font-family", &m.font);
    if let Some(pt) = m.size_pt {
        s.push_chars("font-size", &scaled_px(pt, st.scalable));
    }
    assert(s.css@ =~= marker_css(m@, hang, st.scalable));
    let mut a: Vec<char> = no_attrs();
    push_named_class(&mut a, st.marker_class);
    s.push_to(&mut a);
    assert(a@ =~= attr_text("class"@, st.marker_class@) + style_text(s.css@));
    assert(is_name("span"@) && !is_void("span"@)) by {
        lemma_tags();
    }
    w.open("span", &a);
    w.text(m.label.as_str());
    w.close();
}

fn push_named_class(a: &mut Vec<char>, class: &str)
    ensures
        final(a)@ == old(a)@ + attr_text("class"@, class@),
        are_attrs(old(a)@) ==> are_attrs(final(a)@),
{
    let mut v: Vec<char> = Vec::new();
    push_text(&mut v, class);
    assert(v@ =~= class@);
    assert(plain("class"@)) by {
        lemma_attr_names();
    }
    push_attr(a, "class", &v);
}

/// The element of a paragraph.
pub open spec fn para_tag(heading: Option<u8>) -> Seq<char> {
    match heading {
        Some(1) => "h1"@,
        Some(2) => "h2"@,
        Some(3) => "h3"@,
        Some(4) => "h4"@,
        Some(5) => "h5"@,
        Some(6) => "h6"@,
        _ => "p"@,
    }
}

proof fn lemma_headings()
    ensures
        is_name("h1"@) && !is_void("h1"@),
        is_name("h2"@) && !is_void("h2"@),
        is_name("h3"@) && !is_void("h3"@),
        is_name("h4"@) && !is_void("h4"@),
        is_name("h5"@) && !is_void("h5"@),
        is_name("h6"@) && !is_void("h6"@),
{
    reveal(plain);
    reveal(is_name);
    reveal_strlit("br");
    reveal_strlit("col");
    reveal_strlit("img");
    reveal_strlit("h1");
    reveal_strlit("h2");
    reveal_strlit("h3");
    reveal_strlit("h4");
    reveal_strlit("h5");
    reveal_strlit("h6");
    assert("br"@[0] == 'b' && "col"@.len() == 3 && "img"@.len() == 3);
    assert("h1"@[0] == 'h' && "h2"@[0] == 'h' && "h3"@[0] == 'h');
    assert("h4"@[0] == 'h' && "h5"@[0] == 'h' && "h6"@[0] == 'h');
}

fn tag_of(heading: Option<u8>) -> (r: &'static str)
    ensures
        r@ == para_tag(heading),
        is_name(r@),
        !is_void(r@),
{
    proof {
        lemma_tags();
        lemma_headings();
    }
    match heading {
        Some(1) => "h1",
        Some(2) => "h2",
        Some(3) => "h3",
        Some(4) => "h4",
        Some(5) => "h5",
        Some(6) => "h6",
        _ => "p",
    }
}

/// After one run of a paragraph.
#[verifier::opaque]
pub open spec fn piece_inked(
    x: Inked,
    r: RunView,
    base_pt: Px,
    st: HtmlStyle,
    terms: Seq<Seq<char>>,
) -> Inked {
    match r {
        Run::Break(b) => Inked {
            w: x.w.void(
                "br"@,
                if b == Break::Line {
                    Seq::empty()
                } else {
                    class_text(st.break_class@)
                },
            ),
            ..x
        },
        Run::Tab => Inked { w: x.w.text("\t"@), ..x },
        Run::Graphic(g) => Inked { w: graphic_written(x.w, g, st), ..x },
        Run::Anchor(id) => Inked { w: x.w.opened("span"@, attr_text("id"@, id)).closed(), ..x },
        Run::Text(t) => if t.text.len() == 0 {
            x
        } else {
            run_inked(x, t, base_pt, st.scalable, terms)
        },
    }
}

pub open spec fn runs_inked(
    x: Inked,
    runs: Seq<RunView>,
    base_pt: Px,
    st: HtmlStyle,
    terms: Seq<Seq<char>>,
) -> Inked
    decreases runs.len(),
{
    if runs.len() == 0 {
        x
    } else {
        piece_inked(
            runs_inked(x, runs.drop_last(), base_pt, st, terms),
            runs.last(),
            base_pt,
            st,
            terms,
        )
    }
}

/// After one paragraph. A paragraph without runs keeps its line.
#[verifier::opaque]
pub open spec fn para_inked(
    x: Inked,
    p: ParaView,
    st: HtmlStyle,
    terms: Seq<Seq<char>>,
) -> Inked {
    let class = if p.marker is Some {
        st.list_class@
    } else {
        st.para_class@
    };
    let w0 = x.w.opened(
        para_tag(p.heading),
        attr_text("class"@, class) + style_text(para_css(p, st.scalable)),
    );
    let w1 = match p.marker {
        Some(m) => marker_written(w0, m, st, p.first_line_px).opened(
            "span"@,
            attr_text("class"@, st.text_class@),
        ),
        None => w0,
    };
    let w2 = if p.runs.len() == 0 {
        w1.text("\u{00a0}"@)
    } else {
        w1
    };
    let y = runs_inked(Inked { w: w2, ..x }, p.runs, p.size_pt, st, terms);
    let w3 = if p.marker is Some {
        y.w.closed()
    } else {
        y.w
    };
    Inked { w: w3.closed(), ..y }
}

fn emit_piece(
    w: &mut Writer,
    r: &Run,
    base_pt: Px,
    st: &HtmlStyle,
    hl: &mut Marker,
    terms: &Terms,
)
    ensures
        (Inked { w: final(w)@, marks: final(hl)@ }) == piece_inked(
            Inked { w: old(w)@, marks: old(hl)@ },
            r@,
            base_pt,
            *st,
            terms@,
        ),
{
    proof {
        reveal(piece_inked);
    }
    match r {
        Run::Break(b) => {
            let mut a: Vec<char> = no_attrs();
            if *b != Break::Line {
                push_class(&mut a, st.break_class);
                assert(a@ =~= class_text(st.break_class@));
            } else {
                assert(a@ =~= Seq::<char>::empty());
            }
            assert(is_name("br"@) && is_void("br"@)) by {
                lemma_tags();
            }
            w.void("br", &a);
        },
        Run::Tab => {
            w.text("\t");
        },
        Run::Graphic(g) => {
            emit_graphic(w, g, st);
        },
        Run::Anchor(id) => {
            let mut v: Vec<char> = Vec::new();
            push_text(&mut v, id.as_str());
            assert(v@ =~= id@);
            let mut a: Vec<char> = no_attrs();
            assert(plain("id"@)) by {
                lemma_attr_names();
            }
            push_attr(&mut a, "id", &v);
            assert(a@ =~= attr_text("id"@, id@));
            assert(is_name("span"@) && !is_void("span"@)) by {
                lemma_tags();
            }
            w.open("span", &a);
            w.close();
        },
        Run::Text(t) => {
            let mut v: Vec<char> = Vec::new();
            push_text(&mut v, t.text.as_str());
            assert(v@ =~= t.text@);
            if v.len() > 0 {
                emit_run(w, t, base_pt, st.scalable, hl, terms);
            }
        },
    }
}

fn emit_runs(
    w: &mut Writer,
    runs: &Vec<Run>,
    base_pt: Px,
    st: &HtmlStyle,
    hl: &mut Marker,
    terms: &Terms,
)
    ensures
        (Inked { w: final(w)@, marks: final(hl)@ }) == runs_inked(
            Inked { w: old(w)@, marks: old(hl)@ },
            run_views(runs@),
            base_pt,
            *st,
            terms@,
        ),
{
    let ghost start = Inked { w: w@, marks: hl@ };
    let ghost rs = run_views(runs@);
    assert(rs.take(0) =~= Seq::<RunView>::empty());
    for i in 0..runs.len()
        invariant
            rs == run_views(runs@),
            (Inked { w: w@, marks: hl@ }) == runs_inked(
                start,
                rs.take(i as int),
                base_pt,
                *st,
                terms@,
            ),
    {
        assert(rs.take(i + 1).drop_last() =~= rs.take(i as int));
        assert(rs.take(i + 1).last() == runs@[i as int]@);
        emit_piece(w, &runs[i], base_pt, st, hl, terms);
    }
    assert(rs.take(rs.len() as int) =~= rs);
}

/// Writes a paragraph.
pub fn emit_para(w: &mut Writer, p: &Para, st: &HtmlStyle, hl: &mut Marker, terms: &Terms)
    ensures
        (Inked { w: final(w)@, marks: final(hl)@ }) == para_inked(
            Inked { w: old(w)@, marks: old(hl)@ },
            p@,
            *st,
            terms@,
        ),
{
    proof {
        reveal(para_inked);
    }
    let s: Style = para_style(p, st.scalable);
    let class: &'static str = if p.marker.is_some() {
        st.list_class
    } else {
        st.para_class
    };
    let mut a: Vec<char> = no_attrs();
    push_named_class(&mut a, class);
    s.push_to(&mut a);
    assert(a@ =~= attr_text("class"@, class@) + style_text(s.css@));
    w.open(tag_of(p.heading), &a);
    if let Some(m) = &p.marker {
        emit_marker(w, m, st, p.first_line_px);
        let mut t: Vec<char> = no_attrs();
        push_named_class(&mut t, st.text_class);
        assert(t@ =~= attr_text("class"@, st.text_class@));
        assert(is_name("span"@) && !is_void("span"@)) by {
            lemma_tags();
        }
        w.open("span", &t);
    }
    if p.runs.len() == 0 {
        w.text("\u{00a0}");
    }
    emit_runs(w, &p.runs, p.size_pt, st, hl, terms);
    if p.marker.is_some() {
        w.close();
    }
    w.close();
}

pub open spec fn para_views(v: Seq<Para>) -> Seq<ParaView> {
    v.map_values(|p: Para| p@)
}

/// After some paragraphs. None is begun once the writer is full.
pub open spec fn paras_inked(
    x: Inked,
    v: Seq<ParaView>,
    st: HtmlStyle,
    terms: Seq<Seq<char>>,
) -> Inked
    decreases v.len(),
{
    if v.len() == 0 || x.w.full {
        x
    } else {
        paras_inked(para_inked(x, v[0], st, terms), v.skip(1), st, terms)
    }
}

/// Writes paragraphs.
pub fn emit_paras(w: &mut Writer, paras: &[Para], st: &HtmlStyle, hl: &mut Marker, terms: &Terms)
    ensures
        (Inked { w: final(w)@, marks: final(hl)@ }) == paras_inked(
            Inked { w: old(w)@, marks: old(hl)@ },
            para_views(paras@),
            *st,
            terms@,
        ),
{
    let ghost v = para_views(paras@);
    let ghost goal = paras_inked(Inked { w: w@, marks: hl@ }, v, *st, terms@);
    assert(v.skip(0) =~= v);
    let mut i: usize = 0;
    while i < paras.len() && !w.is_full()
        invariant
            i <= paras@.len(),
            v == para_views(paras@),
            paras_inked(Inked { w: w@, marks: hl@ }, v.skip(i as int), *st, terms@) == goal,
        decreases paras@.len() - i,
    {
        assert(v.skip(i as int)[0] == paras@[i as int]@);
        assert(v.skip(i as int).skip(1) =~= v.skip(i + 1));
        emit_para(w, &paras[i], st, hl, terms);
        i = i + 1;
    }
}

// ── laws ─────────────────────────────────────────────────────────────────────

proof fn lemma_piece_goes_on(
    x: Inked,
    r: RunView,
    base_pt: Px,
    st: HtmlStyle,
    terms: Seq<Seq<char>>,
)
    ensures
        goes_on(x.w, piece_inked(x, r, base_pt, st, terms).w),
{
    broadcast use group_goes_on;

    reveal(piece_inked);
    lemma_stays(x.w);
}

proof fn lemma_runs_go_on(
    x: Inked,
    runs: Seq<RunView>,
    base_pt: Px,
    st: HtmlStyle,
    terms: Seq<Seq<char>>,
)
    ensures
        goes_on(x.w, runs_inked(x, runs, base_pt, st, terms).w),
    decreases runs.len(),
{
    broadcast use group_goes_on;

    if runs.len() == 0 {
        lemma_stays(x.w);
    } else {
        let before = runs_inked(x, runs.drop_last(), base_pt, st, terms);
        lemma_runs_go_on(x, runs.drop_last(), base_pt, st, terms);
        lemma_piece_goes_on(before, runs.last(), base_pt, st, terms);
    }
}

/// Paragraphs are written behind what was written before, within the same bound.
pub proof fn law_paragraphs_go_on(
    x: Inked,
    v: Seq<ParaView>,
    st: HtmlStyle,
    terms: Seq<Seq<char>>,
)
    ensures
        goes_on(x.w, paras_inked(x, v, st, terms).w),
    decreases v.len(),
{
    broadcast use group_goes_on;

    if v.len() == 0 || x.w.full {
        lemma_stays(x.w);
    } else {
        lemma_para_goes_on(x, v[0], st, terms);
        law_paragraphs_go_on(para_inked(x, v[0], st, terms), v.skip(1), st, terms);
    }
}

proof fn lemma_para_goes_on(x: Inked, p: ParaView, st: HtmlStyle, terms: Seq<Seq<char>>)
    ensures
        goes_on(x.w, para_inked(x, p, st, terms).w),
{
    broadcast use group_goes_on;

    reveal(para_inked);
    let class = if p.marker is Some {
        st.list_class@
    } else {
        st.para_class@
    };
    let w0 = x.w.opened(
        para_tag(p.heading),
        attr_text("class"@, class) + style_text(para_css(p, st.scalable)),
    );
    let w1 = match p.marker {
        Some(m) => marker_written(w0, m, st, p.first_line_px).opened(
            "span"@,
            attr_text("class"@, st.text_class@),
        ),
        None => w0,
    };
    let w2 = if p.runs.len() == 0 {
        w1.text("\u{00a0}"@)
    } else {
        w1
    };
    assert(goes_on(x.w, w1));
    assert(goes_on(x.w, w2));
    lemma_runs_go_on(Inked { w: w2, ..x }, p.runs, p.size_pt, st, terms);
}

} // verus!
