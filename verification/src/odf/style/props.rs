//! What a property element states.
//!
//! Attributes are found by local name: one element mixes several namespaces, and which
//! prefix stands for which is the producer's own affair.

use vstd::prelude::*;
use crate::cellstyle::{Rotation, VAlign};
use crate::chars::{chars_of, push_text, slice_of, string_of, text_is, trim, trimmed};
use crate::color::Color;
use crate::docshape::MAX_PAGE_PX;
use crate::fonts::{css_font_stack, font_stack};
use crate::html::opt_view;
use crate::model::Align;
use crate::names::{lookup, Names};
use crate::numfmt::tokens::until;
use crate::odf::length::{
    border_of, clamp_px, clamped, color_of, len_of, measure_of, parse_border, parse_color,
    parse_len, parse_measure, parse_percent, percent_of, texts, words, words_from, Measure, Px,
};
use crate::odf::number::{number_of, parse_number, Number, MILLIONTH};
use crate::odf::numstyle::{name_from, name_of};
use crate::odf::style::{
    clamped_pt, unstated, BreakKind, CellProps, ColorVal, ColumnProps, DrawPageProps, Edge,
    FillKind, FillProps, FontSize, GraphicProps, HPos, LineSpec, Padding, ParaProps, ParaPropsView,
    Position, Resolved, ResolvedView, RowProps, Sides, StrokeKind, StrokeProps, TableAlign,
    TableProps, TextProps, TextPropsView, WrapMode, MAX_INDENT_PX, MAX_SIZE_PCT, MAX_SIZE_PT,
    MIN_SIZE_PT, ONE_HUNDRED,
};
use crate::paint::Cap;
use crate::xml::{trees, Element, Tree};

verus! {

/// The longest style or font name.
pub const MAX_NAME: usize = 128;

/// Tab stops kept per paragraph style.
pub const MAX_TAB_STOPS: usize = 64;

/// The widest letter spacing either way: 100pt.
pub const MAX_SPACING_PT: Px = 50_800_000_000;

pub type Faces = Seq<(Seq<char>, Seq<char>)>;

// ── attributes ───────────────────────────────────────────────────────────────

/// Whether an attribute has this very value.
pub open spec fn says(e: Tree, attr: Seq<char>, word: Seq<char>) -> bool {
    e.attr(attr) == Some(word)
}

pub fn attr_says(e: &Element, attr: &str, word: &str) -> (r: bool)
    ensures
        r == says(e@, attr@, word@),
{
    match e.attr_local(attr) {
        Some(v) => *v == *word,
        None => false,
    }
}

/// An attribute without the white space around it.
pub open spec fn trimmed_attr(e: Tree, attr: Seq<char>) -> Option<Seq<char>> {
    match e.attr(attr) {
        Some(v) => Some(trimmed(v)),
        None => None,
    }
}

fn attr_trims_to(e: &Element, attr: &str, word: &str) -> (r: bool)
    ensures
        r == (trimmed_attr(e@, attr@) == Some(word@)),
{
    match e.attr_local(attr) {
        Some(v) => {
            let t: Vec<char> = trim(&chars_of(v));
            text_is(&t, word)
        },
        None => false,
    }
}

/// A length; a percentage is none.
pub open spec fn len_attr(e: Tree, attr: Seq<char>) -> Option<Px> {
    match e.attr(attr) {
        Some(v) => len_of(v),
        None => None,
    }
}

pub fn len(e: &Element, attr: &str) -> (r: Option<Px>)
    ensures
        r == len_attr(e@, attr@),
{
    match e.attr_local(attr) {
        Some(v) => parse_len(v),
        None => None,
    }
}

pub open spec fn within_px(v: Option<Px>, least: int, most: int) -> Option<Px> {
    match v {
        Some(v) => Some(clamped(v as int, least, most) as i64),
        None => None,
    }
}

/// A length within `MAX_INDENT_PX` either way.
pub open spec fn bounded_attr(e: Tree, attr: Seq<char>) -> Option<Px> {
    within_px(len_attr(e, attr), -MAX_INDENT_PX, MAX_INDENT_PX as int)
}

pub fn len_bounded(e: &Element, attr: &str) -> (r: Option<Px>)
    ensures
        r == bounded_attr(e@, attr@),
{
    match len(e, attr) {
        Some(v) => Some(clamp_px(v, -MAX_INDENT_PX, MAX_INDENT_PX)),
        None => None,
    }
}

/// A length that is not negative, up to `MAX_INDENT_PX`.
pub open spec fn positive_attr(e: Tree, attr: Seq<char>) -> Option<Px> {
    within_px(len_attr(e, attr), 0, MAX_INDENT_PX as int)
}

fn len_pos(e: &Element, attr: &str) -> (r: Option<Px>)
    ensures
        r == positive_attr(e@, attr@),
{
    match len(e, attr) {
        Some(v) => Some(clamp_px(v, 0, MAX_INDENT_PX)),
        None => None,
    }
}

pub open spec fn color_attr(e: Tree, attr: Seq<char>) -> Option<Color> {
    match e.attr(attr) {
        Some(v) => color_of(v),
        None => None,
    }
}

fn color(e: &Element, attr: &str) -> (r: Option<Color>)
    ensures
        r == color_attr(e@, attr@),
{
    match e.attr_local(attr) {
        Some(v) => parse_color(v),
        None => None,
    }
}

pub open spec fn break_attr(e: Tree, attr: Seq<char>) -> Option<BreakKind> {
    let v = trimmed_attr(e, attr);
    if v == Some("auto"@) {
        Some(BreakKind::Auto)
    } else if v == Some("column"@) {
        Some(BreakKind::Column)
    } else if v == Some("page"@) {
        Some(BreakKind::Page)
    } else {
        None
    }
}

fn break_kind(e: &Element, attr: &str) -> (r: Option<BreakKind>)
    ensures
        r == break_attr(e@, attr@),
{
    if attr_trims_to(e, attr, "auto") {
        Some(BreakKind::Auto)
    } else if attr_trims_to(e, attr, "column") {
        Some(BreakKind::Column)
    } else if attr_trims_to(e, attr, "page") {
        Some(BreakKind::Page)
    } else {
        None
    }
}

pub open spec fn or_else<T>(a: Option<T>, b: Option<T>) -> Option<T> {
    if a is Some {
        a
    } else {
        b
    }
}

fn first_of<T: Copy>(a: Option<T>, b: Option<T>) -> (r: Option<T>)
    ensures
        r == or_else(a, b),
{
    if a.is_some() {
        a
    } else {
        b
    }
}

// ── text ─────────────────────────────────────────────────────────────────────

pub open spec fn size_attr(e: Tree) -> Option<FontSize> {
    match e.attr("font-size"@) {
        Some(v) => match measure_of(v) {
            Some(Measure::Px(px)) => Some(FontSize::Pt(clamped_pt(px as int))),
            Some(Measure::Percent(p)) => Some(
                FontSize::Percent(clamped(p as int, 0, MAX_SIZE_PCT as int) as i64),
            ),
            None => None,
        },
        None => None,
    }
}

fn font_size(e: &Element) -> (r: Option<FontSize>)
    ensures
        r == size_attr(e@),
{
    match e.attr_local("font-size") {
        Some(v) => match parse_measure(v) {
            Some(Measure::Px(px)) => Some(FontSize::Pt(clamp_px(px, MIN_SIZE_PT, MAX_SIZE_PT))),
            Some(Measure::Percent(p)) => Some(FontSize::Percent(clamp_px(p, 0, MAX_SIZE_PCT))),
            None => None,
        },
        None => None,
    }
}

pub open spec fn is_quote(c: char) -> bool {
    c == '\'' || c == '"'
}

/// The text without the quotes it starts with.
pub open spec fn unquoted_start(s: Seq<char>) -> Seq<char>
    decreases s.len(),
{
    if s.len() > 0 && is_quote(s[0]) {
        unquoted_start(s.skip(1))
    } else {
        s
    }
}

/// The text without the quotes it ends with.
pub open spec fn unquoted_end(s: Seq<char>) -> Seq<char>
    decreases s.len(),
{
    if s.len() > 0 && is_quote(s.last()) {
        unquoted_end(s.drop_last())
    } else {
        s
    }
}

/// The first family of a list, without quotes and cut to length.
pub open spec fn first_family(v: Seq<char>) -> Option<Seq<char>> {
    let t = unquoted_end(unquoted_start(trimmed(v.take(until(v, 0, ',')))));
    if t.len() == 0 {
        None
    } else {
        Some(
            t.take(
                if t.len() < MAX_NAME {
                    t.len() as int
                } else {
                    MAX_NAME as int
                },
            ),
        )
    }
}

fn unquote(v: &Vec<char>) -> (r: Vec<char>)
    ensures
        r@ == unquoted_end(unquoted_start(v@)),
{
    let mut a: usize = 0;
    assert(v@.skip(0) =~= v@);
    while a < v.len() && (v[a] == '\'' || v[a] == '"')
        invariant
            a <= v@.len(),
            unquoted_start(v@) == unquoted_start(v@.skip(a as int)),
        decreases v@.len() - a,
    {
        assert(v@.skip(a as int).skip(1) =~= v@.skip(a + 1));
        a = a + 1;
    }
    let ghost t = v@.skip(a as int);
    assert(unquoted_start(v@) == t);
    let mut b: usize = v.len();
    assert(v@.subrange(a as int, b as int) =~= t);
    while b > a && (v[b - 1] == '\'' || v[b - 1] == '"')
        invariant
            a <= b <= v@.len(),
            unquoted_end(t) == unquoted_end(v@.subrange(a as int, b as int)),
        decreases b,
    {
        let ghost u = v@.subrange(a as int, b as int);
        assert(u.last() == v@[b - 1]);
        assert(u.drop_last() =~= v@.subrange(a as int, b - 1));
        b = b - 1;
    }
    slice_of(v, a, b)
}

/// The first family of a list.
pub fn family_of_list(v: &str) -> (r: Option<String>)
    ensures
        opt_view(r) == first_family(v@),
{
    let s: Vec<char> = chars_of(v);
    let mut end: usize = 0;
    while end < s.len() && s[end] != ','
        invariant
            end <= s@.len(),
            until(s@, end as int, ',') == until(s@, 0, ','),
        decreases s@.len() - end,
    {
        end = end + 1;
    }
    let head: Vec<char> = slice_of(&s, 0, end);
    assert(head@ =~= s@.take(end as int));
    let t: Vec<char> = unquote(&trim(&head));
    if t.len() == 0 {
        return None;
    }
    let n: usize = if t.len() < MAX_NAME {
        t.len()
    } else {
        MAX_NAME
    };
    let cut: Vec<char> = slice_of(&t, 0, n);
    assert(cut@ =~= t@.take(n as int));
    Some(string_of(&cut))
}

/// The family that a text property names, through the font declarations where it names
/// one of those.
pub open spec fn face_of(e: Tree, faces: Faces) -> Option<Seq<char>> {
    match name_from(e.attr("font-name"@), MAX_NAME as nat) {
        Some(name) => match lookup(faces, name) {
            Some(family) => Some(family),
            None => Some(name),
        },
        None => match e.attr("font-family"@) {
            Some(v) => first_family(v),
            None => None,
        },
    }
}

fn font_face(e: &Element, faces: &Names<String>) -> (r: Option<String>)
    ensures
        opt_view(r) == face_of(e@, faces@),
{
    match name_of(e, "font-name", MAX_NAME) {
        Some(name) => match faces.get(name.as_str()) {
            Some(family) => Some(String::from_str(family.as_str())),
            None => Some(name),
        },
        None => match e.attr_local("font-family") {
            Some(v) => family_of_list(v),
            None => None,
        },
    }
}

/// What stands behind the point of the least number above 599 that single precision rounds
/// to 600.
pub const NEARLY_600: u64 = 999_969_482_421_875;

/// A weight is bold from 600 on, as single precision has it.
pub open spec fn weight_of(v: Seq<char>) -> Option<bool> {
    let t = trimmed(v);
    if t == "bold"@ || t == "bolder"@ {
        Some(true)
    } else if t == "normal"@ || t == "lighter"@ {
        Some(false)
    } else {
        match number_of(t) {
            Some(Number::Finite { negative, whole, parts }) => Some(
                !negative && (whole >= 600 || whole == 599 && parts >= NEARLY_600),
            ),
            Some(Number::Infinite { negative }) => Some(!negative),
            Some(Number::Nothing) => Some(false),
            None => None,
        }
    }
}

fn font_weight(v: &str) -> (r: Option<bool>)
    ensures
        r == weight_of(v@),
{
    let t: Vec<char> = trim(&chars_of(v));
    if text_is(&t, "bold") || text_is(&t, "bolder") {
        Some(true)
    } else if text_is(&t, "normal") || text_is(&t, "lighter") {
        Some(false)
    } else {
        match parse_number(&t) {
            Some(Number::Finite { negative, whole, parts }) => Some(
                !negative && (whole >= 600 || whole == 599 && parts >= NEARLY_600),
            ),
            Some(Number::Infinite { negative }) => Some(!negative),
            Some(Number::Nothing) => Some(false),
            None => None,
        }
    }
}

/// `super`, `sub`, or a raise: zero is a statement that cancels an inherited one.
pub open spec fn position_of(v: Seq<char>) -> Option<Position> {
    let ws = words_from(v, 0);
    if ws.len() == 0 {
        None
    } else if ws[0] == "super"@ {
        Some(Position::Super)
    } else if ws[0] == "sub"@ {
        Some(Position::Sub)
    } else {
        match percent_of(ws[0]) {
            Some(p) => Some(
                if p > 0 {
                    Position::Super
                } else if p < 0 {
                    Position::Sub
                } else {
                    Position::Baseline
                },
            ),
            None => None,
        }
    }
}

fn text_position(v: &str) -> (r: Option<Position>)
    ensures
        r == position_of(v@),
{
    let ws: Vec<Vec<char>> = words(&chars_of(v));
    let ghost all = texts(ws@);
    if ws.len() == 0 {
        return None;
    }
    assert(all[0] == ws@[0]@);
    if text_is(&ws[0], "super") {
        return Some(Position::Super);
    }
    if text_is(&ws[0], "sub") {
        return Some(Position::Sub);
    }
    match parse_percent(string_of(&ws[0]).as_str()) {
        Some(p) => Some(
            if p > 0 {
                Position::Super
            } else if p < 0 {
                Position::Sub
            } else {
                Position::Baseline
            },
        ),
        None => None,
    }
}

pub open spec fn spacing_of(v: Seq<char>) -> Option<Px> {
    if trimmed(v) == "normal"@ {
        Some(0)
    } else {
        within_px(len_of(v), -MAX_SPACING_PT, MAX_SPACING_PT as int)
    }
}

fn letter_spacing(v: &str) -> (r: Option<Px>)
    ensures
        r == spacing_of(v@),
{
    let t: Vec<char> = trim(&chars_of(v));
    if text_is(&t, "normal") {
        return Some(0);
    }
    match parse_len(v) {
        Some(px) => Some(clamp_px(px, -MAX_SPACING_PT, MAX_SPACING_PT)),
        None => None,
    }
}

pub open spec fn language_of(e: Tree) -> Option<Seq<char>> {
    match name_from(e.attr("language"@), MAX_NAME as nat) {
        Some(l) => Some(
            match name_from(e.attr("country"@), MAX_NAME as nat) {
                Some(c) => l + seq!['-'] + c,
                None => l,
            },
        ),
        None => None,
    }
}

fn language(e: &Element) -> (r: Option<String>)
    ensures
        opt_view(r) == language_of(e@),
{
    match name_of(e, "language", MAX_NAME) {
        Some(l) => match name_of(e, "country", MAX_NAME) {
            Some(c) => {
                let mut v: Vec<char> = chars_of(l.as_str());
                v.push('-');
                push_text(&mut v, c.as_str());
                assert(v@ =~= l@ + seq!['-'] + c@);
                Some(string_of(&v))
            },
            None => Some(l),
        },
        None => None,
    }
}

pub open spec fn color_val_of(e: Tree) -> Option<ColorVal> {
    match color_attr(e, "color"@) {
        Some(c) => Some(ColorVal::Of(c)),
        None => if e.attr_bool("use-window-font-color"@) == Some(true) {
            Some(ColorVal::Auto)
        } else {
            None
        },
    }
}

pub open spec fn text_props_of(e: Tree, faces: Faces) -> TextPropsView {
    TextProps {
        size: size_attr(e),
        font: match face_of(e, faces) {
            Some(raw) => Some(font_stack(raw)),
            None => None,
        },
        font_raw: face_of(e, faces),
        bold: match e.attr("font-weight"@) {
            Some(v) => weight_of(v),
            None => None,
        },
        italic: match e.attr("font-style"@) {
            Some(v) => Some(v == "italic"@ || v == "oblique"@),
            None => None,
        },
        underline: match e.attr("text-underline-style"@) {
            Some(v) => Some(v != "none"@),
            None => None,
        },
        strike: match e.attr("text-line-through-style"@) {
            Some(v) => Some(v != "none"@),
            None => None,
        },
        caps: if says(e, "text-transform"@, "uppercase"@) {
            Some(true)
        } else if says(e, "text-transform"@, "none"@) {
            Some(false)
        } else {
            None
        },
        small_caps: if says(e, "font-variant"@, "small-caps"@) {
            Some(true)
        } else if says(e, "font-variant"@, "normal"@) {
            Some(false)
        } else {
            None
        },
        color: color_val_of(e),
        highlight: color_attr(e, "background-color"@),
        letter_spacing_pt: match e.attr("letter-spacing"@) {
            Some(v) => spacing_of(v),
            None => None,
        },
        position: match e.attr("text-position"@) {
            Some(v) => position_of(v),
            None => None,
        },
        language: language_of(e),
    }
}

fn opt_italic(e: &Element) -> (r: Option<bool>)
    ensures
        r == (match e@.attr("font-style"@) {
            Some(v) => Some(v == "italic"@ || v == "oblique"@),
            None => None,
        }),
{
    match e.attr_local("font-style") {
        Some(v) => Some(*v == *"italic" || *v == *"oblique"),
        None => None,
    }
}

fn opt_line(e: &Element, attr: &str) -> (r: Option<bool>)
    ensures
        r == (match e@.attr(attr@) {
            Some(v) => Some(v != "none"@),
            None => None,
        }),
{
    match e.attr_local(attr) {
        Some(v) => Some(!(*v == *"none")),
        None => None,
    }
}

/// Reads text properties.
pub fn parse_text_props(e: &Element, faces: &Names<String>) -> (r: TextProps)
    ensures
        r@ == text_props_of(e@, faces@),
{
    let font_raw: Option<String> = font_face(e, faces);
    let font: Option<String> = match &font_raw {
        Some(raw) => Some(css_font_stack(raw.as_str())),
        None => None,
    };
    TextProps {
        size: font_size(e),
        font,
        font_raw,
        bold: match e.attr_local("font-weight") {
            Some(v) => font_weight(v),
            None => None,
        },
        italic: opt_italic(e),
        underline: opt_line(e, "text-underline-style"),
        strike: opt_line(e, "text-line-through-style"),
        caps: if attr_says(e, "text-transform", "uppercase") {
            Some(true)
        } else if attr_says(e, "text-transform", "none") {
            Some(false)
        } else {
            None
        },
        small_caps: if attr_says(e, "font-variant", "small-caps") {
            Some(true)
        } else if attr_says(e, "font-variant", "normal") {
            Some(false)
        } else {
            None
        },
        color: match color(e, "color") {
            Some(c) => Some(ColorVal::Of(c)),
            None => if e.attr_bool("use-window-font-color") == Some(true) {
                Some(ColorVal::Auto)
            } else {
                None
            },
        },
        highlight: color(e, "background-color"),
        letter_spacing_pt: match e.attr_local("letter-spacing") {
            Some(v) => letter_spacing(v),
            None => None,
        },
        position: match e.attr_local("text-position") {
            Some(v) => text_position(v),
            None => None,
        },
        language: language(e),
    }
}

// ── paragraphs ───────────────────────────────────────────────────────────────

pub open spec fn align_named(v: Option<Seq<char>>) -> Option<Align> {
    if v == Some("start"@) || v == Some("left"@) {
        Some(Align::Left)
    } else if v == Some("center"@) {
        Some(Align::Center)
    } else if v == Some("end"@) || v == Some("right"@) {
        Some(Align::Right)
    } else if v == Some("justify"@) {
        Some(Align::Justify)
    } else {
        None
    }
}

fn text_align(e: &Element) -> (r: Option<Align>)
    ensures
        r == align_named(e@.attr("text-align"@)),
{
    if attr_says(e, "text-align", "start") || attr_says(e, "text-align", "left") {
        Some(Align::Left)
    } else if attr_says(e, "text-align", "center") {
        Some(Align::Center)
    } else if attr_says(e, "text-align", "end") || attr_says(e, "text-align", "right") {
        Some(Align::Right)
    } else if attr_says(e, "text-align", "justify") {
        Some(Align::Justify)
    } else {
        None
    }
}

/// A line height: a total goes before a floor, and a floor before leading.
pub open spec fn line_spec_of(e: Tree) -> Option<LineSpec> {
    match e.attr("line-height"@) {
        Some(v) => if trimmed(v) == "normal"@ {
            Some(LineSpec::Proportional(ONE_HUNDRED))
        } else {
            match measure_of(v) {
                Some(Measure::Percent(p)) => Some(
                    LineSpec::Proportional(clamped(p as int, 10_000_000, 2_000_000_000) as i64),
                ),
                Some(Measure::Px(px)) => Some(
                    LineSpec::Fixed(clamped(px as int, 0, MAX_INDENT_PX as int) as i64),
                ),
                None => None,
            }
        },
        None => match positive_attr(e, "line-height-at-least"@) {
            Some(px) => Some(LineSpec::AtLeast(px)),
            None => match bounded_attr(e, "line-spacing"@) {
                Some(px) => Some(LineSpec::Leading(px)),
                None => None,
            },
        },
    }
}

fn line_spec(e: &Element) -> (r: Option<LineSpec>)
    ensures
        r == line_spec_of(e@),
{
    match e.attr_local("line-height") {
        Some(v) => {
            let t: Vec<char> = trim(&chars_of(v));
            if text_is(&t, "normal") {
                return Some(LineSpec::Proportional(ONE_HUNDRED));
            }
            match parse_measure(v) {
                Some(Measure::Percent(p)) => Some(
                    LineSpec::Proportional(clamp_px(p, 10_000_000, 2_000_000_000)),
                ),
                Some(Measure::Px(px)) => Some(LineSpec::Fixed(clamp_px(px, 0, MAX_INDENT_PX))),
                None => None,
            }
        },
        None => match len_pos(e, "line-height-at-least") {
            Some(px) => Some(LineSpec::AtLeast(px)),
            None => match len_bounded(e, "line-spacing") {
                Some(px) => Some(LineSpec::Leading(px)),
                None => None,
            },
        },
    }
}

pub open spec fn edge_of(v: Seq<char>) -> Edge {
    match border_of(v) {
        Some(b) => Edge::Line(b),
        None => Edge::Nothing,
    }
}

/// One edge: its own attribute, or else the shorthand for all four. That the attribute is
/// there is a statement, even where no border comes of it.
pub open spec fn side_of(e: Tree, attr: Seq<char>) -> Option<Edge> {
    match or_else(e.attr(attr), e.attr("border"@)) {
        Some(v) => Some(edge_of(v)),
        None => None,
    }
}

pub open spec fn sides_of(e: Tree) -> Sides {
    Sides {
        top: side_of(e, "border-top"@),
        right: side_of(e, "border-right"@),
        bottom: side_of(e, "border-bottom"@),
        left: side_of(e, "border-left"@),
    }
}

fn side(e: &Element, attr: &str) -> (r: Option<Edge>)
    ensures
        r == side_of(e@, attr@),
{
    let v: &str = match e.attr_local(attr) {
        Some(v) => v,
        None => match e.attr_local("border") {
            Some(v) => v,
            None => {
                return None;
            },
        },
    };
    Some(
        match parse_border(v) {
            Some(b) => Edge::Line(b),
            None => Edge::Nothing,
        },
    )
}

fn parse_sides(e: &Element) -> (r: Sides)
    ensures
        r == sides_of(e@),
{
    Sides {
        top: side(e, "border-top"),
        right: side(e, "border-right"),
        bottom: side(e, "border-bottom"),
        left: side(e, "border-left"),
    }
}

pub open spec fn not_negative(v: Option<Px>) -> Option<Px> {
    match v {
        Some(v) => Some(
            if v > 0 {
                v
            } else {
                0
            },
        ),
        None => None,
    }
}

fn floored(v: Option<Px>) -> (r: Option<Px>)
    ensures
        r == not_negative(v),
{
    match v {
        Some(v) => Some(
            if v > 0 {
                v
            } else {
                0
            },
        ),
        None => None,
    }
}

/// The tab stops that some elements state.
pub open spec fn stops_of(v: Seq<Tree>) -> Seq<Px>
    decreases v.len(),
{
    if v.len() == 0 {
        Seq::empty()
    } else {
        let before = stops_of(v.drop_last());
        let at = positive_attr(v.last(), "position"@);
        if v.last().name == "tab-stop"@ && at is Some && before.len() < MAX_TAB_STOPS {
            before.push(at->0)
        } else {
            before
        }
    }
}

fn tab_stops(e: &Element) -> (r: Vec<Px>)
    ensures
        r@ == stops_of(e@.elems()),
{
    let v: Vec<&Element> = e.elems();
    let ghost ts = trees(v@);
    let mut r: Vec<Px> = Vec::new();
    assert(ts.take(0) =~= Seq::<Tree>::empty());
    for i in 0..v.len()
        invariant
            ts == trees(v@),
            r@ == stops_of(ts.take(i as int)),
    {
        assert(ts.take(i + 1).drop_last() =~= ts.take(i as int));
        assert(ts.take(i + 1).last() == v@[i as int]@);
        if v[i].is("tab-stop") && r.len() < MAX_TAB_STOPS {
            if let Some(px) = len_pos(v[i], "position") {
                r.push(px);
            }
        }
    }
    assert(ts.take(ts.len() as int) =~= ts);
    r
}

pub open spec fn para_props_of(e: Tree) -> ParaPropsView {
    let all = bounded_attr(e, "margin"@);
    ParaProps {
        align: align_named(e.attr("text-align"@)),
        space_before_px: or_else(positive_attr(e, "margin-top"@), not_negative(all)),
        space_after_px: or_else(positive_attr(e, "margin-bottom"@), not_negative(all)),
        indent_px: or_else(bounded_attr(e, "margin-left"@), all),
        indent_end_px: or_else(bounded_attr(e, "margin-right"@), all),
        first_line_px: bounded_attr(e, "text-indent"@),
        auto_text_indent: e.attr_bool("auto-text-indent"@),
        line: line_spec_of(e),
        background: color_attr(e, "background-color"@),
        borders: sides_of(e),
        contextual_spacing: e.attr_bool("contextual-spacing"@),
        rtl: if says(e, "writing-mode"@, "rl-tb"@) {
            Some(true)
        } else if says(e, "writing-mode"@, "lr-tb"@) {
            Some(false)
        } else {
            None
        },
        keep_with_next: match e.attr("keep-with-next"@) {
            Some(v) => Some(v == "always"@),
            None => None,
        },
        break_before: break_attr(e, "break-before"@),
        break_after: break_attr(e, "break-after"@),
        tab_stop_distance_px: positive_attr(e, "tab-stop-distance"@),
        tab_stops: match e.child("tab-stops"@) {
            Some(stops) => stops_of(stops.elems()),
            None => Seq::empty(),
        },
    }
}

/// Reads paragraph properties. A margin on one side goes before the one for all four.
pub fn parse_para_props(e: &Element) -> (r: ParaProps)
    ensures
        r@ == para_props_of(e@),
{
    let all: Option<Px> = len_bounded(e, "margin");
    let stops: Vec<Px> = match e.child("tab-stops") {
        Some(c) => tab_stops(c),
        None => Vec::new(),
    };
    let keep: Option<bool> = match e.attr_local("keep-with-next") {
        Some(v) => Some(*v == *"always"),
        None => None,
    };
    let r = ParaProps {
        align: text_align(e),
        space_before_px: first_of(len_pos(e, "margin-top"), floored(all)),
        space_after_px: first_of(len_pos(e, "margin-bottom"), floored(all)),
        indent_px: first_of(len_bounded(e, "margin-left"), all),
        indent_end_px: first_of(len_bounded(e, "margin-right"), all),
        first_line_px: len_bounded(e, "text-indent"),
        auto_text_indent: e.attr_bool("auto-text-indent"),
        line: line_spec(e),
        background: color(e, "background-color"),
        borders: parse_sides(e),
        contextual_spacing: e.attr_bool("contextual-spacing"),
        rtl: if attr_says(e, "writing-mode", "rl-tb") {
            Some(true)
        } else if attr_says(e, "writing-mode", "lr-tb") {
            Some(false)
        } else {
            None
        },
        keep_with_next: keep,
        break_before: break_kind(e, "break-before"),
        break_after: break_kind(e, "break-after"),
        tab_stop_distance_px: len_pos(e, "tab-stop-distance"),
        tab_stops: stops,
    };
    assert(r@.tab_stops =~= para_props_of(e@).tab_stops);
    r
}

// ── tables ───────────────────────────────────────────────────────────────────

pub open spec fn padding_of(e: Tree) -> Padding {
    let all = positive_attr(e, "padding"@);
    Padding {
        top: or_else(positive_attr(e, "padding-top"@), all),
        right: or_else(positive_attr(e, "padding-right"@), all),
        bottom: or_else(positive_attr(e, "padding-bottom"@), all),
        left: or_else(positive_attr(e, "padding-left"@), all),
    }
}

fn parse_padding(e: &Element) -> (r: Padding)
    ensures
        r == padding_of(e@),
{
    let all: Option<Px> = len_pos(e, "padding");
    Padding {
        top: first_of(len_pos(e, "padding-top"), all),
        right: first_of(len_pos(e, "padding-right"), all),
        bottom: first_of(len_pos(e, "padding-bottom"), all),
        left: first_of(len_pos(e, "padding-left"), all),
    }
}

pub open spec fn wrap_of(e: Tree) -> Option<bool> {
    if says(e, "wrap-option"@, "wrap"@) {
        Some(true)
    } else if says(e, "wrap-option"@, "no-wrap"@) {
        Some(false)
    } else {
        None
    }
}

fn wrap_option(e: &Element) -> (r: Option<bool>)
    ensures
        r == wrap_of(e@),
{
    if attr_says(e, "wrap-option", "wrap") {
        Some(true)
    } else if attr_says(e, "wrap-option", "no-wrap") {
        Some(false)
    } else {
        None
    }
}

/// A turn, within one full circle. What is no finite number turns nothing.
pub open spec fn rotation_of(e: Tree) -> Option<Rotation> {
    match e.attr("rotation-angle"@) {
        Some(v) => {
            let n = number_of(trimmed(v));
            if n is Some && n->0 is Finite {
                Some(Rotation::Ccw((n->0.value() % 360_000_000) as i64))
            } else {
                None
            }
        },
        None => None,
    }
}

/// Whole turns do not count.
proof fn lemma_within_circle(whole: int, millionths: int)
    requires
        0 <= whole,
        0 <= millionths < 1_000_000,
    ensures
        (whole * 1_000_000 + millionths) % 360_000_000 == (whole % 360) * 1_000_000 + millionths,
        (-(whole * 1_000_000 + millionths)) % 360_000_000 == (if whole % 360 == 0 && millionths
            == 0 {
            0
        } else {
            360_000_000 - ((whole % 360) * 1_000_000 + millionths)
        }),
{
    let q = whole / 360;
    let r = whole % 360;
    assert(whole == 360 * q + r);
    let m = r * 1_000_000 + millionths;
    assert(whole * 1_000_000 + millionths == 360_000_000 * q + m);
    assert(0 <= m < 360_000_000);
}

fn rotation(e: &Element) -> (r: Option<Rotation>)
    ensures
        r == rotation_of(e@),
{
    match e.attr_local("rotation-angle") {
        Some(v) => match parse_number(&trim(&chars_of(v))) {
            Some(Number::Finite { negative, whole, parts }) => {
                let millionths: u64 = parts / MILLIONTH;
                proof {
                    lemma_within_circle(whole as int, millionths as int);
                }
                let m: i64 = (whole % 360) as i64 * 1_000_000 + millionths as i64;
                let turn: i64 = if !negative {
                    m
                } else if m == 0 {
                    0
                } else {
                    360_000_000 - m
                };
                Some(Rotation::Ccw(turn))
            },
            _ => None,
        },
        None => None,
    }
}

pub open spec fn cell_props_of(e: Tree) -> CellProps {
    CellProps {
        padding: padding_of(e),
        borders: sides_of(e),
        background: color_attr(e, "background-color"@),
        v_align: if says(e, "vertical-align"@, "top"@) {
            Some(VAlign::Top)
        } else if says(e, "vertical-align"@, "middle"@) {
            Some(VAlign::Center)
        } else if says(e, "vertical-align"@, "bottom"@) {
            Some(VAlign::Bottom)
        } else {
            None
        },
        wrap: wrap_of(e),
        shrink_to_fit: e.attr_bool("shrink-to-fit"@),
        rotation: rotation_of(e),
    }
}

/// Reads the properties of a table cell.
pub fn parse_cell_props(e: &Element) -> (r: CellProps)
    ensures
        r == cell_props_of(e@),
{
    CellProps {
        padding: parse_padding(e),
        borders: parse_sides(e),
        background: color(e, "background-color"),
        v_align: if attr_says(e, "vertical-align", "top") {
            Some(VAlign::Top)
        } else if attr_says(e, "vertical-align", "middle") {
            Some(VAlign::Center)
        } else if attr_says(e, "vertical-align", "bottom") {
            Some(VAlign::Bottom)
        } else {
            None
        },
        wrap: wrap_option(e),
        shrink_to_fit: e.attr_bool("shrink-to-fit"),
        rotation: rotation(e),
    }
}

pub open spec fn column_props_of(e: Tree) -> ColumnProps {
    ColumnProps {
        width_px: within_px(len_attr(e, "column-width"@), 0, MAX_PAGE_PX as int),
        optimal: e.attr_bool("use-optimal-column-width"@),
    }
}

/// Reads the properties of a table column.
pub fn parse_column_props(e: &Element) -> (r: ColumnProps)
    ensures
        r == column_props_of(e@),
{
    ColumnProps {
        width_px: match len(e, "column-width") {
            Some(v) => Some(clamp_px(v, 0, MAX_PAGE_PX)),
            None => None,
        },
        optimal: e.attr_bool("use-optimal-column-width"),
    }
}

pub open spec fn row_props_of(e: Tree) -> RowProps {
    RowProps {
        height_px: within_px(len_attr(e, "row-height"@), 0, MAX_PAGE_PX as int),
        optimal: e.attr_bool("use-optimal-row-height"@),
    }
}

/// Reads the properties of a table row.
pub fn parse_row_props(e: &Element) -> (r: RowProps)
    ensures
        r == row_props_of(e@),
{
    RowProps {
        height_px: match len(e, "row-height") {
            Some(v) => Some(clamp_px(v, 0, MAX_PAGE_PX)),
            None => None,
        },
        optimal: e.attr_bool("use-optimal-row-height"),
    }
}

pub open spec fn table_props_of(e: Tree) -> TableProps {
    TableProps {
        width: match or_else(e.attr("width"@), e.attr("rel-width"@)) {
            Some(v) => measure_of(v),
            None => None,
        },
        display: e.attr_bool("display"@),
        align: if says(e, "align"@, "left"@) {
            Some(TableAlign::Left)
        } else if says(e, "align"@, "center"@) {
            Some(TableAlign::Center)
        } else if says(e, "align"@, "right"@) {
            Some(TableAlign::Right)
        } else if says(e, "align"@, "margins"@) {
            Some(TableAlign::Margins)
        } else {
            None
        },
        indent_px: positive_attr(e, "margin-left"@),
        break_before: break_attr(e, "break-before"@),
        break_after: break_attr(e, "break-after"@),
    }
}

/// Reads the properties of a table.
pub fn parse_table_props(e: &Element) -> (r: TableProps)
    ensures
        r == table_props_of(e@),
{
    TableProps {
        width: match e.attr_local("width") {
            Some(v) => parse_measure(v),
            None => match e.attr_local("rel-width") {
                Some(v) => parse_measure(v),
                None => None,
            },
        },
        display: e.attr_bool("display"),
        align: if attr_says(e, "align", "left") {
            Some(TableAlign::Left)
        } else if attr_says(e, "align", "center") {
            Some(TableAlign::Center)
        } else if attr_says(e, "align", "right") {
            Some(TableAlign::Right)
        } else if attr_says(e, "align", "margins") {
            Some(TableAlign::Margins)
        } else {
            None
        },
        indent_px: len_pos(e, "margin-left"),
        break_before: break_kind(e, "break-before"),
        break_after: break_kind(e, "break-after"),
    }
}

// ── graphics ─────────────────────────────────────────────────────────────────

pub open spec fn fill_props_of(e: Tree) -> FillProps {
    FillProps {
        kind: if says(e, "fill"@, "none"@) {
            Some(FillKind::Empty)
        } else if says(e, "fill"@, "solid"@) {
            Some(FillKind::Solid)
        } else if says(e, "fill"@, "gradient"@) || says(e, "fill"@, "hatch"@) || says(
            e,
            "fill"@,
            "bitmap"@,
        ) {
            Some(FillKind::Unsupported)
        } else {
            None
        },
        color: color_attr(e, "fill-color"@),
        opacity: match e.attr("opacity"@) {
            Some(v) => within_px(percent_of(v), 0, ONE_HUNDRED as int),
            None => None,
        },
    }
}

fn parse_fill_props(e: &Element) -> (r: FillProps)
    ensures
        r == fill_props_of(e@),
{
    FillProps {
        kind: if attr_says(e, "fill", "none") {
            Some(FillKind::Empty)
        } else if attr_says(e, "fill", "solid") {
            Some(FillKind::Solid)
        } else if attr_says(e, "fill", "gradient") || attr_says(e, "fill", "hatch") || attr_says(
            e,
            "fill",
            "bitmap",
        ) {
            Some(FillKind::Unsupported)
        } else {
            None
        },
        color: color(e, "fill-color"),
        opacity: match e.attr_local("opacity") {
            Some(v) => match parse_percent(v) {
                Some(p) => Some(clamp_px(p, 0, ONE_HUNDRED)),
                None => None,
            },
            None => None,
        },
    }
}

pub open spec fn stroke_props_of(e: Tree) -> StrokeProps {
    StrokeProps {
        kind: if says(e, "stroke"@, "none"@) {
            Some(StrokeKind::Empty)
        } else if says(e, "stroke"@, "solid"@) {
            Some(StrokeKind::Solid)
        } else if says(e, "stroke"@, "dash"@) {
            Some(StrokeKind::Dash)
        } else {
            None
        },
        color: color_attr(e, "stroke-color"@),
        width_px: positive_attr(e, "stroke-width"@),
        cap: if says(e, "stroke-linecap"@, "butt"@) {
            Some(Cap::Flat)
        } else if says(e, "stroke-linecap"@, "round"@) {
            Some(Cap::Round)
        } else if says(e, "stroke-linecap"@, "square"@) {
            Some(Cap::Square)
        } else {
            None
        },
    }
}

fn parse_stroke_props(e: &Element) -> (r: StrokeProps)
    ensures
        r == stroke_props_of(e@),
{
    StrokeProps {
        kind: if attr_says(e, "stroke", "none") {
            Some(StrokeKind::Empty)
        } else if attr_says(e, "stroke", "solid") {
            Some(StrokeKind::Solid)
        } else if attr_says(e, "stroke", "dash") {
            Some(StrokeKind::Dash)
        } else {
            None
        },
        color: color(e, "stroke-color"),
        width_px: len_pos(e, "stroke-width"),
        cap: if attr_says(e, "stroke-linecap", "butt") {
            Some(Cap::Flat)
        } else if attr_says(e, "stroke-linecap", "round") {
            Some(Cap::Round)
        } else if attr_says(e, "stroke-linecap", "square") {
            Some(Cap::Square)
        } else {
            None
        },
    }
}

pub open spec fn text_v_align_of(e: Tree) -> Option<VAlign> {
    let a = "textarea-vertical-align"@;
    if says(e, a, "top"@) {
        Some(VAlign::Top)
    } else if says(e, a, "middle"@) {
        Some(VAlign::Center)
    } else if says(e, a, "bottom"@) {
        Some(VAlign::Bottom)
    } else if says(e, a, "justify"@) {
        Some(VAlign::Justify)
    } else {
        None
    }
}

fn text_v_align(e: &Element) -> (r: Option<VAlign>)
    ensures
        r == text_v_align_of(e@),
{
    if attr_says(e, "textarea-vertical-align", "top") {
        Some(VAlign::Top)
    } else if attr_says(e, "textarea-vertical-align", "middle") {
        Some(VAlign::Center)
    } else if attr_says(e, "textarea-vertical-align", "bottom") {
        Some(VAlign::Bottom)
    } else if attr_says(e, "textarea-vertical-align", "justify") {
        Some(VAlign::Justify)
    } else {
        None
    }
}

pub open spec fn text_h_align_of(e: Tree) -> Option<Align> {
    let a = "textarea-horizontal-align"@;
    if says(e, a, "left"@) {
        Some(Align::Left)
    } else if says(e, a, "center"@) {
        Some(Align::Center)
    } else if says(e, a, "right"@) {
        Some(Align::Right)
    } else if says(e, a, "justify"@) {
        Some(Align::Justify)
    } else {
        None
    }
}

fn text_h_align(e: &Element) -> (r: Option<Align>)
    ensures
        r == text_h_align_of(e@),
{
    if attr_says(e, "textarea-horizontal-align", "left") {
        Some(Align::Left)
    } else if attr_says(e, "textarea-horizontal-align", "center") {
        Some(Align::Center)
    } else if attr_says(e, "textarea-horizontal-align", "right") {
        Some(Align::Right)
    } else if attr_says(e, "textarea-horizontal-align", "justify") {
        Some(Align::Justify)
    } else {
        None
    }
}

pub open spec fn wrap_mode_of(e: Tree) -> Option<WrapMode> {
    if says(e, "wrap"@, "none"@) {
        Some(WrapMode::Alone)
    } else if says(e, "wrap"@, "left"@) {
        Some(WrapMode::Left)
    } else if says(e, "wrap"@, "right"@) {
        Some(WrapMode::Right)
    } else if says(e, "wrap"@, "parallel"@) || says(e, "wrap"@, "biggest"@) {
        Some(WrapMode::Parallel)
    } else if says(e, "wrap"@, "dynamic"@) {
        Some(WrapMode::Dynamic)
    } else if says(e, "wrap"@, "run-through"@) {
        Some(WrapMode::RunThrough)
    } else {
        None
    }
}

fn wrap_mode(e: &Element) -> (r: Option<WrapMode>)
    ensures
        r == wrap_mode_of(e@),
{
    if attr_says(e, "wrap", "none") {
        Some(WrapMode::Alone)
    } else if attr_says(e, "wrap", "left") {
        Some(WrapMode::Left)
    } else if attr_says(e, "wrap", "right") {
        Some(WrapMode::Right)
    } else if attr_says(e, "wrap", "parallel") || attr_says(e, "wrap", "biggest") {
        Some(WrapMode::Parallel)
    } else if attr_says(e, "wrap", "dynamic") {
        Some(WrapMode::Dynamic)
    } else if attr_says(e, "wrap", "run-through") {
        Some(WrapMode::RunThrough)
    } else {
        None
    }
}

pub open spec fn h_pos_of(e: Tree) -> Option<HPos> {
    let a = "horizontal-pos"@;
    if says(e, a, "left"@) || says(e, a, "inside"@) {
        Some(HPos::Left)
    } else if says(e, a, "center"@) {
        Some(HPos::Center)
    } else if says(e, a, "right"@) || says(e, a, "outside"@) {
        Some(HPos::Right)
    } else if says(e, a, "from-left"@) || says(e, a, "from-inside"@) {
        Some(HPos::FromLeft)
    } else {
        None
    }
}

fn h_pos(e: &Element) -> (r: Option<HPos>)
    ensures
        r == h_pos_of(e@),
{
    if attr_says(e, "horizontal-pos", "left") || attr_says(e, "horizontal-pos", "inside") {
        Some(HPos::Left)
    } else if attr_says(e, "horizontal-pos", "center") {
        Some(HPos::Center)
    } else if attr_says(e, "horizontal-pos", "right") || attr_says(e, "horizontal-pos", "outside") {
        Some(HPos::Right)
    } else if attr_says(e, "horizontal-pos", "from-left") || attr_says(
        e,
        "horizontal-pos",
        "from-inside",
    ) {
        Some(HPos::FromLeft)
    } else {
        None
    }
}

pub open spec fn graphic_props_of(e: Tree) -> GraphicProps {
    GraphicProps {
        fill: fill_props_of(e),
        stroke: stroke_props_of(e),
        text_v_align: text_v_align_of(e),
        text_h_align: text_h_align_of(e),
        auto_grow_height: e.attr_bool("auto-grow-height"@),
        auto_grow_width: e.attr_bool("auto-grow-width"@),
        padding: padding_of(e),
        min_height_px: positive_attr(e, "min-height"@),
        min_width_px: positive_attr(e, "min-width"@),
        wrap: wrap_of(e),
        wrap_mode: wrap_mode_of(e),
        h_pos: h_pos_of(e),
    }
}

/// Reads the properties of a frame or a shape.
pub fn parse_graphic_props(e: &Element) -> (r: GraphicProps)
    ensures
        r == graphic_props_of(e@),
{
    GraphicProps {
        fill: parse_fill_props(e),
        stroke: parse_stroke_props(e),
        text_v_align: text_v_align(e),
        text_h_align: text_h_align(e),
        auto_grow_height: e.attr_bool("auto-grow-height"),
        auto_grow_width: e.attr_bool("auto-grow-width"),
        padding: parse_padding(e),
        min_height_px: len_pos(e, "min-height"),
        min_width_px: len_pos(e, "min-width"),
        wrap: wrap_option(e),
        wrap_mode: wrap_mode(e),
        h_pos: h_pos(e),
    }
}

// ── a whole style ────────────────────────────────────────────────────────────

/// What a style states after one more of its property elements.
pub open spec fn with_props(r: ResolvedView, e: Tree, faces: Faces) -> ResolvedView {
    if e.name == "text-properties"@ {
        Resolved { text: text_props_of(e, faces), ..r }
    } else if e.name == "paragraph-properties"@ {
        Resolved { para: para_props_of(e), ..r }
    } else if e.name == "table-cell-properties"@ {
        Resolved { cell: cell_props_of(e), ..r }
    } else if e.name == "table-column-properties"@ {
        Resolved { column: column_props_of(e), ..r }
    } else if e.name == "table-row-properties"@ {
        Resolved { row: row_props_of(e), ..r }
    } else if e.name == "table-properties"@ {
        Resolved { table: table_props_of(e), ..r }
    } else if e.name == "graphic-properties"@ {
        Resolved { graphic: graphic_props_of(e), ..r }
    } else if e.name == "drawing-page-properties"@ {
        Resolved { page: DrawPageProps { fill: fill_props_of(e) }, ..r }
    } else {
        r
    }
}

/// What some property elements state together, each kind by its last element.
pub open spec fn props_of(v: Seq<Tree>, faces: Faces) -> ResolvedView
    decreases v.len(),
{
    if v.len() == 0 {
        unstated()
    } else {
        with_props(props_of(v.drop_last(), faces), v.last(), faces)
    }
}

/// Reads everything that a style states.
pub fn parse_props(style: &Element, faces: &Names<String>) -> (r: Resolved)
    ensures
        r@ == props_of(style@.elems(), faces@),
{
    let mut r: Resolved = Resolved::default();
    let v: Vec<&Element> = style.elems();
    let ghost ts = trees(v@);
    assert(ts.take(0) =~= Seq::<Tree>::empty());
    for i in 0..v.len()
        invariant
            ts == trees(v@),
            r@ == props_of(ts.take(i as int), faces@),
    {
        assert(ts.take(i + 1).drop_last() =~= ts.take(i as int));
        assert(ts.take(i + 1).last() == v@[i as int]@);
        let e: &Element = v[i];
        if e.is("text-properties") {
            r.text = parse_text_props(e, faces);
        } else if e.is("paragraph-properties") {
            r.para = parse_para_props(e);
        } else if e.is("table-cell-properties") {
            r.cell = parse_cell_props(e);
        } else if e.is("table-column-properties") {
            r.column = parse_column_props(e);
        } else if e.is("table-row-properties") {
            r.row = parse_row_props(e);
        } else if e.is("table-properties") {
            r.table = parse_table_props(e);
        } else if e.is("graphic-properties") {
            r.graphic = parse_graphic_props(e);
        } else if e.is("drawing-page-properties") {
            r.page = DrawPageProps { fill: parse_fill_props(e) };
        }
    }
    assert(ts.take(ts.len() as int) =~= ts);
    r
}

} // verus!
