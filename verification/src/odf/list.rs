//! List styles, and the counters that one walk over a body advances.
//!
//! A list's level is how deep it is nested: a walk says when it enters and leaves a list,
//! and asks for exactly one marker per item that draws one, in document order. A new list
//! starts over unless it says that it continues another.

use vstd::prelude::*;
use crate::xml;
use crate::chars::{
    chars_of, decimal, push_all, push_text, push_u64, slice_of, string_of, text_is, trim, trimmed,
};
use crate::fonts::{css_font_stack, font_stack, is_symbol, is_symbol_font, remap, symbol_of};
use crate::html::{copy_opt, opt_view};
use crate::listnum::{alpha, alpha_text, roman, roman_text};
use crate::model::{marker_view, Align, ListMarker, MarkerView};
use crate::names::{law_stored_is_found, lookup, stored, Names};
use crate::odf::length::{clamp_px, clamped, Px};
use crate::odf::numstyle::{name_from, name_of};
use crate::odf::style::{
    merge_text, merged_text, no_text, size_in, size_pt, Family, Styles, TextProps, TextPropsView,
    MAX_INDENT_PX,
};
use crate::odf::style::props::{
    bounded_attr, len_bounded, parse_text_props, text_props_of, trimmed_attr, Faces, MAX_NAME,
};
use crate::odf::style::store::{opt_str, opt_tree, Store};
use crate::xml::{document, trees, Element, Tree};

pub mod laws;

verus! {

/// The levels of a list style.
pub const LEVELS: usize = 10;

pub const MAX_LIST_STYLES: usize = 1024;

/// The longest label, and the longest text around a numeral.
pub const MAX_LABEL: usize = 120;

pub const MAX_HREF: usize = 512;

pub const MAX_BULLET_CHARS: usize = 8;

/// Where a counter stops.
pub const MAX_COUNTER: u32 = 1_000_000;

/// Open lists that are kept track of.
pub const MAX_DEPTH: usize = 64;

/// Lists that a later one can continue by name.
pub const MAX_CONTINUED: usize = 2048;

/// Letters in a label that repeats its letter.
pub const MAX_SYNC_REPS: u32 = 16;

pub const FALLBACK_BULLET: &'static str = "\u{2022}";

// ── level definitions ────────────────────────────────────────────────────────

#[derive(Clone, Copy, PartialEq, Eq, Debug, Structural)]
pub enum NumFmt {
    Decimal,
    LowerLetter,
    UpperLetter,
    LowerRoman,
    UpperRoman,
    /// Counts, and shows no numeral.
    Blank,
}

/// A format that has no name of its own here numbers in decimals.
pub open spec fn num_fmt_of(v: Seq<char>) -> NumFmt {
    let t = trimmed(v);
    if t.len() == 0 {
        NumFmt::Blank
    } else if t == "a"@ {
        NumFmt::LowerLetter
    } else if t == "A"@ {
        NumFmt::UpperLetter
    } else if t == "i"@ {
        NumFmt::LowerRoman
    } else if t == "I"@ {
        NumFmt::UpperRoman
    } else {
        NumFmt::Decimal
    }
}

fn num_fmt(v: &str) -> (r: NumFmt)
    ensures
        r == num_fmt_of(v@),
{
    let t: Vec<char> = trim(&chars_of(v));
    if t.len() == 0 {
        NumFmt::Blank
    } else if text_is(&t, "a") {
        NumFmt::LowerLetter
    } else if text_is(&t, "A") {
        NumFmt::UpperLetter
    } else if text_is(&t, "i") {
        NumFmt::LowerRoman
    } else if text_is(&t, "I") {
        NumFmt::UpperRoman
    } else {
        NumFmt::Decimal
    }
}

/// What stands between a label and the text.
#[derive(Clone, Copy, PartialEq, Eq, Debug, Structural)]
pub enum FollowedBy {
    ListTab,
    Space,
    Nothing,
}

/// A level's indentation, as a paragraph has it.
#[derive(Clone, Copy, PartialEq, Eq, Debug, Structural)]
pub struct LevelIndent {
    pub indent_px: Px,
    pub first_line_px: Px,
    pub followed_by: FollowedBy,
    /// How the label sits in its box.
    pub align: Option<Align>,
}

pub open spec fn no_indent() -> LevelIndent {
    LevelIndent {
        indent_px: 0,
        first_line_px: 0,
        followed_by: FollowedBy::ListTab,
        align: None,
    }
}

impl Default for LevelIndent {
    fn default() -> (r: LevelIndent)
        ensures
            r == no_indent(),
    {
        LevelIndent {
            indent_px: 0,
            first_line_px: 0,
            followed_by: FollowedBy::ListTab,
            align: None,
        }
    }
}

#[verifier::ext_equal]
#[derive(Debug)]
pub enum LevelKind<S = String> {
    Number,
    Bullet(S),
    /// The reference to a picture, as it is written.
    Image(S),
}

/// One level of a list style.
#[verifier::ext_equal]
#[derive(Debug)]
pub struct Level<S = String, P = TextProps> {
    pub kind: LevelKind<S>,
    pub start: u32,
    pub fmt: NumFmt,
    /// `aa`, `bb`, `cc` in place of `aa`, `ab`, `ac`.
    pub letter_sync: bool,
    pub prefix: S,
    pub suffix: S,
    /// How many levels' numbers the label shows.
    pub display_levels: u32,
    pub indent: LevelIndent,
    /// The text style of the label.
    pub text_style: Option<S>,
    /// The level's own text properties, over those of the style.
    pub props: P,
}

pub type LevelView = Level<Seq<char>, TextPropsView>;

impl View for LevelKind<String> {
    type V = LevelKind<Seq<char>>;

    open spec fn view(&self) -> LevelKind<Seq<char>> {
        match *self {
            LevelKind::Number => LevelKind::Number,
            LevelKind::Bullet(s) => LevelKind::Bullet(s@),
            LevelKind::Image(s) => LevelKind::Image(s@),
        }
    }
}

impl View for Level<String, TextProps> {
    type V = LevelView;

    open spec fn view(&self) -> LevelView {
        Level {
            kind: self.kind@,
            start: self.start,
            fmt: self.fmt,
            letter_sync: self.letter_sync,
            prefix: self.prefix@,
            suffix: self.suffix@,
            display_levels: self.display_levels,
            indent: self.indent,
            text_style: opt_view(self.text_style),
            props: self.props@,
        }
    }
}

pub open spec fn level_view(l: Option<Level>) -> Option<LevelView> {
    match l {
        Some(l) => Some(l@),
        None => None,
    }
}

/// A list style: ten levels, any of which may be left out.
#[derive(Debug)]
pub struct ListStyle {
    pub levels: Vec<Option<Level>>,
}

pub type LevelsView = Seq<Option<LevelView>>;

pub open spec fn levels_view(v: Seq<Option<Level>>) -> LevelsView {
    v.map_values(|l: Option<Level>| level_view(l))
}

impl View for ListStyle {
    type V = LevelsView;

    open spec fn view(&self) -> LevelsView {
        levels_view(self.levels@)
    }
}

// ── reading ──────────────────────────────────────────────────────────────────

/// A text cut to length.
pub open spec fn cut(s: Seq<char>, most: int) -> Seq<char> {
    if s.len() > most {
        s.take(most)
    } else {
        s
    }
}

/// A text cut to length.
pub fn cut_to(s: &str, most: usize) -> (r: String)
    ensures
        r@ == cut(s@, most as int),
{
    let v: Vec<char> = chars_of(s);
    if v.len() > most {
        let c: Vec<char> = slice_of(&v, 0, most);
        assert(c@ =~= v@.take(most as int));
        string_of(&c)
    } else {
        string_of(&v)
    }
}

fn cut_attr(e: &Element, attr: &str, most: usize) -> (r: String)
    ensures
        r@ == cut(e@.text_attr(attr@), most as int),
{
    cut_to(e.text_attr(attr), most)
}

pub open spec fn level_align(v: Option<Seq<char>>) -> Option<Align> {
    if v == Some("start"@) || v == Some("left"@) {
        Some(Align::Left)
    } else if v == Some("center"@) {
        Some(Align::Center)
    } else if v == Some("end"@) || v == Some("right"@) {
        Some(Align::Right)
    } else {
        None
    }
}

fn align_of(e: &Element) -> (r: Option<Align>)
    ensures
        r == level_align(trimmed_attr(e@, "text-align"@)),
{
    match e.attr_local("text-align") {
        Some(v) => {
            let t: Vec<char> = trim(&chars_of(v));
            if text_is(&t, "start") || text_is(&t, "left") {
                Some(Align::Left)
            } else if text_is(&t, "center") {
                Some(Align::Center)
            } else if text_is(&t, "end") || text_is(&t, "right") {
                Some(Align::Right)
            } else {
                None
            }
        },
        None => None,
    }
}

pub open spec fn followed_by_of(e: Tree) -> FollowedBy {
    let v = trimmed_attr(e, "label-followed-by"@);
    if v == Some("space"@) {
        FollowedBy::Space
    } else if v == Some("nothing"@) {
        FollowedBy::Nothing
    } else {
        FollowedBy::ListTab
    }
}

fn followed_by(e: &Element) -> (r: FollowedBy)
    ensures
        r == followed_by_of(e@),
{
    match e.attr_local("label-followed-by") {
        Some(v) => {
            let t: Vec<char> = trim(&chars_of(v));
            if text_is(&t, "space") {
                FollowedBy::Space
            } else if text_is(&t, "nothing") {
                FollowedBy::Nothing
            } else {
                FollowedBy::ListTab
            }
        },
        None => FollowedBy::ListTab,
    }
}

pub open spec fn px_or_zero(v: Option<Px>) -> Px {
    match v {
        Some(v) => v,
        None => 0,
    }
}

fn or_zero(v: Option<Px>) -> (r: Px)
    ensures
        r == px_or_zero(v),
{
    match v {
        Some(v) => v,
        None => 0,
    }
}

/// Whether a level states its indentation the older way.
pub open spec fn states_widths(p: Tree) -> bool {
    p.attr("space-before"@) is Some || p.attr("min-label-width"@) is Some
}

/// A level's indentation, in either of the two ways to state it. The newer one is read
/// where it is switched on, or where the older one states nothing.
pub open spec fn indent_of(p: Tree) -> LevelIndent {
    let align = level_align(trimmed_attr(p, "text-align"@));
    let switched = trimmed_attr(p, "list-level-position-and-space-mode"@) == Some(
        "label-alignment"@,
    );
    let label = p.child("list-level-label-alignment"@);
    if label is Some && (switched || !states_widths(p)) {
        LevelIndent {
            indent_px: px_or_zero(bounded_attr(label->0, "margin-left"@)),
            first_line_px: px_or_zero(bounded_attr(label->0, "text-indent"@)),
            followed_by: followed_by_of(label->0),
            align,
        }
    } else {
        let before = px_or_zero(bounded_attr(p, "space-before"@));
        let width = px_or_zero(bounded_attr(p, "min-label-width"@));
        LevelIndent {
            indent_px: clamped(before + width, -MAX_INDENT_PX, MAX_INDENT_PX as int) as i64,
            first_line_px: (-width) as i64,
            followed_by: FollowedBy::ListTab,
            align,
        }
    }
}

fn level_indent(p: &Element) -> (r: LevelIndent)
    ensures
        r == indent_of(p@),
{
    let align: Option<Align> = align_of(p);
    let widths: bool = p.attr_local("space-before").is_some() || p.attr_local(
        "min-label-width",
    ).is_some();
    let switched: bool = match p.attr_local("list-level-position-and-space-mode") {
        Some(v) => {
            let t: Vec<char> = trim(&chars_of(v));
            text_is(&t, "label-alignment")
        },
        None => false,
    };
    if let Some(a) = p.child("list-level-label-alignment") {
        if switched || !widths {
            return LevelIndent {
                indent_px: or_zero(len_bounded(a, "margin-left")),
                first_line_px: or_zero(len_bounded(a, "text-indent")),
                followed_by: followed_by(a),
                align,
            };
        }
    }
    let before: Px = or_zero(len_bounded(p, "space-before"));
    let width: Px = or_zero(len_bounded(p, "min-label-width"));
    LevelIndent {
        indent_px: clamp_px(before + width, -MAX_INDENT_PX, MAX_INDENT_PX),
        first_line_px: -width,
        followed_by: FollowedBy::ListTab,
        align,
    }
}

pub open spec fn kind_of(e: Tree) -> Option<LevelKind<Seq<char>>> {
    if e.name == "list-level-style-number"@ {
        Some(LevelKind::Number)
    } else if e.name == "list-level-style-bullet"@ {
        Some(LevelKind::Bullet(cut(e.text_attr("bullet-char"@), MAX_BULLET_CHARS as int)))
    } else if e.name == "list-level-style-image"@ {
        Some(LevelKind::Image(cut(e.text_attr("href"@), MAX_HREF as int)))
    } else {
        None
    }
}

pub open spec fn no_faces() -> Faces {
    Seq::empty()
}

pub open spec fn count_within(v: Option<u32>, most: u32) -> u32 {
    match v {
        Some(n) => if n < 1 {
            1
        } else if n > most {
            most
        } else {
            n
        },
        None => 1,
    }
}

fn count(v: Option<u32>, most: u32) -> (r: u32)
    ensures
        r == count_within(v, most),
{
    match v {
        Some(n) => if n < 1 {
            1
        } else if n > most {
            most
        } else {
            n
        },
        None => 1,
    }
}

/// A level. What stands around a numeral has no place around a bullet.
pub open spec fn level_of(e: Tree, kind: LevelKind<Seq<char>>) -> LevelView {
    Level {
        kind,
        start: count_within(e.attr_u32("start-value"@), MAX_COUNTER),
        fmt: match e.attr("num-format"@) {
            Some(v) => num_fmt_of(v),
            None => NumFmt::Decimal,
        },
        letter_sync: e.attr_bool("num-letter-sync"@) == Some(true),
        prefix: if kind is Number {
            cut(e.text_attr("num-prefix"@), MAX_LABEL as int)
        } else {
            Seq::empty()
        },
        suffix: if kind is Number {
            cut(e.text_attr("num-suffix"@), MAX_LABEL as int)
        } else {
            Seq::empty()
        },
        display_levels: count_within(e.attr_u32("display-levels"@), LEVELS as u32),
        indent: match e.child("list-level-properties"@) {
            Some(p) => indent_of(p),
            None => no_indent(),
        },
        text_style: name_from(e.attr("style-name"@), MAX_NAME as nat),
        props: match e.child("text-properties"@) {
            Some(t) => text_props_of(t, no_faces()),
            None => no_text(),
        },
    }
}

fn parse_level(e: &Element, kind: LevelKind) -> (r: Level)
    ensures
        r@ == level_of(e@, kind@),
{
    let numbered: bool = match &kind {
        LevelKind::Number => true,
        _ => false,
    };
    let prefix: String = if numbered {
        cut_attr(e, "num-prefix", MAX_LABEL)
    } else {
        String::new()
    };
    let suffix: String = if numbered {
        cut_attr(e, "num-suffix", MAX_LABEL)
    } else {
        String::new()
    };
    let none: Names<String> = Names::new();
    assert(none@ =~= no_faces());
    let props: TextProps = match e.child("text-properties") {
        Some(t) => parse_text_props(t, &none),
        None => TextProps::default(),
    };
    let r = Level {
        kind,
        start: count(e.attr_u32("start-value"), MAX_COUNTER),
        fmt: match e.attr_local("num-format") {
            Some(v) => num_fmt(v),
            None => NumFmt::Decimal,
        },
        letter_sync: e.attr_bool("num-letter-sync") == Some(true),
        prefix,
        suffix,
        display_levels: count(e.attr_u32("display-levels"), LEVELS as u32),
        indent: match e.child("list-level-properties") {
            Some(p) => level_indent(p),
            None => LevelIndent::default(),
        },
        text_style: name_of(e, "style-name", MAX_NAME),
        props,
    };
    assert(r@.prefix =~= level_of(e@, kind@).prefix);
    assert(r@.suffix =~= level_of(e@, kind@).suffix);
    r
}

pub open spec fn no_levels() -> LevelsView {
    Seq::new(LEVELS as nat, |i: int| None)
}

/// The levels after one more element. A level outside the ten is dropped.
pub open spec fn with_level(levels: LevelsView, e: Tree) -> LevelsView {
    let n = e.attr_u32("level"@);
    match kind_of(e) {
        Some(kind) => if n is Some && 1 <= n->0 <= LEVELS {
            levels.update(n->0 - 1, Some(level_of(e, kind)))
        } else {
            levels
        },
        None => levels,
    }
}

pub open spec fn levels_of(v: Seq<Tree>) -> LevelsView
    decreases v.len(),
{
    if v.len() == 0 {
        no_levels()
    } else {
        with_level(levels_of(v.drop_last()), v.last())
    }
}

fn read_kind(e: &Element) -> (r: Option<LevelKind>)
    ensures
        r is Some == kind_of(e@) is Some,
        r matches Some(k) ==> k@ == kind_of(e@)->0,
{
    if e.is("list-level-style-number") {
        Some(LevelKind::Number)
    } else if e.is("list-level-style-bullet") {
        Some(LevelKind::Bullet(cut_attr(e, "bullet-char", MAX_BULLET_CHARS)))
    } else if e.is("list-level-style-image") {
        Some(LevelKind::Image(cut_attr(e, "href", MAX_HREF)))
    } else {
        None
    }
}

fn parse_list_style(e: &Element) -> (r: ListStyle)
    ensures
        r@ == levels_of(e@.elems()),
{
    let mut levels: Vec<Option<Level>> = Vec::new();
    for i in 0..LEVELS
        invariant
            levels@.len() == i,
            forall|k: int| 0 <= k < i ==> #[trigger] levels@[k] is None,
    {
        levels.push(None);
    }
    assert(levels_view(levels@) =~= no_levels());
    let v: Vec<&Element> = e.elems();
    let ghost ts = trees(v@);
    assert(ts.take(0) =~= Seq::<Tree>::empty());
    for i in 0..v.len()
        invariant
            ts == trees(v@),
            levels@.len() == LEVELS,
            levels_view(levels@) == levels_of(ts.take(i as int)),
    {
        assert(ts.take(i + 1).drop_last() =~= ts.take(i as int));
        assert(ts.take(i + 1).last() == v@[i as int]@);
        let l: &Element = v[i];
        if let Some(kind) = read_kind(l) {
            if let Some(n) = l.attr_u32("level") {
                if 1 <= n && n <= LEVELS as u32 {
                    let ghost before = levels@;
                    let level: Level = parse_level(l, kind);
                    levels.set(n as usize - 1, Some(level));
                    assert(levels_view(levels@) =~= levels_view(before).update(
                        n - 1,
                        Some(level@),
                    ));
                }
            }
        }
    }
    assert(ts.take(ts.len() as int) =~= ts);
    ListStyle { levels }
}

// ── numerals ─────────────────────────────────────────────────────────────────

/// A text `n` times over.
pub open spec fn times(s: Seq<char>, n: nat) -> Seq<char>
    decreases n,
{
    if n == 0 {
        Seq::empty()
    } else {
        times(s, (n - 1) as nat) + s
    }
}

/// Past `z` the letter repeats.
pub open spec fn sync_text(n: u32, upper: bool) -> Seq<char> {
    let m = if n < 1 {
        1
    } else {
        n as int
    };
    let reps = (m - 1) / 26 + 1;
    times(
        alpha_text(((m - 1) % 26 + 1) as nat, upper),
        (if reps > MAX_SYNC_REPS {
            MAX_SYNC_REPS as int
        } else {
            reps
        }) as nat,
    )
}

pub fn alpha_sync(n: u32, upper: bool) -> (r: Vec<char>)
    ensures
        r@ == sync_text(n, upper),
{
    let m: u32 = if n < 1 {
        1
    } else {
        n
    };
    let full: u32 = (m - 1) / 26 + 1;
    let reps: u32 = if full > MAX_SYNC_REPS {
        MAX_SYNC_REPS
    } else {
        full
    };
    let one: Vec<char> = alpha((m - 1) % 26 + 1, upper);
    let mut out: Vec<char> = Vec::new();
    for i in 0..reps
        invariant
            out@ == times(one@, i as nat),
    {
        push_all(&mut out, &one);
    }
    out
}

pub open spec fn numeral(fmt: NumFmt, sync: bool, n: u32) -> Seq<char> {
    match fmt {
        NumFmt::Decimal => decimal(n as nat),
        NumFmt::LowerLetter => if sync {
            sync_text(n, false)
        } else {
            alpha_text(n as nat, false)
        },
        NumFmt::UpperLetter => if sync {
            sync_text(n, true)
        } else {
            alpha_text(n as nat, true)
        },
        NumFmt::LowerRoman => roman_text(n as nat, false),
        NumFmt::UpperRoman => roman_text(n as nat, true),
        NumFmt::Blank => Seq::empty(),
    }
}

fn render_num(fmt: NumFmt, sync: bool, n: u32) -> (r: Vec<char>)
    ensures
        r@ == numeral(fmt, sync, n),
{
    match fmt {
        NumFmt::Decimal => {
            let mut v: Vec<char> = Vec::new();
            push_u64(&mut v, n as u64);
            assert(v@ =~= decimal(n as nat));
            v
        },
        NumFmt::LowerLetter => if sync {
            alpha_sync(n, false)
        } else {
            alpha(n, false)
        },
        NumFmt::UpperLetter => if sync {
            alpha_sync(n, true)
        } else {
            alpha(n, true)
        },
        NumFmt::LowerRoman => roman(n, false),
        NumFmt::UpperRoman => roman(n, true),
        NumFmt::Blank => Vec::new(),
    }
}

/// A bullet, with the pictures of a symbol font turned into characters that any font has.
pub open spec fn glyph_of(ch: Seq<char>, font: Option<Seq<char>>) -> Seq<char> {
    if font is Some && is_symbol(font->0) {
        ch.map_values(|c: char| symbol_of(c))
    } else {
        ch
    }
}

fn bullet_glyph(ch: &str, font: &Option<String>) -> (r: Vec<char>)
    ensures
        r@ == glyph_of(ch@, opt_view(*font)),
{
    let v: Vec<char> = chars_of(ch);
    let symbol: bool = match font {
        Some(f) => is_symbol_font(f.as_str()),
        None => false,
    };
    if !symbol {
        return v;
    }
    let mut out: Vec<char> = Vec::new();
    for i in 0..v.len()
        invariant
            out@.len() == i,
            forall|k: int| 0 <= k < i ==> #[trigger] out@[k] == symbol_of(v@[k]),
    {
        out.push(remap(v[i]));
    }
    assert(out@ =~= v@.map_values(|c: char| symbol_of(c)));
    out
}

// ── what an item shows ───────────────────────────────────────────────────────

/// The marker of an item. The indentation holds even where there is no label.
#[verifier::ext_equal]
#[derive(Debug)]
pub struct Marker<S = String, M = ListMarker> {
    pub label: Option<M>,
    pub indent: LevelIndent,
    /// A bullet or a picture, and no number.
    pub bullet: bool,
    /// The reference to the picture that is the bullet.
    pub image: Option<S>,
}

pub type MarkView = Marker<Seq<char>, MarkerView>;

impl View for Marker<String, ListMarker> {
    type V = MarkView;

    open spec fn view(&self) -> MarkView {
        Marker {
            label: marker_view(self.label),
            indent: self.indent,
            bullet: self.bullet,
            image: opt_view(self.image),
        }
    }
}

/// The attributes of a list that say which style it has and where its counter starts.
#[derive(Clone, Copy, Debug)]
pub struct ListStart<'a> {
    /// Without one, or with one that is not defined, the enclosing list's style holds.
    pub style: Option<&'a str>,
    pub id: Option<&'a str>,
    pub continue_numbering: bool,
    /// Goes before `continue_numbering`.
    pub continue_list: Option<&'a str>,
}

/// A list's attributes as contracts see them.
#[verifier::ext_equal]
pub struct StartView {
    pub style: Option<Seq<char>>,
    pub id: Option<Seq<char>>,
    pub continue_numbering: bool,
    pub continue_list: Option<Seq<char>>,
}

impl<'a> View for ListStart<'a> {
    type V = StartView;

    open spec fn view(&self) -> StartView {
        StartView {
            style: opt_str(self.style),
            id: opt_str(self.id),
            continue_numbering: self.continue_numbering,
            continue_list: opt_str(self.continue_list),
        }
    }
}

pub open spec fn start_of(e: Tree) -> StartView {
    StartView {
        style: e.attr("style-name"@),
        id: e.attr("id"@),
        continue_numbering: e.attr_bool("continue-numbering"@) == Some(true),
        continue_list: e.attr("continue-list"@),
    }
}

impl<'a> ListStart<'a> {
    /// A list that states nothing.
    pub fn plain() -> (r: ListStart<'a>)
        ensures
            r@ == (StartView {
                style: None,
                id: None,
                continue_numbering: false,
                continue_list: None,
            }),
    {
        ListStart { style: None, id: None, continue_numbering: false, continue_list: None }
    }

    /// Reads the attributes of a list.
    pub fn read(list: &'a Element) -> (r: ListStart<'a>)
        ensures
            r@ == start_of(list@),
    {
        ListStart {
            style: list.attr_local("style-name"),
            id: list.attr_local("id"),
            continue_numbering: list.attr_bool("continue-numbering") == Some(true),
            continue_list: list.attr_local("continue-list"),
        }
    }
}

/// An open list.
#[verifier::ext_equal]
#[derive(Debug)]
pub struct Frame<S = String> {
    /// The name of its style, its own or the enclosing list's.
    pub style: Option<S>,
    pub id: Option<S>,
    /// `None` before the first item.
    pub counter: Option<u32>,
    /// The number that the next item has.
    pub pending: Option<u32>,
    /// An item has been counted. A counter that is taken over is none of its own.
    pub counted: bool,
}

pub type FrameView = Frame<Seq<char>>;

impl View for Frame<String> {
    type V = FrameView;

    open spec fn view(&self) -> FrameView {
        Frame {
            style: opt_view(self.style),
            id: opt_view(self.id),
            counter: self.counter,
            pending: self.pending,
            counted: self.counted,
        }
    }
}

pub open spec fn frame_views(v: Seq<Frame>) -> Seq<FrameView> {
    v.map_values(|f: Frame| f@)
}

/// The lists of a document as contracts see them.
#[verifier::ext_equal]
pub struct Numbering {
    pub defs: Seq<(Seq<char>, LevelsView)>,
    /// The open lists, outermost first.
    pub stack: Seq<FrameView>,
    /// Lists that were entered past `MAX_DEPTH`.
    pub over: nat,
    /// Where the lists that have an id ended.
    pub by_id: Seq<(Seq<char>, u32)>,
    /// Where the last list of each depth ended.
    pub closed: Seq<Option<u32>>,
}

/// A document's list styles, and the counters of one walk over its body.
#[derive(Debug)]
pub struct Lists {
    defs: Names<ListStyle>,
    stack: Vec<Frame>,
    over: usize,
    by_id: Names<u32>,
    closed: Vec<Option<u32>>,
}

impl View for Lists {
    type V = Numbering;

    closed spec fn view(&self) -> Numbering {
        Numbering {
            defs: self.defs@,
            stack: frame_views(self.stack@),
            over: self.over as nat,
            by_id: self.by_id@,
            closed: self.closed@,
        }
    }
}

/// The list styles after one more element.
pub open spec fn with_list_style(
    defs: Seq<(Seq<char>, LevelsView)>,
    e: Tree,
) -> Seq<(Seq<char>, LevelsView)> {
    let name = name_from(e.attr("name"@), MAX_NAME as nat);
    if e.name == "list-style"@ && name is Some && defs.len() < MAX_LIST_STYLES {
        stored(defs, name->0, levels_of(e.elems()))
    } else {
        defs
    }
}

pub open spec fn with_list_styles(
    defs: Seq<(Seq<char>, LevelsView)>,
    v: Seq<Tree>,
) -> Seq<(Seq<char>, LevelsView)>
    decreases v.len(),
{
    if v.len() == 0 {
        defs
    } else {
        with_list_style(with_list_styles(defs, v.drop_last()), v.last())
    }
}

pub open spec fn holds_list_styles(e: Tree) -> bool {
    e.name == "styles"@ || e.name == "automatic-styles"@ || e.name == "master-styles"@
}

/// The list styles after the style containers among some elements. A list style may stand
/// inside another style.
pub open spec fn with_list_containers(
    defs: Seq<(Seq<char>, LevelsView)>,
    v: Seq<Tree>,
) -> Seq<(Seq<char>, LevelsView)>
    decreases v.len(),
{
    if v.len() == 0 {
        defs
    } else {
        let before = with_list_containers(defs, v.drop_last());
        if holds_list_styles(v.last()) {
            with_list_styles(before, v.last().inside())
        } else {
            before
        }
    }
}

pub open spec fn with_list_part(
    defs: Seq<(Seq<char>, LevelsView)>,
    part: Option<Tree>,
) -> Seq<(Seq<char>, LevelsView)> {
    match part {
        Some(root) => with_list_containers(defs, root.elems()),
        None => defs,
    }
}

pub open spec fn no_counts() -> Seq<Option<u32>> {
    Seq::new(LEVELS as nat, |i: int| None)
}

pub open spec fn level_index(d: int) -> int {
    if d < LEVELS - 1 {
        d
    } else {
        LEVELS - 1
    }
}

/// The label's own text properties: its text style, and the level's over it.
pub open spec fn label_props(l: LevelView, store: Store) -> TextPropsView {
    merged_text(
        match l.text_style {
            Some(n) => store.resolved(Family::Text, n).text,
            None => no_text(),
        },
        l.props,
    )
}

/// The family that a label is drawn in.
pub open spec fn label_family(t: TextPropsView, store: Store) -> Option<Seq<char>> {
    match t.font_raw {
        Some(raw) => match lookup(store.faces, raw) {
            Some(f) => Some(f),
            None => Some(raw),
        },
        None => None,
    }
}

impl Numbering {
    pub open spec fn fresh(defs: Seq<(Seq<char>, LevelsView)>) -> Numbering {
        Numbering {
            defs,
            stack: Seq::empty(),
            over: 0,
            by_id: Seq::empty(),
            closed: no_counts(),
        }
    }

    /// No more than `MAX_DEPTH` lists are kept, and lists past those are counted only where
    /// `MAX_DEPTH` are open.
    pub open spec fn wf(self) -> bool {
        &&& self.stack.len() <= MAX_DEPTH
        &&& self.over > 0 ==> self.stack.len() == MAX_DEPTH
    }

    /// How many lists are open.
    pub open spec fn depth(self) -> nat {
        self.stack.len() + self.over
    }

    pub open spec fn closed_at(self, d: int) -> Option<u32> {
        let i = level_index(d);
        if i < self.closed.len() {
            self.closed[i]
        } else {
            None
        }
    }

    /// The list that a new list is in, opened.
    pub open spec fn new_frame(self, start: StartView) -> FrameView {
        let own = start.style is Some && lookup(self.defs, start.style->0) is Some;
        let named = match start.continue_list {
            Some(id) => lookup(self.by_id, id),
            None => None,
        };
        Frame {
            style: if own {
                start.style
            } else if self.stack.len() > 0 {
                self.stack.last().style
            } else {
                None
            },
            id: match start.id {
                Some(v) => Some(cut(v, MAX_NAME as int)),
                None => None,
            },
            counter: match named {
                Some(n) => Some(n),
                None => if start.continue_numbering {
                    self.closed_at(self.stack.len() as int)
                } else {
                    None
                },
            },
            pending: None,
            counted: false,
        }
    }

    /// After a list is entered.
    pub open spec fn entered(self, start: StartView) -> Numbering {
        if self.stack.len() >= MAX_DEPTH {
            Numbering {
                over: if self.over < usize::MAX {
                    self.over + 1
                } else {
                    self.over
                },
                ..self
            }
        } else {
            Numbering { stack: self.stack.push(self.new_frame(start)), ..self }
        }
    }

    /// After the innermost list is left. One without an item is not the last list of its
    /// depth.
    pub open spec fn left(self) -> Numbering {
        if self.over > 0 {
            Numbering { over: (self.over - 1) as nat, ..self }
        } else if self.stack.len() == 0 {
            self
        } else {
            let f = self.stack.last();
            let rest = self.stack.drop_last();
            let i = level_index(rest.len() as int);
            if f.counter is None {
                Numbering { stack: rest, ..self }
            } else {
                let n = f.counter->0;
                Numbering {
                    stack: rest,
                    closed: if f.counted && i < self.closed.len() {
                        self.closed.update(i, Some(n))
                    } else {
                        self.closed
                    },
                    by_id: if f.id is Some && self.by_id.len() < MAX_CONTINUED {
                        stored(self.by_id, f.id->0, n)
                    } else {
                        self.by_id
                    },
                    ..self
                }
            }
        }
    }

    /// After the next item's number is set.
    pub open spec fn restarted(self, value: u32) -> Numbering {
        if self.stack.len() == 0 {
            self
        } else {
            Numbering {
                stack: self.stack.update(
                    self.stack.len() - 1,
                    Frame {
                        pending: Some(clamped(value as int, 1, MAX_COUNTER as int) as u32),
                        ..self.stack.last()
                    },
                ),
                ..self
            }
        }
    }

    /// The level that the open list at depth `d` is at.
    pub open spec fn level_at(self, d: int) -> Option<LevelView> {
        if d < 0 || d >= self.stack.len() {
            None
        } else {
            match self.stack[d].style {
                Some(name) => match lookup(self.defs, name) {
                    Some(levels) => if level_index(d) < levels.len() {
                        levels[level_index(d)]
                    } else {
                        None
                    },
                    None => None,
                },
                None => None,
            }
        }
    }

    /// The level that the innermost list that is kept is at.
    pub open spec fn level(self) -> Option<LevelView> {
        self.level_at(self.stack.len() - 1)
    }

    /// The level that an item is numbered by. A list past `MAX_DEPTH` has no markers.
    pub open spec fn marker_level(self) -> Option<LevelView> {
        if self.over > 0 {
            None
        } else {
            self.level()
        }
    }

    /// The number that the next item has.
    pub open spec fn next_number(self, start: u32) -> u32 {
        let f = self.stack.last();
        match (f.pending, f.counter) {
            (Some(v), _) => v,
            (None, Some(n)) => if n < MAX_COUNTER {
                (n + 1) as u32
            } else {
                MAX_COUNTER
            },
            (None, None) => start,
        }
    }

    /// After one item.
    pub open spec fn counted(self) -> Numbering {
        match self.marker_level() {
            Some(l) => Numbering {
                stack: self.stack.update(
                    self.stack.len() - 1,
                    Frame {
                        counter: Some(self.next_number(l.start)),
                        pending: None,
                        counted: true,
                        ..self.stack.last()
                    },
                ),
                ..self
            },
            None => self,
        }
    }

    /// The numeral that the open list at depth `d` shows.
    pub open spec fn numeral_at(self, d: int) -> Option<Seq<char>> {
        match self.level_at(d) {
            Some(l) => Some(
                numeral(
                    l.fmt,
                    l.letter_sync,
                    match self.stack[d].counter {
                        Some(n) => n,
                        None => l.start,
                    },
                ),
            ),
            None => None,
        }
    }

    /// The numerals of the open lists from depth `d` to depth `last`, with dots between
    /// them. One that is empty is left out, dot and all.
    pub open spec fn numerals(self, d: int, last: int, first: bool) -> Seq<char>
        decreases last - d + 1,
    {
        if d > last {
            Seq::empty()
        } else {
            let n = self.numeral_at(d);
            if n is None || n->0.len() == 0 {
                self.numerals(d + 1, last, first)
            } else {
                (if first {
                    Seq::empty()
                } else {
                    seq!['.']
                }) + n->0 + self.numerals(d + 1, last, false)
            }
        }
    }

    /// The label of a numbered item.
    pub open spec fn numbered(self, l: LevelView, idx: int) -> Seq<char> {
        let shown = if l.display_levels < 1 {
            1
        } else if l.display_levels > idx + 1 {
            idx + 1
        } else {
            l.display_levels as int
        };
        l.prefix + self.numerals(idx + 1 - shown, idx, true) + l.suffix
    }

    /// The text of the innermost list's label, once its item is counted.
    pub open spec fn label_text(self, l: LevelView, family: Option<Seq<char>>) -> Seq<char> {
        match l.kind {
            LevelKind::Bullet(ch) => glyph_of(ch, family),
            LevelKind::Image(_) => FALLBACK_BULLET@,
            LevelKind::Number => self.numbered(l, self.stack.len() - 1),
        }
    }

    /// The marker of an item, once it is counted.
    pub open spec fn marker(self, l: LevelView, store: Store, base_pt: Px) -> MarkView {
        let t = label_props(l, store);
        let family = label_family(t, store);
        let text = self.label_text(l, family);
        Marker {
            label: if text.len() == 0 {
                None
            } else {
                Some(
                    ListMarker {
                        label: cut(text, MAX_LABEL as int),
                        color: match t.color {
                            Some(c) => c.value(),
                            None => None,
                        },
                        font: match family {
                            Some(f) => Some(font_stack(f)),
                            None => None,
                        },
                        size_pt: match t.size {
                            Some(_) => Some(size_in(t.size, base_pt)),
                            None => None,
                        },
                    },
                )
            },
            indent: l.indent,
            bullet: !(l.kind is Number),
            image: match l.kind {
                LevelKind::Image(href) => Some(href),
                _ => None,
            },
        }
    }

    /// The marker of the next item; `None` where the list has no such level.
    pub open spec fn item(self, store: Store, base_pt: Px) -> Option<MarkView> {
        match self.marker_level() {
            Some(l) => Some(self.counted().marker(l, store, base_pt)),
            None => None,
        }
    }

    /// The indentation of the innermost level.
    pub open spec fn header(self) -> Option<LevelIndent> {
        match self.level() {
            Some(l) => Some(l.indent),
            None => None,
        }
    }
}

impl Lists {
    fn with_defs(defs: Names<ListStyle>) -> (r: Lists)
        ensures
            r@ == Numbering::fresh(defs@),
    {
        let mut closed: Vec<Option<u32>> = Vec::new();
        for i in 0..LEVELS
            invariant
                closed@.len() == i,
                forall|k: int| 0 <= k < i ==> #[trigger] closed@[k] is None,
        {
            closed.push(None);
        }
        let r = Lists { defs, stack: Vec::new(), over: 0, by_id: Names::new(), closed };
        assert(r@ =~= Numbering::fresh(defs@));
        r
    }

    /// A document without list styles.
    pub fn empty() -> (r: Lists)
        ensures
            r@ == Numbering::fresh(Seq::empty()),
    {
        Lists::with_defs(Names::new())
    }

    /// The list styles of a stylesheet, if there is one, and of a body. A part that
    /// cannot be read adds none.
    pub fn parse(styles_xml: Option<&str>, content_xml: &str) -> (r: Lists)
        ensures
            r@ == Numbering::fresh(
                with_list_part(
                    with_list_part(
                        Seq::empty(),
                        match styles_xml {
                            Some(x) => document(x@),
                            None => None,
                        },
                    ),
                    document(content_xml@),
                ),
            ),
    {
        let sheet: Option<Element> = match styles_xml {
            Some(x) => xml::parse(x),
            None => None,
        };
        let content: Option<Element> = xml::parse(content_xml);
        Lists::of(&sheet, &content)
    }

    /// The list styles of two parsed parts.
    pub fn of(sheet: &Option<Element>, content: &Option<Element>) -> (r: Lists)
        ensures
            r@ == Numbering::fresh(
                with_list_part(with_list_part(Seq::empty(), opt_tree(*sheet)), opt_tree(*content)),
            ),
    {
        let mut defs: Names<ListStyle> = Names::new();
        if let Some(root) = sheet {
            load(&mut defs, root);
        }
        if let Some(root) = content {
            load(&mut defs, root);
        }
        Lists::with_defs(defs)
    }

    /// Whether the document defines a list style.
    pub fn has(&self, name: &str) -> (r: bool)
        ensures
            r == lookup(self@.defs, name@) is Some,
    {
        self.defs.has(name)
    }

    /// A level of a list style, counted from one.
    pub fn level_of(&self, name: &str, n: usize) -> (r: Option<&Level>)
        ensures
            r is Some == (lookup(self@.defs, name@) matches Some(v) && 1 <= n <= v.len() && v[n
                - 1] is Some),
            r matches Some(l) ==> Some(l@) == lookup(self@.defs, name@)->0[n - 1],
    {
        match self.defs.get(name) {
            Some(s) => if 1 <= n && n <= s.levels.len() {
                assert(s@[n - 1] == level_view(s.levels@[n - 1]));
                match &s.levels[n - 1] {
                    Some(l) => Some(l),
                    None => None,
                }
            } else {
                None
            },
            None => None,
        }
    }

    /// How many lists are open.
    pub fn depth(&self) -> (r: usize)
        ensures
            r == (if self@.depth() <= usize::MAX {
                self@.depth()
            } else {
                usize::MAX as nat
            }),
    {
        let n: usize = self.stack.len();
        if self.over <= usize::MAX - n {
            n + self.over
        } else {
            usize::MAX
        }
    }

    /// Enters a list. Each takes one `leave`.
    pub fn enter(&mut self, start: ListStart)
        ensures
            final(self)@ == old(self)@.entered(start@),
    {
        if self.stack.len() >= MAX_DEPTH {
            if self.over < usize::MAX {
                self.over = self.over + 1;
            }
            return;
        }
        let ghost before = self@;
        let depth: usize = self.stack.len();
        let mut style: Option<String> = None;
        let mut own: bool = false;
        if let Some(n) = start.style {
            if self.defs.has(n) {
                style = Some(String::from_str(n));
                own = true;
            }
        }
        if !own && depth > 0 {
            assert(before.stack.last() == self.stack@[depth - 1]@);
            style = copy_opt(&self.stack[depth - 1].style);
        }
        let id: Option<String> = match start.id {
            Some(v) => Some(cut_to(v, MAX_NAME)),
            None => None,
        };
        let named: Option<u32> = match start.continue_list {
            Some(n) => match self.by_id.get(n) {
                Some(c) => Some(*c),
                None => None,
            },
            None => None,
        };
        let counter: Option<u32> = match named {
            Some(n) => Some(n),
            None => if start.continue_numbering {
                let i: usize = if depth < LEVELS - 1 {
                    depth
                } else {
                    LEVELS - 1
                };
                if i < self.closed.len() {
                    self.closed[i]
                } else {
                    None
                }
            } else {
                None
            },
        };
        let f = Frame { style, id, counter, pending: None, counted: false };
        assert(f@ == before.new_frame(start@));
        self.stack.push(f);
        assert(self@ =~= before.entered(start@));
    }

    /// Leaves the innermost list. Where it got to is kept for a list that continues it; a
    /// list without items is not the one that the next list of its depth continues.
    pub fn leave(&mut self)
        ensures
            final(self)@ == old(self)@.left(),
    {
        let ghost before = self@;
        if self.over > 0 {
            self.over = self.over - 1;
            return;
        }
        let f: Frame = match self.stack.pop() {
            Some(f) => f,
            None => {
                assert(self@ =~= before);
                return;
            },
        };
        assert(f@ == before.stack.last());
        assert(frame_views(self.stack@) =~= before.stack.drop_last());
        let n: u32 = match f.counter {
            Some(n) => n,
            None => {
                assert(self@ =~= before.left());
                return;
            },
        };
        let depth: usize = self.stack.len();
        let i: usize = if depth < LEVELS - 1 {
            depth
        } else {
            LEVELS - 1
        };
        if f.counted && i < self.closed.len() {
            self.closed.set(i, Some(n));
        }
        if let Some(id) = f.id {
            if self.by_id.len() < MAX_CONTINUED {
                self.by_id.put(id, n);
            }
        }
        assert(self@ =~= before.left());
    }

    /// Sets the number of the next item.
    pub fn restart_at(&mut self, value: u32)
        ensures
            final(self)@ == old(self)@.restarted(value),
    {
        let ghost before = self@;
        let n: usize = self.stack.len();
        if n > 0 {
            let v: u32 = if value < 1 {
                1
            } else if value > MAX_COUNTER {
                MAX_COUNTER
            } else {
                value
            };
            assert(before.stack.last() == self.stack@[n - 1]@);
            let f = Frame {
                style: copy_opt(&self.stack[n - 1].style),
                id: copy_opt(&self.stack[n - 1].id),
                counter: self.stack[n - 1].counter,
                pending: Some(v),
                counted: self.stack[n - 1].counted,
            };
            self.stack.set(n - 1, f);
        }
        assert(self@ =~= before.restarted(value));
    }

    fn at(&self, d: usize) -> (r: Option<&Level>)
        ensures
            r is Some == self@.level_at(d as int) is Some,
            r matches Some(l) ==> l@ == self@.level_at(d as int)->0,
    {
        if d >= self.stack.len() {
            return None;
        }
        assert(self@.stack[d as int] == self.stack@[d as int]@);
        match &self.stack[d].style {
            Some(name) => match self.defs.get(name.as_str()) {
                Some(s) => {
                    let i: usize = if d < LEVELS - 1 {
                        d
                    } else {
                        LEVELS - 1
                    };
                    if i < s.levels.len() {
                        assert(s@[i as int] == level_view(s.levels@[i as int]));
                        match &s.levels[i] {
                            Some(l) => Some(l),
                            None => None,
                        }
                    } else {
                        None
                    }
                },
                None => None,
            },
            None => None,
        }
    }

    fn numeral_of(&self, d: usize) -> (r: Option<Vec<char>>)
        ensures
            r is Some == self@.numeral_at(d as int) is Some,
            r matches Some(n) ==> n@ == self@.numeral_at(d as int)->0,
    {
        match self.at(d) {
            Some(l) => {
                assert(self@.stack[d as int] == self.stack@[d as int]@);
                let n: u32 = match self.stack[d].counter {
                    Some(n) => n,
                    None => l.start,
                };
                Some(render_num(l.fmt, l.letter_sync, n))
            },
            None => None,
        }
    }

    fn numbered_label(&self, l: &Level, idx: usize) -> (r: Vec<char>)
        requires
            idx < usize::MAX,
        ensures
            r@ == self@.numbered(l@, idx as int),
    {
        let shown: usize = if l.display_levels < 1 {
            1
        } else if l.display_levels as usize > idx + 1 {
            idx + 1
        } else {
            l.display_levels as usize
        };
        let mut out: Vec<char> = Vec::new();
        push_text(&mut out, l.prefix.as_str());
        assert(out@ =~= l.prefix@);
        let from: usize = idx + 1 - shown;
        let ghost goal = l.prefix@ + self@.numerals(from as int, idx as int, true);
        let mut first: bool = true;
        let mut d: usize = from;
        while d <= idx
            invariant
                d <= idx + 1,
                idx < usize::MAX,
                out@ + self@.numerals(d as int, idx as int, first) == goal,
            decreases idx + 1 - d,
        {
            let ghost so_far = out@;
            if let Some(n) = self.numeral_of(d) {
                if n.len() > 0 {
                    if !first {
                        out.push('.');
                    }
                    push_all(&mut out, &n);
                    assert(out@ + self@.numerals(d + 1, idx as int, false) =~= so_far
                        + self@.numerals(d as int, idx as int, first));
                    first = false;
                }
            }
            d = d + 1;
        }
        assert(out@ + self@.numerals(d as int, idx as int, first) =~= out@);
        push_text(&mut out, l.suffix.as_str());
        out
    }

    fn label(&self, l: &Level, family: &Option<String>) -> (r: Vec<char>)
        requires
            self@.stack.len() > 0,
        ensures
            r@ == self@.label_text(l@, opt_view(*family)),
    {
        match &l.kind {
            LevelKind::Bullet(ch) => bullet_glyph(ch.as_str(), family),
            LevelKind::Image(_) => chars_of(FALLBACK_BULLET),
            LevelKind::Number => {
                let n: usize = self.stack.len();
                self.numbered_label(l, n - 1)
            },
        }
    }

    fn mark(&self, l: &Level, styles: &Styles, base_pt: Px) -> (r: Marker)
        requires
            self@.stack.len() > 0,
        ensures
            r@ == self@.marker(l@, styles@, base_pt),
    {
        let mut t: TextProps = match &l.text_style {
            Some(n) => styles.resolve(Family::Text, n.as_str()).text,
            None => TextProps::default(),
        };
        merge_text(&mut t, &l.props);
        assert(t@ == label_props(l@, styles@));
        let family: Option<String> = match &t.font_raw {
            Some(raw) => match styles.font_family(raw.as_str()) {
                Some(f) => Some(String::from_str(f)),
                None => Some(String::from_str(raw.as_str())),
            },
            None => None,
        };
        assert(opt_view(family) == label_family(t@, styles@));
        let text: Vec<char> = self.label(l, &family);
        let label: Option<ListMarker> = if text.len() == 0 {
            None
        } else {
            let font: Option<String> = match &family {
                Some(f) => Some(css_font_stack(f.as_str())),
                None => None,
            };
            Some(
                ListMarker {
                    label: cut_to(string_of(&text).as_str(), MAX_LABEL),
                    color: match t.color {
                        Some(c) => c.color(),
                        None => None,
                    },
                    font,
                    size_pt: match t.size {
                        Some(_) => Some(size_pt(&t, base_pt)),
                        None => None,
                    },
                },
            )
        };
        let image: Option<String> = match &l.kind {
            LevelKind::Image(href) => Some(String::from_str(href.as_str())),
            _ => None,
        };
        let bullet: bool = match &l.kind {
            LevelKind::Number => false,
            _ => true,
        };
        Marker { label, indent: l.indent, bullet, image }
    }

    /// Counts an item of the innermost list, and gives its marker. It is called once for
    /// each item that draws one, in document order. A list past `MAX_DEPTH` has no
    /// markers, and its items move no counter.
    pub fn item(&mut self, styles: &Styles, base_pt: Px) -> (r: Option<Marker>)
        ensures
            final(self)@ == old(self)@.counted(),
            r is Some == old(self)@.item(styles@, base_pt) is Some,
            r matches Some(m) ==> m@ == old(self)@.item(styles@, base_pt)->0,
    {
        let ghost before = self@;
        let depth: usize = self.stack.len();
        if depth == 0 || self.over > 0 {
            return None;
        }
        let start: u32 = match self.at(depth - 1) {
            Some(l) => l.start,
            None => {
                return None;
            },
        };
        assert(before.stack.last() == self.stack@[depth - 1]@);
        let number: u32 = match (self.stack[depth - 1].pending, self.stack[depth - 1].counter) {
            (Some(v), _) => v,
            (None, Some(n)) => if n < MAX_COUNTER {
                n + 1
            } else {
                MAX_COUNTER
            },
            (None, None) => start,
        };
        let f = Frame {
            style: copy_opt(&self.stack[depth - 1].style),
            id: copy_opt(&self.stack[depth - 1].id),
            counter: Some(number),
            pending: None,
            counted: true,
        };
        self.stack.set(depth - 1, f);
        assert(self@ =~= before.counted());
        assert(self@.level() == before.level());
        match self.at(depth - 1) {
            Some(l) => Some(self.mark(l, styles, base_pt)),
            None => None,
        }
    }

    /// The indentation of the innermost level. No number is taken.
    pub fn header(&self) -> (r: Option<LevelIndent>)
        ensures
            r == self@.header(),
    {
        let depth: usize = self.stack.len();
        if depth == 0 {
            return None;
        }
        match self.at(depth - 1) {
            Some(l) => Some(l.indent),
            None => None,
        }
    }

    /// Forgets the open lists and every counter.
    pub fn reset(&mut self)
        ensures
            final(self)@ == Numbering::fresh(old(self)@.defs),
    {
        let mut defs: Names<ListStyle> = Names::new();
        std::mem::swap(&mut defs, &mut self.defs);
        *self = Lists::with_defs(defs);
    }
}

fn load(defs: &mut Names<ListStyle>, root: &Element)
    ensures
        final(defs)@ == with_list_containers(old(defs)@, root@.elems()),
{
    let ghost start = defs@;
    let v: Vec<&Element> = root.elems();
    let ghost ts = trees(v@);
    assert(ts.take(0) =~= Seq::<Tree>::empty());
    for i in 0..v.len()
        invariant
            ts == trees(v@),
            defs@ == with_list_containers(start, ts.take(i as int)),
    {
        assert(ts.take(i + 1).drop_last() =~= ts.take(i as int));
        assert(ts.take(i + 1).last() == v@[i as int]@);
        let c: &Element = v[i];
        if c.is("styles") || c.is("automatic-styles") || c.is("master-styles") {
            load_container(defs, c);
        }
    }
    assert(ts.take(ts.len() as int) =~= ts);
}

fn load_container(defs: &mut Names<ListStyle>, container: &Element)
    ensures
        final(defs)@ == with_list_styles(old(defs)@, container@.inside()),
{
    let ghost start = defs@;
    let v: Vec<&Element> = container.inside();
    let ghost ts = trees(v@);
    assert(ts.take(0) =~= Seq::<Tree>::empty());
    for i in 0..v.len()
        invariant
            ts == trees(v@),
            defs@ == with_list_styles(start, ts.take(i as int)),
    {
        assert(ts.take(i + 1).drop_last() =~= ts.take(i as int));
        assert(ts.take(i + 1).last() == v@[i as int]@);
        let e: &Element = v[i];
        if e.is("list-style") && defs.len() < MAX_LIST_STYLES {
            if let Some(name) = name_of(e, "name", MAX_NAME) {
                let s: ListStyle = parse_list_style(e);
                defs.put(name, s);
            }
        }
    }
    assert(ts.take(ts.len() as int) =~= ts);
}

// ── laws ─────────────────────────────────────────────────────────────────────

/// Entering a list and leaving it again, without an item between, changes neither the open
/// lists nor what the next list of a depth continues; only a list that takes over another's
/// counter is remembered, under its own name. Every step of a walk keeps the lists in order.
pub proof fn law_enter_and_leave_pair(l: Numbering, start: StartView, value: u32)
    requires
        l.wf(),
        l.over < usize::MAX,
    ensures
        ({
            let back = l.entered(start).left();
            &&& back == (Numbering { by_id: back.by_id, ..l })
            &&& start.id is None || l.new_frame(start).counter is None || l.depth() >= MAX_DEPTH
                ==> back == l
        }),
        l.entered(start).depth() == l.depth() + 1,
        Numbering::fresh(l.defs).wf(),
        l.entered(start).wf(),
        l.left().wf(),
        l.restarted(value).wf(),
        l.counted().wf(),
{
    if l.stack.len() < MAX_DEPTH {
        assert(l.stack.push(l.new_frame(start)).drop_last() =~= l.stack);
    }
}

/// Where more than `MAX_DEPTH` lists are open, an item has no marker and moves no counter.
pub proof fn law_lists_past_the_depth_have_no_markers(l: Numbering, store: Store, base_pt: Px)
    requires
        l.wf(),
        l.depth() > MAX_DEPTH,
    ensures
        l.item(store, base_pt) is None,
        l.counted() == l,
{
}

/// A list that is left is remembered under its name, items of its own or not, and a list
/// that continues it by that name goes on where it ended.
pub proof fn law_a_named_list_goes_on(l: Numbering, next: StartView)
    requires
        l.wf(),
        l.over == 0,
        l.stack.len() > 0,
        l.stack.last().id is Some,
        l.stack.last().counter is Some,
        l.by_id.len() < MAX_CONTINUED,
        next.continue_list == l.stack.last().id,
    ensures
        l.left().entered(next).stack.last().counter == l.stack.last().counter,
{
    let id = l.stack.last().id->0;
    law_stored_is_found(l.by_id, id, l.stack.last().counter->0, id);
}

/// An item touches the innermost list and no other.
pub proof fn law_an_item_counts_in_its_own_list(l: Numbering, d: int)
    requires
        0 <= d < l.stack.len() - 1,
    ensures
        l.counted().stack.len() == l.stack.len(),
        l.counted().stack[d] == l.stack[d],
        l.counted().closed == l.closed,
        l.counted().by_id == l.by_id,
{
}

/// The first item of a list that continues none has the level's start value, and each
/// item after it has the number after the one before, up to `MAX_COUNTER`.
pub proof fn law_items_count_up(l: Numbering, start: StartView)
    requires
        l.wf(),
        l.stack.len() < MAX_DEPTH,
        !start.continue_numbering,
        start.continue_list is None,
        l.entered(start).level() is Some,
    ensures
        ({
            let one = l.entered(start).counted();
            let two = one.counted();
            let first = l.entered(start).level()->0.start;
            &&& one.stack.last().counter == Some(first)
            &&& two.stack.last().counter == Some(
                if first < MAX_COUNTER {
                    (first + 1) as u32
                } else {
                    MAX_COUNTER
                },
            )
        }),
{
    let at = l.entered(start);
    let one = at.counted();
    assert(one.level() == at.level());
}

/// A list that continues the last one of its depth goes on where that one ended. What is
/// entered and left without an item in between does not matter.
pub proof fn law_continued_list_goes_on(
    l: Numbering,
    start: StartView,
    bare: StartView,
    next: StartView,
)
    requires
        l.wf(),
        l.stack.len() < MAX_DEPTH,
        l.closed.len() == LEVELS,
        l.entered(start).level() is Some,
        next.continue_numbering,
        next.continue_list is None,
    ensures
        ({
            let a = l.entered(start).counted();
            let b = a.left();
            &&& b.entered(next).stack.last().counter == a.stack.last().counter
            &&& b.entered(bare).left().entered(next).stack.last().counter
                == a.stack.last().counter
        }),
{
    let a = l.entered(start).counted();
    assert(a.stack.drop_last().len() == l.stack.len());
    law_enter_and_leave_pair(a.left(), bare, 0);
}

} // verus!
