//! The style cascade: what one style states, and what several state together.
//!
//! Every property is an `Option`: what a style leaves unstated is inherited, and what it
//! states, be it the default, is not. Sizes and lengths are in CSS pixels, in the fixed
//! point of `length`.

use vstd::prelude::*;
use crate::cellstyle::{Rotation, VAlign};
use crate::color::{Color, OPAQUE};
use crate::html::{copy_opt, opt_view};
use crate::model::{
    as_px, Align, Border as ParaBorder, Borders, Caps, LineHeight, Para, ParaView, RunView, Script,
    TextRun, TextView, SINGLE_LINE,
};
use crate::odf::length::{clamped, Border, Measure, Pct, Px, PX};
use crate::paint::{Cap, Dash, Fill, Join, Line};

pub mod faces;
pub mod laws;
pub mod pages;
pub mod props;
pub mod store;

pub use props::{
    parse_cell_props, parse_column_props, parse_graphic_props, parse_para_props, parse_row_props,
    parse_table_props, parse_text_props,
};
pub use store::{PageSetup, Styles};

verus! {

/// The size of text where no style states one: 12pt.
pub const DEFAULT_SIZE_PT: Px = 6_096_000_000;

pub const MIN_SIZE_PT: Px = 508_000_000;

pub const MAX_SIZE_PT: Px = 1_016_000_000_000;

/// The largest relative font size, before it is resolved: 1000%.
pub const MAX_SIZE_PCT: Pct = 1_000_000_000;

/// The widest indent, margin or padding: 2112px.
pub const MAX_INDENT_PX: Px = 804_672_000_000;

pub const ONE_HUNDRED: Pct = 100_000_000;

// ── values ───────────────────────────────────────────────────────────────────

/// The style families that carry properties. The same name in two families names two
/// styles.
#[derive(Clone, Copy, PartialEq, Eq, Hash, Debug, Structural)]
pub enum Family {
    Text,
    Paragraph,
    Graphic,
    Presentation,
    DrawingPage,
    Table,
    TableColumn,
    TableRow,
    TableCell,
}

#[derive(Clone, Copy, PartialEq, Eq, Debug, Structural)]
pub enum FontSize {
    Pt(Px),
    /// A share of the size that the text sits in.
    Percent(Pct),
}

/// A colour that can be set back to the reader's own.
#[derive(Clone, Copy, PartialEq, Eq, Debug, Structural)]
pub enum ColorVal {
    Auto,
    Of(Color),
}

impl ColorVal {
    pub open spec fn value(self) -> Option<Color> {
        match self {
            ColorVal::Auto => None,
            ColorVal::Of(c) => Some(c),
        }
    }

    pub fn color(self) -> (r: Option<Color>)
        ensures
            r == self.value(),
    {
        match self {
            ColorVal::Auto => None,
            ColorVal::Of(c) => Some(c),
        }
    }
}

#[derive(Clone, Copy, PartialEq, Eq, Debug, Structural)]
pub enum Position {
    Baseline,
    Super,
    Sub,
}

#[derive(Clone, Copy, PartialEq, Eq, Debug, Structural)]
pub enum LineSpec {
    /// A share of a single line.
    Proportional(Pct),
    /// Exactly so tall.
    Fixed(Px),
    AtLeast(Px),
    /// So much more than a single line.
    Leading(Px),
}

/// One edge of a box. That there is none is a statement too.
#[derive(Clone, Copy, PartialEq, Eq, Debug, Structural)]
pub enum Edge {
    Nothing,
    Line(Border),
}

/// The four edges of a box, each stated on its own.
#[derive(Clone, Copy, PartialEq, Eq, Debug, Structural)]
pub struct Sides {
    pub top: Option<Edge>,
    pub right: Option<Edge>,
    pub bottom: Option<Edge>,
    pub left: Option<Edge>,
}

#[derive(Clone, Copy, PartialEq, Eq, Debug, Structural)]
pub struct Padding {
    pub top: Option<Px>,
    pub right: Option<Px>,
    pub bottom: Option<Px>,
    pub left: Option<Px>,
}

/// Where a table stands in the column.
#[derive(Clone, Copy, PartialEq, Eq, Debug, Structural)]
pub enum TableAlign {
    Left,
    Center,
    Right,
    /// From margin to margin.
    Margins,
}

/// A break before or after a block. `Auto` cancels one.
#[derive(Clone, Copy, PartialEq, Eq, Debug, Structural)]
pub enum BreakKind {
    Auto,
    Column,
    Page,
}

/// How text flows past a frame. `Left` and `Right` name the side that the text is on.
#[derive(Clone, Copy, PartialEq, Eq, Debug, Structural)]
pub enum WrapMode {
    /// No text beside the frame.
    Alone,
    Left,
    Right,
    Parallel,
    Dynamic,
    RunThrough,
}

#[derive(Clone, Copy, PartialEq, Eq, Debug, Structural)]
pub enum HPos {
    Left,
    Center,
    Right,
    FromLeft,
}

#[derive(Clone, Copy, PartialEq, Eq, Debug, Structural)]
pub enum FillKind {
    Empty,
    Solid,
    /// A gradient, a hatch or a picture, none of which is drawn.
    Unsupported,
}

#[derive(Clone, Copy, PartialEq, Eq, Debug, Structural)]
pub enum StrokeKind {
    Empty,
    Solid,
    Dash,
}

// ── property bags ────────────────────────────────────────────────────────────

/// The text properties that one element states.
#[verifier::ext_equal]
#[derive(Debug)]
pub struct TextProps<S = String> {
    pub size: Option<FontSize>,
    /// A CSS font stack.
    pub font: Option<S>,
    /// The family's own name.
    pub font_raw: Option<S>,
    pub bold: Option<bool>,
    pub italic: Option<bool>,
    pub underline: Option<bool>,
    pub strike: Option<bool>,
    pub caps: Option<bool>,
    pub small_caps: Option<bool>,
    pub color: Option<ColorVal>,
    /// The colour behind the text.
    pub highlight: Option<Color>,
    pub letter_spacing_pt: Option<Px>,
    pub position: Option<Position>,
    pub language: Option<S>,
}

pub type TextPropsView = TextProps<Seq<char>>;

impl View for TextProps<String> {
    type V = TextPropsView;

    open spec fn view(&self) -> TextPropsView {
        TextProps {
            size: self.size,
            font: opt_view(self.font),
            font_raw: opt_view(self.font_raw),
            bold: self.bold,
            italic: self.italic,
            underline: self.underline,
            strike: self.strike,
            caps: self.caps,
            small_caps: self.small_caps,
            color: self.color,
            highlight: self.highlight,
            letter_spacing_pt: self.letter_spacing_pt,
            position: self.position,
            language: opt_view(self.language),
        }
    }
}

/// No text property stated.
pub open spec fn no_text() -> TextPropsView {
    TextProps {
        size: None,
        font: None,
        font_raw: None,
        bold: None,
        italic: None,
        underline: None,
        strike: None,
        caps: None,
        small_caps: None,
        color: None,
        highlight: None,
        letter_spacing_pt: None,
        position: None,
        language: None,
    }
}

impl Default for TextProps<String> {
    fn default() -> (r: TextProps<String>)
        ensures
            r@ == no_text(),
    {
        TextProps {
            size: None,
            font: None,
            font_raw: None,
            bold: None,
            italic: None,
            underline: None,
            strike: None,
            caps: None,
            small_caps: None,
            color: None,
            highlight: None,
            letter_spacing_pt: None,
            position: None,
            language: None,
        }
    }
}

impl TextProps<String> {
    pub fn copy(&self) -> (r: TextProps<String>)
        ensures
            r@ == self@,
    {
        TextProps {
            size: self.size,
            font: copy_opt(&self.font),
            font_raw: copy_opt(&self.font_raw),
            bold: self.bold,
            italic: self.italic,
            underline: self.underline,
            strike: self.strike,
            caps: self.caps,
            small_caps: self.small_caps,
            color: self.color,
            highlight: self.highlight,
            letter_spacing_pt: self.letter_spacing_pt,
            position: self.position,
            language: copy_opt(&self.language),
        }
    }
}

/// The paragraph properties that one element states.
#[verifier::ext_equal]
#[derive(Debug)]
pub struct ParaProps<T = Vec<Px>> {
    pub align: Option<Align>,
    pub space_before_px: Option<Px>,
    pub space_after_px: Option<Px>,
    pub indent_px: Option<Px>,
    pub indent_end_px: Option<Px>,
    /// Negative hangs the first line to the left of the rest.
    pub first_line_px: Option<Px>,
    pub auto_text_indent: Option<bool>,
    pub line: Option<LineSpec>,
    pub background: Option<Color>,
    pub borders: Sides,
    pub contextual_spacing: Option<bool>,
    pub rtl: Option<bool>,
    pub keep_with_next: Option<bool>,
    pub break_before: Option<BreakKind>,
    pub break_after: Option<BreakKind>,
    pub tab_stop_distance_px: Option<Px>,
    /// One statement: a list of stops replaces the inherited one.
    pub tab_stops: T,
}

pub type ParaPropsView = ParaProps<Seq<Px>>;

impl View for ParaProps<Vec<Px>> {
    type V = ParaPropsView;

    open spec fn view(&self) -> ParaPropsView {
        ParaProps {
            align: self.align,
            space_before_px: self.space_before_px,
            space_after_px: self.space_after_px,
            indent_px: self.indent_px,
            indent_end_px: self.indent_end_px,
            first_line_px: self.first_line_px,
            auto_text_indent: self.auto_text_indent,
            line: self.line,
            background: self.background,
            borders: self.borders,
            contextual_spacing: self.contextual_spacing,
            rtl: self.rtl,
            keep_with_next: self.keep_with_next,
            break_before: self.break_before,
            break_after: self.break_after,
            tab_stop_distance_px: self.tab_stop_distance_px,
            tab_stops: self.tab_stops@,
        }
    }
}

pub open spec fn no_para() -> ParaPropsView {
    ParaProps {
        align: None,
        space_before_px: None,
        space_after_px: None,
        indent_px: None,
        indent_end_px: None,
        first_line_px: None,
        auto_text_indent: None,
        line: None,
        background: None,
        borders: no_sides(),
        contextual_spacing: None,
        rtl: None,
        keep_with_next: None,
        break_before: None,
        break_after: None,
        tab_stop_distance_px: None,
        tab_stops: Seq::empty(),
    }
}

impl Default for ParaProps<Vec<Px>> {
    fn default() -> (r: ParaProps<Vec<Px>>)
        ensures
            r@ == no_para(),
    {
        let r = ParaProps {
            align: None,
            space_before_px: None,
            space_after_px: None,
            indent_px: None,
            indent_end_px: None,
            first_line_px: None,
            auto_text_indent: None,
            line: None,
            background: None,
            borders: Sides::default(),
            contextual_spacing: None,
            rtl: None,
            keep_with_next: None,
            break_before: None,
            break_after: None,
            tab_stop_distance_px: None,
            tab_stops: Vec::new(),
        };
        assert(r@ =~= no_para());
        r
    }
}

/// A copy of a list of lengths.
pub fn copy_stops(v: &Vec<Px>) -> (r: Vec<Px>)
    ensures
        r@ == v@,
{
    let mut r: Vec<Px> = Vec::new();
    for i in 0..v.len()
        invariant
            r@ == v@.take(i as int),
    {
        r.push(v[i]);
        assert(v@.take(i + 1) =~= v@.take(i as int).push(v@[i as int]));
    }
    assert(v@.take(v@.len() as int) =~= v@);
    r
}

impl ParaProps<Vec<Px>> {
    pub fn copy(&self) -> (r: ParaProps<Vec<Px>>)
        ensures
            r@ == self@,
    {
        ParaProps {
            align: self.align,
            space_before_px: self.space_before_px,
            space_after_px: self.space_after_px,
            indent_px: self.indent_px,
            indent_end_px: self.indent_end_px,
            first_line_px: self.first_line_px,
            auto_text_indent: self.auto_text_indent,
            line: self.line,
            background: self.background,
            borders: self.borders,
            contextual_spacing: self.contextual_spacing,
            rtl: self.rtl,
            keep_with_next: self.keep_with_next,
            break_before: self.break_before,
            break_after: self.break_after,
            tab_stop_distance_px: self.tab_stop_distance_px,
            tab_stops: copy_stops(&self.tab_stops),
        }
    }
}

/// The properties of a table cell.
#[derive(Clone, Copy, PartialEq, Eq, Debug, Structural)]
pub struct CellProps {
    pub padding: Padding,
    pub borders: Sides,
    pub background: Option<Color>,
    pub v_align: Option<VAlign>,
    pub wrap: Option<bool>,
    pub shrink_to_fit: Option<bool>,
    pub rotation: Option<Rotation>,
}

#[derive(Clone, Copy, PartialEq, Eq, Debug, Structural)]
pub struct ColumnProps {
    pub width_px: Option<Px>,
    pub optimal: Option<bool>,
}

#[derive(Clone, Copy, PartialEq, Eq, Debug, Structural)]
pub struct RowProps {
    pub height_px: Option<Px>,
    pub optimal: Option<bool>,
}

#[derive(Clone, Copy, PartialEq, Eq, Debug, Structural)]
pub struct TableProps {
    pub width: Option<Measure>,
    /// A table that is not displayed renders nothing.
    pub display: Option<bool>,
    pub align: Option<TableAlign>,
    pub indent_px: Option<Px>,
    pub break_before: Option<BreakKind>,
    pub break_after: Option<BreakKind>,
}

/// The fill of a shape or a page. The three are stated apart, so that a colour alone
/// does not turn a fill on that is off.
#[derive(Clone, Copy, PartialEq, Eq, Debug, Structural)]
pub struct FillProps {
    pub kind: Option<FillKind>,
    pub color: Option<Color>,
    /// From 0 to `ONE_HUNDRED`.
    pub opacity: Option<Pct>,
}

#[derive(Clone, Copy, PartialEq, Eq, Debug, Structural)]
pub struct StrokeProps {
    pub kind: Option<StrokeKind>,
    pub color: Option<Color>,
    pub width_px: Option<Px>,
    pub cap: Option<Cap>,
}

/// The properties of a frame or a shape.
#[derive(Clone, Copy, PartialEq, Eq, Debug, Structural)]
pub struct GraphicProps {
    pub fill: FillProps,
    pub stroke: StrokeProps,
    pub text_v_align: Option<VAlign>,
    pub text_h_align: Option<Align>,
    pub auto_grow_height: Option<bool>,
    pub auto_grow_width: Option<bool>,
    pub padding: Padding,
    pub min_height_px: Option<Px>,
    pub min_width_px: Option<Px>,
    pub wrap: Option<bool>,
    pub wrap_mode: Option<WrapMode>,
    pub h_pos: Option<HPos>,
}

/// The background of a slide.
#[derive(Clone, Copy, PartialEq, Eq, Debug, Structural)]
pub struct DrawPageProps {
    pub fill: FillProps,
}

pub open spec fn no_sides() -> Sides {
    Sides { top: None, right: None, bottom: None, left: None }
}

pub open spec fn no_padding() -> Padding {
    Padding { top: None, right: None, bottom: None, left: None }
}

pub open spec fn no_cell() -> CellProps {
    CellProps {
        padding: no_padding(),
        borders: no_sides(),
        background: None,
        v_align: None,
        wrap: None,
        shrink_to_fit: None,
        rotation: None,
    }
}

pub open spec fn no_column() -> ColumnProps {
    ColumnProps { width_px: None, optimal: None }
}

pub open spec fn no_row() -> RowProps {
    RowProps { height_px: None, optimal: None }
}

pub open spec fn no_table() -> TableProps {
    TableProps {
        width: None,
        display: None,
        align: None,
        indent_px: None,
        break_before: None,
        break_after: None,
    }
}

pub open spec fn no_fill() -> FillProps {
    FillProps { kind: None, color: None, opacity: None }
}

pub open spec fn no_stroke() -> StrokeProps {
    StrokeProps { kind: None, color: None, width_px: None, cap: None }
}

pub open spec fn no_graphic() -> GraphicProps {
    GraphicProps {
        fill: no_fill(),
        stroke: no_stroke(),
        text_v_align: None,
        text_h_align: None,
        auto_grow_height: None,
        auto_grow_width: None,
        padding: no_padding(),
        min_height_px: None,
        min_width_px: None,
        wrap: None,
        wrap_mode: None,
        h_pos: None,
    }
}

impl Default for Sides {
    fn default() -> (r: Sides)
        ensures
            r == no_sides(),
    {
        Sides { top: None, right: None, bottom: None, left: None }
    }
}

impl Default for Padding {
    fn default() -> (r: Padding)
        ensures
            r == no_padding(),
    {
        Padding { top: None, right: None, bottom: None, left: None }
    }
}

impl Default for CellProps {
    fn default() -> (r: CellProps)
        ensures
            r == no_cell(),
    {
        CellProps {
            padding: Padding::default(),
            borders: Sides::default(),
            background: None,
            v_align: None,
            wrap: None,
            shrink_to_fit: None,
            rotation: None,
        }
    }
}

impl Default for ColumnProps {
    fn default() -> (r: ColumnProps)
        ensures
            r == no_column(),
    {
        ColumnProps { width_px: None, optimal: None }
    }
}

impl Default for RowProps {
    fn default() -> (r: RowProps)
        ensures
            r == no_row(),
    {
        RowProps { height_px: None, optimal: None }
    }
}

impl Default for TableProps {
    fn default() -> (r: TableProps)
        ensures
            r == no_table(),
    {
        TableProps {
            width: None,
            display: None,
            align: None,
            indent_px: None,
            break_before: None,
            break_after: None,
        }
    }
}

impl Default for FillProps {
    fn default() -> (r: FillProps)
        ensures
            r == no_fill(),
    {
        FillProps { kind: None, color: None, opacity: None }
    }
}

impl Default for StrokeProps {
    fn default() -> (r: StrokeProps)
        ensures
            r == no_stroke(),
    {
        StrokeProps { kind: None, color: None, width_px: None, cap: None }
    }
}

impl Default for GraphicProps {
    fn default() -> (r: GraphicProps)
        ensures
            r == no_graphic(),
    {
        GraphicProps {
            fill: FillProps::default(),
            stroke: StrokeProps::default(),
            text_v_align: None,
            text_h_align: None,
            auto_grow_height: None,
            auto_grow_width: None,
            padding: Padding::default(),
            min_height_px: None,
            min_width_px: None,
            wrap: None,
            wrap_mode: None,
            h_pos: None,
        }
    }
}

/// Everything that a style states, or a chain of styles together.
#[verifier::ext_equal]
#[derive(Debug)]
pub struct Resolved<S = String, T = Vec<Px>> {
    pub text: TextProps<S>,
    pub para: ParaProps<T>,
    pub cell: CellProps,
    pub column: ColumnProps,
    pub row: RowProps,
    pub table: TableProps,
    pub graphic: GraphicProps,
    pub page: DrawPageProps,
}

pub type ResolvedView = Resolved<Seq<char>, Seq<Px>>;

impl View for Resolved<String, Vec<Px>> {
    type V = ResolvedView;

    open spec fn view(&self) -> ResolvedView {
        Resolved {
            text: self.text@,
            para: self.para@,
            cell: self.cell,
            column: self.column,
            row: self.row,
            table: self.table,
            graphic: self.graphic,
            page: self.page,
        }
    }
}

pub open spec fn unstated() -> ResolvedView {
    Resolved {
        text: no_text(),
        para: no_para(),
        cell: no_cell(),
        column: no_column(),
        row: no_row(),
        table: no_table(),
        graphic: no_graphic(),
        page: DrawPageProps { fill: no_fill() },
    }
}

impl Default for Resolved<String, Vec<Px>> {
    fn default() -> (r: Resolved<String, Vec<Px>>)
        ensures
            r@ == unstated(),
    {
        Resolved {
            text: TextProps::default(),
            para: ParaProps::default(),
            cell: CellProps::default(),
            column: ColumnProps::default(),
            row: RowProps::default(),
            table: TableProps::default(),
            graphic: GraphicProps::default(),
            page: DrawPageProps { fill: FillProps::default() },
        }
    }
}

impl Resolved<String, Vec<Px>> {
    pub fn copy(&self) -> (r: Resolved<String, Vec<Px>>)
        ensures
            r@ == self@,
    {
        Resolved {
            text: self.text.copy(),
            para: self.para.copy(),
            cell: self.cell,
            column: self.column,
            row: self.row,
            table: self.table,
            graphic: self.graphic,
            page: self.page,
        }
    }
}

// ── merges ───────────────────────────────────────────────────────────────────

/// The later of two statements.
pub open spec fn later<T>(a: Option<T>, b: Option<T>) -> Option<T> {
    if b is Some {
        b
    } else {
        a
    }
}

fn last_of<T: Copy>(a: Option<T>, b: Option<T>) -> (r: Option<T>)
    ensures
        r == later(a, b),
{
    if b.is_some() {
        b
    } else {
        a
    }
}

fn last_text(a: &Option<String>, b: &Option<String>) -> (r: Option<String>)
    ensures
        opt_view(r) == later(opt_view(*a), opt_view(*b)),
{
    if b.is_some() {
        copy_opt(b)
    } else {
        copy_opt(a)
    }
}

pub open spec fn merged_sides(a: Sides, b: Sides) -> Sides {
    Sides {
        top: later(a.top, b.top),
        right: later(a.right, b.right),
        bottom: later(a.bottom, b.bottom),
        left: later(a.left, b.left),
    }
}

impl Sides {
    pub fn merge(&mut self, src: &Sides)
        ensures
            *final(self) == merged_sides(*old(self), *src),
    {
        self.top = last_of(self.top, src.top);
        self.right = last_of(self.right, src.right);
        self.bottom = last_of(self.bottom, src.bottom);
        self.left = last_of(self.left, src.left);
    }
}

pub open spec fn merged_padding(a: Padding, b: Padding) -> Padding {
    Padding {
        top: later(a.top, b.top),
        right: later(a.right, b.right),
        bottom: later(a.bottom, b.bottom),
        left: later(a.left, b.left),
    }
}

impl Padding {
    pub fn merge(&mut self, src: &Padding)
        ensures
            *final(self) == merged_padding(*old(self), *src),
    {
        self.top = last_of(self.top, src.top);
        self.right = last_of(self.right, src.right);
        self.bottom = last_of(self.bottom, src.bottom);
        self.left = last_of(self.left, src.left);
    }
}

pub open spec fn merged_fill(a: FillProps, b: FillProps) -> FillProps {
    FillProps {
        kind: later(a.kind, b.kind),
        color: later(a.color, b.color),
        opacity: later(a.opacity, b.opacity),
    }
}

/// A share of a number, rounded down.
pub open spec fn share(v: int, p: int) -> int {
    v * p / ONE_HUNDRED as int
}

fn share_of(v: i64, p: i64) -> (r: i128)
    ensures
        r == share(v as int, p as int),
        -0x4000_0000_0000_0000_0000_0000_0000_0000 <= r <= 0x4000_0000_0000_0000_0000_0000_0000_0000,
{
    assert(-0x4000_0000_0000_0000_0000_0000_0000_0000 <= v * p
        <= 0x4000_0000_0000_0000_0000_0000_0000_0000) by (nonlinear_arith)
        requires
            -0x8000_0000_0000_0000 <= v <= 0x7fff_ffff_ffff_ffff,
            -0x8000_0000_0000_0000 <= p <= 0x7fff_ffff_ffff_ffff,
    ;
    let a: i128 = v as i128 * p as i128;
    let d: i128 = 100_000_000;
    if a >= 0 {
        a / d
    } else {
        -((-a + (d - 1)) / d)
    }
}

/// A colour under an opacity.
pub open spec fn faded(c: Color, opacity: Option<Pct>) -> Color {
    match opacity {
        Some(a) => Color {
            rgb: c.rgb,
            alpha: clamped(share(c.alpha as int, a as int), 0, OPAQUE as int) as u32,
        },
        None => c,
    }
}

impl FillProps {
    pub fn merge(&mut self, src: &FillProps)
        ensures
            *final(self) == merged_fill(*old(self), *src),
    {
        self.kind = last_of(self.kind, src.kind);
        self.color = last_of(self.color, src.color);
        self.opacity = last_of(self.opacity, src.opacity);
    }

    pub open spec fn value(self) -> Option<Fill> {
        match self.kind {
            Some(FillKind::Empty) => Some(Fill::Empty),
            Some(FillKind::Unsupported) => None,
            _ => match self.color {
                Some(c) => Some(Fill::Solid(faded(c, self.opacity))),
                None => None,
            },
        }
    }

    /// The fill, or `None` where nothing usable is stated. A colour without a kind
    /// recolours a fill that is solid already.
    pub fn fill(&self) -> (r: Option<Fill>)
        ensures
            r == self.value(),
    {
        match self.kind {
            Some(FillKind::Empty) => Some(Fill::Empty),
            Some(FillKind::Unsupported) => None,
            _ => match self.color {
                Some(c) => {
                    let f: Color = match self.opacity {
                        Some(a) => {
                            let v: i128 = share_of(c.alpha as i64, a);
                            let alpha: u32 = if v < 0 {
                                0
                            } else if v > OPAQUE as i128 {
                                OPAQUE
                            } else {
                                v as u32
                            };
                            Color { rgb: c.rgb, alpha }
                        },
                        None => c,
                    };
                    Some(Fill::Solid(f))
                },
                None => None,
            },
        }
    }
}

pub open spec fn merged_stroke(a: StrokeProps, b: StrokeProps) -> StrokeProps {
    StrokeProps {
        kind: later(a.kind, b.kind),
        color: later(a.color, b.color),
        width_px: later(a.width_px, b.width_px),
        cap: later(a.cap, b.cap),
    }
}

impl StrokeProps {
    pub fn merge(&mut self, src: &StrokeProps)
        ensures
            *final(self) == merged_stroke(*old(self), *src),
    {
        self.kind = last_of(self.kind, src.kind);
        self.color = last_of(self.color, src.color);
        self.width_px = last_of(self.width_px, src.width_px);
        self.cap = last_of(self.cap, src.cap);
    }

    pub open spec fn value(self) -> Option<Line> {
        match self.kind {
            None => None,
            Some(kind) => Some(
                Line {
                    width_px: match self.width_px {
                        Some(w) => w,
                        None => PX,
                    },
                    fill: if kind == StrokeKind::Empty {
                        Fill::Empty
                    } else {
                        Fill::Solid(
                            match self.color {
                                Some(c) => c,
                                None => Color { rgb: 0, alpha: OPAQUE },
                            },
                        )
                    },
                    dash: if kind == StrokeKind::Dash {
                        Dash::Dashed
                    } else {
                        Dash::Solid
                    },
                    cap: match self.cap {
                        Some(c) => c,
                        None => Cap::Flat,
                    },
                    join: Join::Miter,
                },
            ),
        }
    }

    /// The outline. One that is stated to be none is an outline without paint, which
    /// can take the place of another; `None` means that nothing is stated.
    pub fn line(&self) -> (r: Option<Line>)
        ensures
            r == self.value(),
    {
        match self.kind {
            None => None,
            Some(kind) => Some(
                Line {
                    width_px: match self.width_px {
                        Some(w) => w,
                        None => PX,
                    },
                    fill: if kind == StrokeKind::Empty {
                        Fill::Empty
                    } else {
                        Fill::Solid(
                            match self.color {
                                Some(c) => c,
                                None => Color::from_rgb(0),
                            },
                        )
                    },
                    dash: if kind == StrokeKind::Dash {
                        Dash::Dashed
                    } else {
                        Dash::Solid
                    },
                    cap: match self.cap {
                        Some(c) => c,
                        None => Cap::Flat,
                    },
                    join: Join::Miter,
                },
            ),
        }
    }
}

pub open spec fn clamped_pt(v: int) -> Px {
    clamped(v, MIN_SIZE_PT as int, MAX_SIZE_PT as int) as i64
}

fn clamp_pt(v: i128) -> (r: Px)
    ensures
        r == clamped_pt(v as int),
{
    if v < MIN_SIZE_PT as i128 {
        MIN_SIZE_PT
    } else if v > MAX_SIZE_PT as i128 {
        MAX_SIZE_PT
    } else {
        v as i64
    }
}

/// A font size over another: a share of a size is a size, a share of a share is a share,
/// and a size replaces either.
pub open spec fn merged_size(a: Option<FontSize>, b: Option<FontSize>) -> Option<FontSize> {
    match (b, a) {
        (Some(FontSize::Percent(p)), Some(FontSize::Pt(base))) => Some(
            FontSize::Pt(clamped_pt(share(base as int, p as int))),
        ),
        (Some(FontSize::Percent(p)), Some(FontSize::Percent(q))) => Some(
            FontSize::Percent(clamped(share(p as int, q as int), 0, MAX_SIZE_PCT as int) as i64),
        ),
        (Some(_), _) => b,
        (None, _) => a,
    }
}

fn merge_size(a: Option<FontSize>, b: Option<FontSize>) -> (r: Option<FontSize>)
    ensures
        r == merged_size(a, b),
{
    match (b, a) {
        (Some(FontSize::Percent(p)), Some(FontSize::Pt(base))) => Some(
            FontSize::Pt(clamp_pt(share_of(base, p))),
        ),
        (Some(FontSize::Percent(p)), Some(FontSize::Percent(q))) => {
            let v: i128 = share_of(p, q);
            let c: i64 = if v < 0 {
                0
            } else if v > MAX_SIZE_PCT as i128 {
                MAX_SIZE_PCT
            } else {
                v as i64
            };
            Some(FontSize::Percent(c))
        },
        (Some(_), _) => b,
        (None, _) => a,
    }
}

pub open spec fn merged_text(a: TextPropsView, b: TextPropsView) -> TextPropsView {
    TextProps {
        size: merged_size(a.size, b.size),
        font: later(a.font, b.font),
        font_raw: if b.font is Some {
            b.font_raw
        } else {
            a.font_raw
        },
        bold: later(a.bold, b.bold),
        italic: later(a.italic, b.italic),
        underline: later(a.underline, b.underline),
        strike: later(a.strike, b.strike),
        caps: later(a.caps, b.caps),
        small_caps: later(a.small_caps, b.small_caps),
        color: later(a.color, b.color),
        highlight: later(a.highlight, b.highlight),
        letter_spacing_pt: later(a.letter_spacing_pt, b.letter_spacing_pt),
        position: later(a.position, b.position),
        language: later(a.language, b.language),
    }
}

/// Lays text properties over others. The font's stack and its name go together.
pub fn merge_text(dst: &mut TextProps, src: &TextProps)
    ensures
        final(dst)@ == merged_text(old(dst)@, src@),
{
    let font_raw: Option<String> = if src.font.is_some() {
        copy_opt(&src.font_raw)
    } else {
        copy_opt(&dst.font_raw)
    };
    let font: Option<String> = last_text(&dst.font, &src.font);
    let language: Option<String> = last_text(&dst.language, &src.language);
    *dst = TextProps {
        size: merge_size(dst.size, src.size),
        font,
        font_raw,
        bold: last_of(dst.bold, src.bold),
        italic: last_of(dst.italic, src.italic),
        underline: last_of(dst.underline, src.underline),
        strike: last_of(dst.strike, src.strike),
        caps: last_of(dst.caps, src.caps),
        small_caps: last_of(dst.small_caps, src.small_caps),
        color: last_of(dst.color, src.color),
        highlight: last_of(dst.highlight, src.highlight),
        letter_spacing_pt: last_of(dst.letter_spacing_pt, src.letter_spacing_pt),
        position: last_of(dst.position, src.position),
        language,
    };
}

pub open spec fn merged_para(a: ParaPropsView, b: ParaPropsView) -> ParaPropsView {
    ParaProps {
        align: later(a.align, b.align),
        space_before_px: later(a.space_before_px, b.space_before_px),
        space_after_px: later(a.space_after_px, b.space_after_px),
        indent_px: later(a.indent_px, b.indent_px),
        indent_end_px: later(a.indent_end_px, b.indent_end_px),
        first_line_px: later(a.first_line_px, b.first_line_px),
        auto_text_indent: later(a.auto_text_indent, b.auto_text_indent),
        line: later(a.line, b.line),
        background: later(a.background, b.background),
        borders: merged_sides(a.borders, b.borders),
        contextual_spacing: later(a.contextual_spacing, b.contextual_spacing),
        rtl: later(a.rtl, b.rtl),
        keep_with_next: later(a.keep_with_next, b.keep_with_next),
        break_before: later(a.break_before, b.break_before),
        break_after: later(a.break_after, b.break_after),
        tab_stop_distance_px: later(a.tab_stop_distance_px, b.tab_stop_distance_px),
        tab_stops: if b.tab_stops.len() > 0 {
            b.tab_stops
        } else {
            a.tab_stops
        },
    }
}

/// Lays paragraph properties over others.
pub fn merge_para(dst: &mut ParaProps, src: &ParaProps)
    ensures
        final(dst)@ == merged_para(old(dst)@, src@),
{
    let tab_stops: Vec<Px> = if src.tab_stops.len() > 0 {
        copy_stops(&src.tab_stops)
    } else {
        copy_stops(&dst.tab_stops)
    };
    let mut borders: Sides = dst.borders;
    borders.merge(&src.borders);
    *dst = ParaProps {
        align: last_of(dst.align, src.align),
        space_before_px: last_of(dst.space_before_px, src.space_before_px),
        space_after_px: last_of(dst.space_after_px, src.space_after_px),
        indent_px: last_of(dst.indent_px, src.indent_px),
        indent_end_px: last_of(dst.indent_end_px, src.indent_end_px),
        first_line_px: last_of(dst.first_line_px, src.first_line_px),
        auto_text_indent: last_of(dst.auto_text_indent, src.auto_text_indent),
        line: last_of(dst.line, src.line),
        background: last_of(dst.background, src.background),
        borders,
        contextual_spacing: last_of(dst.contextual_spacing, src.contextual_spacing),
        rtl: last_of(dst.rtl, src.rtl),
        keep_with_next: last_of(dst.keep_with_next, src.keep_with_next),
        break_before: last_of(dst.break_before, src.break_before),
        break_after: last_of(dst.break_after, src.break_after),
        tab_stop_distance_px: last_of(dst.tab_stop_distance_px, src.tab_stop_distance_px),
        tab_stops,
    };
}

pub open spec fn merged_cell(a: CellProps, b: CellProps) -> CellProps {
    CellProps {
        padding: merged_padding(a.padding, b.padding),
        borders: merged_sides(a.borders, b.borders),
        background: later(a.background, b.background),
        v_align: later(a.v_align, b.v_align),
        wrap: later(a.wrap, b.wrap),
        shrink_to_fit: later(a.shrink_to_fit, b.shrink_to_fit),
        rotation: later(a.rotation, b.rotation),
    }
}

pub fn merge_cell(dst: &mut CellProps, src: &CellProps)
    ensures
        *final(dst) == merged_cell(*old(dst), *src),
{
    dst.padding.merge(&src.padding);
    dst.borders.merge(&src.borders);
    dst.background = last_of(dst.background, src.background);
    dst.v_align = last_of(dst.v_align, src.v_align);
    dst.wrap = last_of(dst.wrap, src.wrap);
    dst.shrink_to_fit = last_of(dst.shrink_to_fit, src.shrink_to_fit);
    dst.rotation = last_of(dst.rotation, src.rotation);
}

pub open spec fn merged_column(a: ColumnProps, b: ColumnProps) -> ColumnProps {
    ColumnProps { width_px: later(a.width_px, b.width_px), optimal: later(a.optimal, b.optimal) }
}

pub fn merge_column(dst: &mut ColumnProps, src: &ColumnProps)
    ensures
        *final(dst) == merged_column(*old(dst), *src),
{
    dst.width_px = last_of(dst.width_px, src.width_px);
    dst.optimal = last_of(dst.optimal, src.optimal);
}

pub open spec fn merged_row(a: RowProps, b: RowProps) -> RowProps {
    RowProps { height_px: later(a.height_px, b.height_px), optimal: later(a.optimal, b.optimal) }
}

pub fn merge_row(dst: &mut RowProps, src: &RowProps)
    ensures
        *final(dst) == merged_row(*old(dst), *src),
{
    dst.height_px = last_of(dst.height_px, src.height_px);
    dst.optimal = last_of(dst.optimal, src.optimal);
}

pub open spec fn merged_table(a: TableProps, b: TableProps) -> TableProps {
    TableProps {
        width: later(a.width, b.width),
        display: later(a.display, b.display),
        align: later(a.align, b.align),
        indent_px: later(a.indent_px, b.indent_px),
        break_before: later(a.break_before, b.break_before),
        break_after: later(a.break_after, b.break_after),
    }
}

pub fn merge_table(dst: &mut TableProps, src: &TableProps)
    ensures
        *final(dst) == merged_table(*old(dst), *src),
{
    dst.width = last_of(dst.width, src.width);
    dst.display = last_of(dst.display, src.display);
    dst.align = last_of(dst.align, src.align);
    dst.indent_px = last_of(dst.indent_px, src.indent_px);
    dst.break_before = last_of(dst.break_before, src.break_before);
    dst.break_after = last_of(dst.break_after, src.break_after);
}

pub open spec fn merged_graphic(a: GraphicProps, b: GraphicProps) -> GraphicProps {
    GraphicProps {
        fill: merged_fill(a.fill, b.fill),
        stroke: merged_stroke(a.stroke, b.stroke),
        text_v_align: later(a.text_v_align, b.text_v_align),
        text_h_align: later(a.text_h_align, b.text_h_align),
        auto_grow_height: later(a.auto_grow_height, b.auto_grow_height),
        auto_grow_width: later(a.auto_grow_width, b.auto_grow_width),
        padding: merged_padding(a.padding, b.padding),
        min_height_px: later(a.min_height_px, b.min_height_px),
        min_width_px: later(a.min_width_px, b.min_width_px),
        wrap: later(a.wrap, b.wrap),
        wrap_mode: later(a.wrap_mode, b.wrap_mode),
        h_pos: later(a.h_pos, b.h_pos),
    }
}

pub fn merge_graphic(dst: &mut GraphicProps, src: &GraphicProps)
    ensures
        *final(dst) == merged_graphic(*old(dst), *src),
{
    dst.fill.merge(&src.fill);
    dst.stroke.merge(&src.stroke);
    dst.text_v_align = last_of(dst.text_v_align, src.text_v_align);
    dst.text_h_align = last_of(dst.text_h_align, src.text_h_align);
    dst.auto_grow_height = last_of(dst.auto_grow_height, src.auto_grow_height);
    dst.auto_grow_width = last_of(dst.auto_grow_width, src.auto_grow_width);
    dst.padding.merge(&src.padding);
    dst.min_height_px = last_of(dst.min_height_px, src.min_height_px);
    dst.min_width_px = last_of(dst.min_width_px, src.min_width_px);
    dst.wrap = last_of(dst.wrap, src.wrap);
    dst.wrap_mode = last_of(dst.wrap_mode, src.wrap_mode);
    dst.h_pos = last_of(dst.h_pos, src.h_pos);
}

/// What two styles state together, the second over the first.
pub open spec fn merged(a: ResolvedView, b: ResolvedView) -> ResolvedView {
    Resolved {
        text: merged_text(a.text, b.text),
        para: merged_para(a.para, b.para),
        cell: merged_cell(a.cell, b.cell),
        column: merged_column(a.column, b.column),
        row: merged_row(a.row, b.row),
        table: merged_table(a.table, b.table),
        graphic: merged_graphic(a.graphic, b.graphic),
        page: DrawPageProps { fill: merged_fill(a.page.fill, b.page.fill) },
    }
}

/// Lays one style over another: what it states wins, what it does not is untouched.
pub fn merge(dst: &mut Resolved, src: &Resolved)
    ensures
        final(dst)@ == merged(old(dst)@, src@),
{
    merge_text(&mut dst.text, &src.text);
    merge_para(&mut dst.para, &src.para);
    merge_cell(&mut dst.cell, &src.cell);
    merge_column(&mut dst.column, &src.column);
    merge_row(&mut dst.row, &src.row);
    merge_table(&mut dst.table, &src.table);
    merge_graphic(&mut dst.graphic, &src.graphic);
    dst.page.fill.merge(&src.page.fill);
}

/// A style that states nothing changes nothing, and nothing is lost over one that states
/// nothing.
pub proof fn law_unstated_is_neutral(r: ResolvedView)
    requires
        r.text.font is None ==> r.text.font_raw is None,
    ensures
        merged(r, unstated()) == r,
        merged(unstated(), r) == r,
{
    lemma_text_neutral(r.text);
    lemma_para_neutral(r.para);
    lemma_boxes_neutral(r.cell, r.graphic);
    lemma_tables_neutral(r.column, r.row, r.table, r.page.fill);
}

proof fn lemma_text_neutral(t: TextPropsView)
    requires
        t.font is None ==> t.font_raw is None,
    ensures
        merged_text(t, no_text()) == t,
        merged_text(no_text(), t) == t,
{
}

proof fn lemma_para_neutral(p: ParaPropsView)
    ensures
        merged_para(p, no_para()) == p,
        merged_para(no_para(), p) == p,
{
    if p.tab_stops.len() == 0 {
        assert(p.tab_stops =~= Seq::<Px>::empty());
    }
}

proof fn lemma_boxes_neutral(c: CellProps, g: GraphicProps)
    ensures
        merged_cell(c, no_cell()) == c,
        merged_cell(no_cell(), c) == c,
        merged_graphic(g, no_graphic()) == g,
        merged_graphic(no_graphic(), g) == g,
{
}

proof fn lemma_tables_neutral(c: ColumnProps, r: RowProps, t: TableProps, f: FillProps)
    ensures
        merged_column(c, no_column()) == c,
        merged_column(no_column(), c) == c,
        merged_row(r, no_row()) == r,
        merged_row(no_row(), r) == r,
        merged_table(t, no_table()) == t,
        merged_table(no_table(), t) == t,
        merged_fill(f, no_fill()) == f,
        merged_fill(no_fill(), f) == f,
{
}

/// All but the font size of a chain of styles does not depend on how the chain is
/// bracketed.
pub proof fn law_merging_is_associative(a: ResolvedView, b: ResolvedView, c: ResolvedView)
    ensures
        merged_para(merged_para(a.para, b.para), c.para) == merged_para(
            a.para,
            merged_para(b.para, c.para),
        ),
        merged_cell(merged_cell(a.cell, b.cell), c.cell) == merged_cell(
            a.cell,
            merged_cell(b.cell, c.cell),
        ),
        merged_column(merged_column(a.column, b.column), c.column) == merged_column(
            a.column,
            merged_column(b.column, c.column),
        ),
        merged_row(merged_row(a.row, b.row), c.row) == merged_row(a.row, merged_row(b.row, c.row)),
        merged_table(merged_table(a.table, b.table), c.table) == merged_table(
            a.table,
            merged_table(b.table, c.table),
        ),
        merged_graphic(merged_graphic(a.graphic, b.graphic), c.graphic) == merged_graphic(
            a.graphic,
            merged_graphic(b.graphic, c.graphic),
        ),
        (TextProps {
            size: None,
            ..merged_text(merged_text(a.text, b.text), c.text)
        }) == (TextProps { size: None, ..merged_text(a.text, merged_text(b.text, c.text)) }),
{
}

/// A size that is stated absolutely stays absolute under every style laid over it.
pub proof fn law_absolute_size_stays_absolute(a: TextPropsView, b: TextPropsView)
    requires
        a.size matches Some(FontSize::Pt(_)),
    ensures
        merged_text(a, b).size matches Some(FontSize::Pt(_)),
{
}

/// A padding, unless it is negative.
pub open spec fn not_below_zero(v: Option<Px>) -> Option<Px> {
    match v {
        Some(v) => if v >= 0 {
            Some(v)
        } else {
            None
        },
        None => None,
    }
}

pub fn pad(v: Option<Px>) -> (r: Option<Px>)
    ensures
        r == not_below_zero(v),
{
    match v {
        Some(v) => if v >= 0 {
            Some(v)
        } else {
            None
        },
        None => None,
    }
}

// ── properties → model ───────────────────────────────────────────────────────

/// The size that text comes to inside text of another size.
pub open spec fn size_in(size: Option<FontSize>, base_pt: Px) -> Px {
    match size {
        Some(FontSize::Pt(v)) => clamped_pt(v as int),
        Some(FontSize::Percent(p)) => clamped_pt(share(base_pt as int, p as int)),
        None => base_pt,
    }
}

pub fn size_pt(t: &TextProps, base_pt: Px) -> (r: Px)
    ensures
        r == size_in(t@.size, base_pt),
{
    match t.size {
        Some(FontSize::Pt(v)) => clamp_pt(v as i128),
        Some(FontSize::Percent(p)) => clamp_pt(share_of(base_pt, p)),
        None => base_pt,
    }
}

pub open spec fn or_zero(v: Option<Px>) -> Px {
    match v {
        Some(v) => v,
        None => 0,
    }
}

fn zero_or(v: Option<Px>) -> (r: Px)
    ensures
        r == or_zero(v),
{
    match v {
        Some(v) => v,
        None => 0,
    }
}

/// A paragraph's lines. Leading is added to a single line of the paragraph's own size,
/// and a height that is none is a single line.
pub open spec fn line_of(line: Option<LineSpec>, base_pt: Px) -> LineHeight {
    match line {
        Some(LineSpec::Proportional(r)) => LineHeight::Multiple(
            as_px(share(SINGLE_LINE as int, r as int)),
        ),
        Some(LineSpec::Fixed(px)) => if px > 0 {
            LineHeight::Exact(px)
        } else {
            LineHeight::Multiple(SINGLE_LINE)
        },
        Some(LineSpec::AtLeast(px)) => if px > 0 {
            LineHeight::AtLeast(px)
        } else {
            LineHeight::Multiple(SINGLE_LINE)
        },
        Some(LineSpec::Leading(px)) => {
            let v = share(base_pt as int, SINGLE_LINE as int) + px;
            LineHeight::Exact(
                if v < PX {
                    PX
                } else {
                    as_px(v)
                },
            )
        },
        None => LineHeight::Multiple(SINGLE_LINE),
    }
}

fn nearest(v: i128) -> (r: Px)
    ensures
        r == as_px(v as int),
{
    if v > i64::MAX as i128 {
        i64::MAX
    } else if v < i64::MIN as i128 {
        i64::MIN
    } else {
        v as i64
    }
}

fn line_height(line: Option<LineSpec>, base_pt: Px) -> (r: LineHeight)
    ensures
        r == line_of(line, base_pt),
{
    match line {
        Some(LineSpec::Proportional(r)) => LineHeight::Multiple(nearest(share_of(SINGLE_LINE, r))),
        Some(LineSpec::Fixed(px)) => if px > 0 {
            LineHeight::Exact(px)
        } else {
            LineHeight::default()
        },
        Some(LineSpec::AtLeast(px)) => if px > 0 {
            LineHeight::AtLeast(px)
        } else {
            LineHeight::default()
        },
        Some(LineSpec::Leading(px)) => {
            let v: i128 = share_of(base_pt, SINGLE_LINE) + px as i128;
            LineHeight::Exact(
                if v < PX as i128 {
                    PX
                } else {
                    nearest(v)
                },
            )
        },
        None => LineHeight::default(),
    }
}

pub open spec fn border_on(e: Option<Edge>) -> Option<ParaBorder> {
    match e {
        Some(Edge::Line(b)) => Some(
            ParaBorder { width_px: b.width_px, style: Some(b.style), color: b.color, space_px: 0 },
        ),
        _ => None,
    }
}

fn border_at(e: Option<Edge>) -> (r: Option<ParaBorder>)
    ensures
        r == border_on(e),
{
    match e {
        Some(Edge::Line(b)) => Some(
            ParaBorder { width_px: b.width_px, style: Some(b.style), color: b.color, space_px: 0 },
        ),
        _ => None,
    }
}

pub open spec fn borders_of(s: Sides) -> Borders {
    Borders {
        top: border_on(s.top),
        right: border_on(s.right),
        bottom: border_on(s.bottom),
        left: border_on(s.left),
    }
}

/// The edges that are drawn.
pub fn to_borders(s: &Sides) -> (r: Borders)
    ensures
        r == borders_of(*s),
{
    Borders {
        top: border_at(s.top),
        right: border_at(s.right),
        bottom: border_at(s.bottom),
        left: border_at(s.left),
    }
}

/// A paragraph's box, without runs and without a marker.
pub open spec fn para_of(p: ParaPropsView, base_pt: Px, heading: Option<u8>) -> ParaView {
    Para {
        runs: Seq::empty(),
        size_pt: base_pt,
        align: p.align,
        indent_px: or_zero(p.indent_px),
        indent_end_px: or_zero(p.indent_end_px),
        first_line_px: if p.auto_text_indent == Some(true) {
            0
        } else {
            or_zero(p.first_line_px)
        },
        line: line_of(p.line, base_pt),
        space_before_px: or_zero(p.space_before_px),
        space_after_px: or_zero(p.space_after_px),
        marker: None,
        rtl: p.rtl == Some(true),
        shade: p.background,
        borders: borders_of(p.borders),
        heading,
    }
}

/// A paragraph's box. An automatic first-line indent depends on the font, which nothing
/// here measures, so it is none.
pub fn to_para(p: &ParaProps, base_pt: Px, heading: Option<u8>) -> (r: Para)
    ensures
        r@ == para_of(p@, base_pt, heading),
{
    let r = Para {
        runs: Vec::new(),
        size_pt: base_pt,
        align: p.align,
        indent_px: zero_or(p.indent_px),
        indent_end_px: zero_or(p.indent_end_px),
        first_line_px: if p.auto_text_indent == Some(true) {
            0
        } else {
            zero_or(p.first_line_px)
        },
        line: line_height(p.line, base_pt),
        space_before_px: zero_or(p.space_before_px),
        space_after_px: zero_or(p.space_after_px),
        marker: None,
        rtl: p.rtl == Some(true),
        shade: p.background,
        borders: to_borders(&p.borders),
        heading,
    };
    assert(r@.runs =~= Seq::<RunView>::empty());
    r
}

pub open spec fn text_run_of(text: Seq<char>, t: TextPropsView, base_pt: Px) -> TextView {
    TextRun {
        text,
        size_pt: size_in(t.size, base_pt),
        bold: t.bold == Some(true),
        italic: t.italic == Some(true),
        underline: t.underline == Some(true),
        strike: t.strike == Some(true),
        color: match t.color {
            Some(c) => c.value(),
            None => None,
        },
        font: t.font,
        caps: if t.caps == Some(true) {
            Some(Caps::All)
        } else if t.small_caps == Some(true) {
            Some(Caps::Small)
        } else {
            None
        },
        letter_spacing_pt: or_zero(t.letter_spacing_pt),
        script: match t.position {
            Some(Position::Super) => Some(Script::Super),
            Some(Position::Sub) => Some(Script::Sub),
            _ => None,
        },
        highlight: t.highlight,
        link: None,
    }
}

/// A run of text with its properties. A run without a size of its own has the
/// paragraph's.
pub fn to_text_run(text: String, t: &TextProps, base_pt: Px) -> (r: TextRun)
    ensures
        r@ == text_run_of(text@, t@, base_pt),
{
    TextRun {
        text,
        size_pt: size_pt(t, base_pt),
        bold: t.bold == Some(true),
        italic: t.italic == Some(true),
        underline: t.underline == Some(true),
        strike: t.strike == Some(true),
        color: match t.color {
            Some(c) => c.color(),
            None => None,
        },
        font: copy_opt(&t.font),
        caps: if t.caps == Some(true) {
            Some(Caps::All)
        } else if t.small_caps == Some(true) {
            Some(Caps::Small)
        } else {
            None
        },
        letter_spacing_pt: zero_or(t.letter_spacing_pt),
        script: match t.position {
            Some(Position::Super) => Some(Script::Super),
            Some(Position::Sub) => Some(Script::Sub),
            _ => None,
        },
        highlight: t.highlight,
        link: None,
    }
}

} // verus!
