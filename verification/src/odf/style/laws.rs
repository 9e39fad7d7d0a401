//! What laying styles over one another means, property by property.

use vstd::prelude::*;
use crate::cellstyle::VAlign;
use crate::model::{Align, Caps, LineHeight, Script};
use crate::color::{Color, OPAQUE};
use crate::names::{law_stored_is_found, lookup};
use crate::odf::number::number_of;
use crate::chars::trimmed;
use crate::odf::length::{
    border_of, color_of, len_of, measure_of, percent_of, words_from, Measure, Px,
};
use crate::odf::style::{
    faded, line_of, merged, merged_size, para_of, share, text_run_of, unstated, BreakKind, ColorVal,
    DrawPageProps, Edge, Family, FillKind, FillProps, FontSize, HPos, LineSpec, ParaPropsView,
    Position, Resolved, ResolvedView, StrokeKind, StrokeProps, TableAlign, TextPropsView, WrapMode,
};
use crate::odf::style::props::{
    cell_props_of, column_props_of, fill_props_of, graphic_props_of, para_props_of, position_of,
    props_of, row_props_of, table_props_of, text_props_of, weight_of, with_props, Faces,
};
use crate::odf::style::store::{
    chain_data, chain_master, chain_names, chain_of, family_attr, letter, style_key, RawView, Store,
    MAX_PARENT,
};
use crate::paint::{Cap, Dash, Fill};
use crate::xml::Tree;

verus! {

// ── one style over another ───────────────────────────────────────────────────

/// Laid over any style, a style's statements on text hold as it makes them, and what it
/// leaves unstated stays as it was. A font's name goes with its stack.
pub proof fn law_what_is_stated_of_text_wins(a: ResolvedView, b: ResolvedView)
    ensures
        b.text.bold is Some ==> merged(a, b).text.bold == b.text.bold,
        b.text.bold is None ==> merged(a, b).text.bold == a.text.bold,
        b.text.italic is Some ==> merged(a, b).text.italic == b.text.italic,
        b.text.italic is None ==> merged(a, b).text.italic == a.text.italic,
        b.text.underline is Some ==> merged(a, b).text.underline == b.text.underline,
        b.text.underline is None ==> merged(a, b).text.underline == a.text.underline,
        b.text.strike is Some ==> merged(a, b).text.strike == b.text.strike,
        b.text.strike is None ==> merged(a, b).text.strike == a.text.strike,
        b.text.caps is Some ==> merged(a, b).text.caps == b.text.caps,
        b.text.caps is None ==> merged(a, b).text.caps == a.text.caps,
        b.text.small_caps is Some ==> merged(a, b).text.small_caps == b.text.small_caps,
        b.text.small_caps is None ==> merged(a, b).text.small_caps == a.text.small_caps,
        b.text.color is Some ==> merged(a, b).text.color == b.text.color,
        b.text.color is None ==> merged(a, b).text.color == a.text.color,
        b.text.highlight is Some ==> merged(a, b).text.highlight == b.text.highlight,
        b.text.highlight is None ==> merged(a, b).text.highlight == a.text.highlight,
        b.text.letter_spacing_pt is Some
            ==> merged(a, b).text.letter_spacing_pt == b.text.letter_spacing_pt,
        b.text.letter_spacing_pt is None
            ==> merged(a, b).text.letter_spacing_pt == a.text.letter_spacing_pt,
        b.text.position is Some ==> merged(a, b).text.position == b.text.position,
        b.text.position is None ==> merged(a, b).text.position == a.text.position,
        b.text.language is Some ==> merged(a, b).text.language == b.text.language,
        b.text.language is None ==> merged(a, b).text.language == a.text.language,
        b.text.font is Some ==> merged(a, b).text.font == b.text.font,
        b.text.font is None ==> merged(a, b).text.font == a.text.font,
        b.text.font is Some ==> merged(a, b).text.font_raw == b.text.font_raw,
        b.text.font is None ==> merged(a, b).text.font_raw == a.text.font_raw,
{
}

/// Laid over any style, a style's statements on paragraphs hold as it makes them, and what
/// it leaves unstated stays as it was. Tab stops are one statement.
pub proof fn law_what_is_stated_of_a_paragraph_wins(a: ResolvedView, b: ResolvedView)
    ensures
        b.para.align is Some ==> merged(a, b).para.align == b.para.align,
        b.para.align is None ==> merged(a, b).para.align == a.para.align,
        b.para.space_before_px is Some
            ==> merged(a, b).para.space_before_px == b.para.space_before_px,
        b.para.space_before_px is None
            ==> merged(a, b).para.space_before_px == a.para.space_before_px,
        b.para.space_after_px is Some ==> merged(a, b).para.space_after_px == b.para.space_after_px,
        b.para.space_after_px is None ==> merged(a, b).para.space_after_px == a.para.space_after_px,
        b.para.indent_px is Some ==> merged(a, b).para.indent_px == b.para.indent_px,
        b.para.indent_px is None ==> merged(a, b).para.indent_px == a.para.indent_px,
        b.para.indent_end_px is Some ==> merged(a, b).para.indent_end_px == b.para.indent_end_px,
        b.para.indent_end_px is None ==> merged(a, b).para.indent_end_px == a.para.indent_end_px,
        b.para.first_line_px is Some ==> merged(a, b).para.first_line_px == b.para.first_line_px,
        b.para.first_line_px is None ==> merged(a, b).para.first_line_px == a.para.first_line_px,
        b.para.auto_text_indent is Some
            ==> merged(a, b).para.auto_text_indent == b.para.auto_text_indent,
        b.para.auto_text_indent is None
            ==> merged(a, b).para.auto_text_indent == a.para.auto_text_indent,
        b.para.line is Some ==> merged(a, b).para.line == b.para.line,
        b.para.line is None ==> merged(a, b).para.line == a.para.line,
        b.para.background is Some ==> merged(a, b).para.background == b.para.background,
        b.para.background is None ==> merged(a, b).para.background == a.para.background,
        b.para.contextual_spacing is Some
            ==> merged(a, b).para.contextual_spacing == b.para.contextual_spacing,
        b.para.contextual_spacing is None
            ==> merged(a, b).para.contextual_spacing == a.para.contextual_spacing,
        b.para.rtl is Some ==> merged(a, b).para.rtl == b.para.rtl,
        b.para.rtl is None ==> merged(a, b).para.rtl == a.para.rtl,
        b.para.keep_with_next is Some ==> merged(a, b).para.keep_with_next == b.para.keep_with_next,
        b.para.keep_with_next is None ==> merged(a, b).para.keep_with_next == a.para.keep_with_next,
        b.para.break_before is Some ==> merged(a, b).para.break_before == b.para.break_before,
        b.para.break_before is None ==> merged(a, b).para.break_before == a.para.break_before,
        b.para.break_after is Some ==> merged(a, b).para.break_after == b.para.break_after,
        b.para.break_after is None ==> merged(a, b).para.break_after == a.para.break_after,
        b.para.tab_stop_distance_px is Some
            ==> merged(a, b).para.tab_stop_distance_px == b.para.tab_stop_distance_px,
        b.para.tab_stop_distance_px is None
            ==> merged(a, b).para.tab_stop_distance_px == a.para.tab_stop_distance_px,
        b.para.borders.top is Some ==> merged(a, b).para.borders.top == b.para.borders.top,
        b.para.borders.top is None ==> merged(a, b).para.borders.top == a.para.borders.top,
        b.para.borders.right is Some ==> merged(a, b).para.borders.right == b.para.borders.right,
        b.para.borders.right is None ==> merged(a, b).para.borders.right == a.para.borders.right,
        b.para.borders.bottom is Some ==> merged(a, b).para.borders.bottom == b.para.borders.bottom,
        b.para.borders.bottom is None ==> merged(a, b).para.borders.bottom == a.para.borders.bottom,
        b.para.borders.left is Some ==> merged(a, b).para.borders.left == b.para.borders.left,
        b.para.borders.left is None ==> merged(a, b).para.borders.left == a.para.borders.left,
        b.para.tab_stops.len() > 0 ==> merged(a, b).para.tab_stops == b.para.tab_stops,
        b.para.tab_stops.len() == 0 ==> merged(a, b).para.tab_stops == a.para.tab_stops,
{
}

/// Laid over any style, a style's statements on cells hold as it makes them, side by side,
/// and what it leaves unstated stays as it was.
pub proof fn law_what_is_stated_of_a_cell_wins(a: ResolvedView, b: ResolvedView)
    ensures
        b.cell.background is Some ==> merged(a, b).cell.background == b.cell.background,
        b.cell.background is None ==> merged(a, b).cell.background == a.cell.background,
        b.cell.v_align is Some ==> merged(a, b).cell.v_align == b.cell.v_align,
        b.cell.v_align is None ==> merged(a, b).cell.v_align == a.cell.v_align,
        b.cell.wrap is Some ==> merged(a, b).cell.wrap == b.cell.wrap,
        b.cell.wrap is None ==> merged(a, b).cell.wrap == a.cell.wrap,
        b.cell.shrink_to_fit is Some ==> merged(a, b).cell.shrink_to_fit == b.cell.shrink_to_fit,
        b.cell.shrink_to_fit is None ==> merged(a, b).cell.shrink_to_fit == a.cell.shrink_to_fit,
        b.cell.rotation is Some ==> merged(a, b).cell.rotation == b.cell.rotation,
        b.cell.rotation is None ==> merged(a, b).cell.rotation == a.cell.rotation,
        b.cell.borders.top is Some ==> merged(a, b).cell.borders.top == b.cell.borders.top,
        b.cell.borders.top is None ==> merged(a, b).cell.borders.top == a.cell.borders.top,
        b.cell.borders.right is Some ==> merged(a, b).cell.borders.right == b.cell.borders.right,
        b.cell.borders.right is None ==> merged(a, b).cell.borders.right == a.cell.borders.right,
        b.cell.borders.bottom is Some ==> merged(a, b).cell.borders.bottom == b.cell.borders.bottom,
        b.cell.borders.bottom is None ==> merged(a, b).cell.borders.bottom == a.cell.borders.bottom,
        b.cell.borders.left is Some ==> merged(a, b).cell.borders.left == b.cell.borders.left,
        b.cell.borders.left is None ==> merged(a, b).cell.borders.left == a.cell.borders.left,
        b.cell.padding.top is Some ==> merged(a, b).cell.padding.top == b.cell.padding.top,
        b.cell.padding.top is None ==> merged(a, b).cell.padding.top == a.cell.padding.top,
        b.cell.padding.right is Some ==> merged(a, b).cell.padding.right == b.cell.padding.right,
        b.cell.padding.right is None ==> merged(a, b).cell.padding.right == a.cell.padding.right,
        b.cell.padding.bottom is Some ==> merged(a, b).cell.padding.bottom == b.cell.padding.bottom,
        b.cell.padding.bottom is None ==> merged(a, b).cell.padding.bottom == a.cell.padding.bottom,
        b.cell.padding.left is Some ==> merged(a, b).cell.padding.left == b.cell.padding.left,
        b.cell.padding.left is None ==> merged(a, b).cell.padding.left == a.cell.padding.left,
{
}

/// Laid over any style, a style's statements on tables, columns and rows hold as it makes
/// them, and what it leaves unstated stays as it was.
pub proof fn law_what_is_stated_of_a_table_wins(a: ResolvedView, b: ResolvedView)
    ensures
        b.table.width is Some ==> merged(a, b).table.width == b.table.width,
        b.table.width is None ==> merged(a, b).table.width == a.table.width,
        b.table.display is Some ==> merged(a, b).table.display == b.table.display,
        b.table.display is None ==> merged(a, b).table.display == a.table.display,
        b.table.align is Some ==> merged(a, b).table.align == b.table.align,
        b.table.align is None ==> merged(a, b).table.align == a.table.align,
        b.table.indent_px is Some ==> merged(a, b).table.indent_px == b.table.indent_px,
        b.table.indent_px is None ==> merged(a, b).table.indent_px == a.table.indent_px,
        b.table.break_before is Some ==> merged(a, b).table.break_before == b.table.break_before,
        b.table.break_before is None ==> merged(a, b).table.break_before == a.table.break_before,
        b.table.break_after is Some ==> merged(a, b).table.break_after == b.table.break_after,
        b.table.break_after is None ==> merged(a, b).table.break_after == a.table.break_after,
        b.column.width_px is Some ==> merged(a, b).column.width_px == b.column.width_px,
        b.column.width_px is None ==> merged(a, b).column.width_px == a.column.width_px,
        b.column.optimal is Some ==> merged(a, b).column.optimal == b.column.optimal,
        b.column.optimal is None ==> merged(a, b).column.optimal == a.column.optimal,
        b.row.height_px is Some ==> merged(a, b).row.height_px == b.row.height_px,
        b.row.height_px is None ==> merged(a, b).row.height_px == a.row.height_px,
        b.row.optimal is Some ==> merged(a, b).row.optimal == b.row.optimal,
        b.row.optimal is None ==> merged(a, b).row.optimal == a.row.optimal,
{
}

/// Laid over any style, a style's statements on shapes and pages hold as it makes them, and
/// what it leaves unstated stays as it was.
pub proof fn law_what_is_stated_of_a_shape_wins(a: ResolvedView, b: ResolvedView)
    ensures
        b.graphic.text_v_align is Some
            ==> merged(a, b).graphic.text_v_align == b.graphic.text_v_align,
        b.graphic.text_v_align is None
            ==> merged(a, b).graphic.text_v_align == a.graphic.text_v_align,
        b.graphic.text_h_align is Some
            ==> merged(a, b).graphic.text_h_align == b.graphic.text_h_align,
        b.graphic.text_h_align is None
            ==> merged(a, b).graphic.text_h_align == a.graphic.text_h_align,
        b.graphic.auto_grow_height is Some
            ==> merged(a, b).graphic.auto_grow_height == b.graphic.auto_grow_height,
        b.graphic.auto_grow_height is None
            ==> merged(a, b).graphic.auto_grow_height == a.graphic.auto_grow_height,
        b.graphic.auto_grow_width is Some
            ==> merged(a, b).graphic.auto_grow_width == b.graphic.auto_grow_width,
        b.graphic.auto_grow_width is None
            ==> merged(a, b).graphic.auto_grow_width == a.graphic.auto_grow_width,
        b.graphic.min_height_px is Some
            ==> merged(a, b).graphic.min_height_px == b.graphic.min_height_px,
        b.graphic.min_height_px is None
            ==> merged(a, b).graphic.min_height_px == a.graphic.min_height_px,
        b.graphic.min_width_px is Some
            ==> merged(a, b).graphic.min_width_px == b.graphic.min_width_px,
        b.graphic.min_width_px is None
            ==> merged(a, b).graphic.min_width_px == a.graphic.min_width_px,
        b.graphic.wrap is Some ==> merged(a, b).graphic.wrap == b.graphic.wrap,
        b.graphic.wrap is None ==> merged(a, b).graphic.wrap == a.graphic.wrap,
        b.graphic.wrap_mode is Some ==> merged(a, b).graphic.wrap_mode == b.graphic.wrap_mode,
        b.graphic.wrap_mode is None ==> merged(a, b).graphic.wrap_mode == a.graphic.wrap_mode,
        b.graphic.h_pos is Some ==> merged(a, b).graphic.h_pos == b.graphic.h_pos,
        b.graphic.h_pos is None ==> merged(a, b).graphic.h_pos == a.graphic.h_pos,
        b.graphic.padding.top is Some ==> merged(a, b).graphic.padding.top == b.graphic.padding.top,
        b.graphic.padding.top is None ==> merged(a, b).graphic.padding.top == a.graphic.padding.top,
        b.graphic.padding.right is Some
            ==> merged(a, b).graphic.padding.right == b.graphic.padding.right,
        b.graphic.padding.right is None
            ==> merged(a, b).graphic.padding.right == a.graphic.padding.right,
        b.graphic.padding.bottom is Some
            ==> merged(a, b).graphic.padding.bottom == b.graphic.padding.bottom,
        b.graphic.padding.bottom is None
            ==> merged(a, b).graphic.padding.bottom == a.graphic.padding.bottom,
        b.graphic.padding.left is Some
            ==> merged(a, b).graphic.padding.left == b.graphic.padding.left,
        b.graphic.padding.left is None
            ==> merged(a, b).graphic.padding.left == a.graphic.padding.left,
        b.graphic.fill.kind is Some ==> merged(a, b).graphic.fill.kind == b.graphic.fill.kind,
        b.graphic.fill.kind is None ==> merged(a, b).graphic.fill.kind == a.graphic.fill.kind,
        b.graphic.fill.color is Some ==> merged(a, b).graphic.fill.color == b.graphic.fill.color,
        b.graphic.fill.color is None ==> merged(a, b).graphic.fill.color == a.graphic.fill.color,
        b.graphic.fill.opacity is Some
            ==> merged(a, b).graphic.fill.opacity == b.graphic.fill.opacity,
        b.graphic.fill.opacity is None
            ==> merged(a, b).graphic.fill.opacity == a.graphic.fill.opacity,
        b.graphic.stroke.kind is Some ==> merged(a, b).graphic.stroke.kind == b.graphic.stroke.kind,
        b.graphic.stroke.kind is None ==> merged(a, b).graphic.stroke.kind == a.graphic.stroke.kind,
        b.graphic.stroke.color is Some
            ==> merged(a, b).graphic.stroke.color == b.graphic.stroke.color,
        b.graphic.stroke.color is None
            ==> merged(a, b).graphic.stroke.color == a.graphic.stroke.color,
        b.graphic.stroke.width_px is Some
            ==> merged(a, b).graphic.stroke.width_px == b.graphic.stroke.width_px,
        b.graphic.stroke.width_px is None
            ==> merged(a, b).graphic.stroke.width_px == a.graphic.stroke.width_px,
        b.graphic.stroke.cap is Some ==> merged(a, b).graphic.stroke.cap == b.graphic.stroke.cap,
        b.graphic.stroke.cap is None ==> merged(a, b).graphic.stroke.cap == a.graphic.stroke.cap,
        b.page.fill.kind is Some ==> merged(a, b).page.fill.kind == b.page.fill.kind,
        b.page.fill.kind is None ==> merged(a, b).page.fill.kind == a.page.fill.kind,
        b.page.fill.color is Some ==> merged(a, b).page.fill.color == b.page.fill.color,
        b.page.fill.color is None ==> merged(a, b).page.fill.color == a.page.fill.color,
        b.page.fill.opacity is Some ==> merged(a, b).page.fill.opacity == b.page.fill.opacity,
        b.page.fill.opacity is None ==> merged(a, b).page.fill.opacity == a.page.fill.opacity,
{
}

/// A size in points replaces any size. A share of a size in points is that share of it, to
/// a unit, and a share of a share is the product of both; no size leaves what there was.
pub proof fn law_sizes_multiply(a: Option<FontSize>, v: Px, p: i64, q: i64)
    requires
        508_000_000 <= v <= 1_016_000_000_000,
        0 <= p <= 1_000_000_000,
        0 <= q <= 1_000_000_000,
    ensures
        merged_size(a, Some(FontSize::Pt(v))) == Some(FontSize::Pt(v)),
        merged_size(a, None) == a,
        merged_size(None, Some(FontSize::Percent(p))) == Some(FontSize::Percent(p)),
        merged_size(Some(FontSize::Pt(v)), Some(FontSize::Percent(p))) matches Some(
            FontSize::Pt(r),
        ) && 508_000_000 <= r <= 1_016_000_000_000 && (508_000_000 < r < 1_016_000_000_000 ==> r
            * 100_000_000 <= v * p < (r + 1) * 100_000_000),
        merged_size(Some(FontSize::Percent(q)), Some(FontSize::Percent(p))) matches Some(
            FontSize::Percent(r),
        ) && 0 <= r <= 1_000_000_000 && (r < 1_000_000_000 ==> r * 100_000_000 <= p * q < (r + 1)
            * 100_000_000),
        merged_size(Some(FontSize::Pt(v)), Some(FontSize::Percent(100_000_000))) == Some(
            FontSize::Pt(v),
        ),
        merged_size(Some(FontSize::Percent(q)), Some(FontSize::Percent(100_000_000))) == Some(
            FontSize::Percent(q),
        ),
{
    assert(0 <= v * p) by (nonlinear_arith)
        requires
            0 <= v,
            0 <= p,
    ;
    assert(0 <= p * q) by (nonlinear_arith)
        requires
            0 <= q,
            0 <= p,
    ;
}

// ── attributes ───────────────────────────────────────────────────────────────

/// What each attribute of text properties states, and that nothing else states it.
pub proof fn law_attributes_of_text(e: Tree, faces: Faces)
    ensures
        text_props_of(e, faces).italic is Some <==> e.attr("font-style"@) is Some,
        text_props_of(e, faces).italic == Some(true) <==> e.attr("font-style"@) == Some("italic"@)
            || e.attr("font-style"@) == Some("oblique"@),
        text_props_of(e, faces).underline is Some <==> e.attr("text-underline-style"@) is Some,
        text_props_of(e, faces).underline == Some(false)
            <==> e.attr("text-underline-style"@) == Some("none"@),
        text_props_of(e, faces).strike is Some <==> e.attr("text-line-through-style"@) is Some,
        text_props_of(e, faces).strike == Some(false)
            <==> e.attr("text-line-through-style"@) == Some("none"@),
        text_props_of(e, faces).caps == Some(true)
            <==> e.attr("text-transform"@) == Some("uppercase"@),
        text_props_of(e, faces).caps == Some(false) <==> e.attr("text-transform"@) == Some("none"@),
        text_props_of(e, faces).small_caps == Some(true)
            <==> e.attr("font-variant"@) == Some("small-caps"@),
        text_props_of(e, faces).small_caps == Some(false)
            <==> e.attr("font-variant"@) == Some("normal"@),
        text_props_of(e, faces).highlight
            == (match e.attr("background-color"@) { Some(v) => color_of(v), None => None }),
        e.attr("color"@) matches Some(v) ==> (color_of(v) is Some
            ==> (text_props_of(e, faces).color == Some(ColorVal::Of(color_of(v)->0)))),
        e.attr("color"@) is None ==> (text_props_of(e, faces).color == Some(ColorVal::Auto)
            <==> e.attr_bool("use-window-font-color"@) == Some(true)),
        e.attr("color"@) is None && e.attr_bool("use-window-font-color"@) != Some(true)
            ==> text_props_of(e, faces).color is None,
        e.attr("font-size"@) is None ==> text_props_of(e, faces).size is None,
        e.attr("font-size"@) matches Some(v) ==> (measure_of(v) matches Some(Measure::Px(x))
            ==> (508_000_000 <= x <= 1_016_000_000_000
            ==> (text_props_of(e, faces).size == Some(FontSize::Pt(x))))),
        e.attr("font-size"@) matches Some(v) ==> (measure_of(v) matches Some(Measure::Percent(x))
            ==> (0 <= x <= 1_000_000_000
            ==> (text_props_of(e, faces).size == Some(FontSize::Percent(x))))),
        e.attr("letter-spacing"@) is None ==> text_props_of(e, faces).letter_spacing_pt is None,
        e.attr("letter-spacing"@) matches Some(v) ==> (trimmed(v) == "normal"@
            ==> (text_props_of(e, faces).letter_spacing_pt == Some(0i64))),
        e.attr("letter-spacing"@) matches Some(v) ==> (trimmed(v) != "normal"@
            ==> (len_of(v) matches Some(x) ==> (-50_800_000_000 <= x <= 50_800_000_000
            ==> (text_props_of(e, faces).letter_spacing_pt == Some(x))))),
        e.attr("font-name"@) is None && e.attr("font-family"@) is None
            ==> text_props_of(e, faces).font is None && text_props_of(e, faces).font_raw is None,
        text_props_of(e, faces).font is Some <==> text_props_of(e, faces).font_raw is Some,
{
    reveal_strlit("italic");
    reveal_strlit("none");
    reveal_strlit("normal");
    reveal_strlit("oblique");
    reveal_strlit("small-caps");
    reveal_strlit("uppercase");
    assert("italic"@.len() != "none"@.len());
    assert("italic"@[0] != "normal"@[0]);
    assert("italic"@.len() != "oblique"@.len());
    assert("italic"@.len() != "small-caps"@.len());
    assert("italic"@.len() != "uppercase"@.len());
    assert("none"@.len() != "normal"@.len());
    assert("none"@.len() != "oblique"@.len());
    assert("none"@.len() != "small-caps"@.len());
    assert("none"@.len() != "uppercase"@.len());
    assert("normal"@.len() != "oblique"@.len());
    assert("normal"@.len() != "small-caps"@.len());
    assert("normal"@.len() != "uppercase"@.len());
    assert("oblique"@.len() != "small-caps"@.len());
    assert("oblique"@.len() != "uppercase"@.len());
    assert("small-caps"@.len() != "uppercase"@.len());
}

/// What each attribute of paragraph properties states, and that nothing else states it.
/// A margin of one side goes before the one for all four.
pub proof fn law_attributes_of_paragraphs(e: Tree)
    ensures
        para_props_of(e).align == Some(Align::Left) <==> e.attr("text-align"@) == Some("start"@)
            || e.attr("text-align"@) == Some("left"@),
        para_props_of(e).align == Some(Align::Center) <==> e.attr("text-align"@) == Some("center"@),
        para_props_of(e).align == Some(Align::Right) <==> e.attr("text-align"@) == Some("end"@)
            || e.attr("text-align"@) == Some("right"@),
        para_props_of(e).align == Some(Align::Justify)
            <==> e.attr("text-align"@) == Some("justify"@),
        e.attr("margin-top"@) matches Some(v) ==> (len_of(v) matches Some(x)
            ==> (0 <= x <= 804_672_000_000 ==> (para_props_of(e).space_before_px == Some(x)))),
        e.attr("margin-top"@) is None && e.attr("margin"@) is None
            ==> para_props_of(e).space_before_px is None,
        e.attr("margin-top"@) is None ==> (e.attr("margin"@) matches Some(v)
            ==> (len_of(v) matches Some(x) ==> (0 <= x <= 804_672_000_000
            ==> (para_props_of(e).space_before_px == Some(x))))),
        e.attr("margin-bottom"@) matches Some(v) ==> (len_of(v) matches Some(x)
            ==> (0 <= x <= 804_672_000_000 ==> (para_props_of(e).space_after_px == Some(x)))),
        e.attr("margin-bottom"@) is None && e.attr("margin"@) is None
            ==> para_props_of(e).space_after_px is None,
        e.attr("margin-bottom"@) is None ==> (e.attr("margin"@) matches Some(v)
            ==> (len_of(v) matches Some(x) ==> (0 <= x <= 804_672_000_000
            ==> (para_props_of(e).space_after_px == Some(x))))),
        e.attr("margin-left"@) matches Some(v) ==> (len_of(v) matches Some(x)
            ==> (-804_672_000_000 <= x <= 804_672_000_000
            ==> (para_props_of(e).indent_px == Some(x)))),
        e.attr("margin-left"@) is None && e.attr("margin"@) is None
            ==> para_props_of(e).indent_px is None,
        e.attr("margin-left"@) is None ==> (e.attr("margin"@) matches Some(v)
            ==> (len_of(v) matches Some(x) ==> (-804_672_000_000 <= x <= 804_672_000_000
            ==> (para_props_of(e).indent_px == Some(x))))),
        e.attr("margin-right"@) matches Some(v) ==> (len_of(v) matches Some(x)
            ==> (-804_672_000_000 <= x <= 804_672_000_000
            ==> (para_props_of(e).indent_end_px == Some(x)))),
        e.attr("margin-right"@) is None && e.attr("margin"@) is None
            ==> para_props_of(e).indent_end_px is None,
        e.attr("margin-right"@) is None ==> (e.attr("margin"@) matches Some(v)
            ==> (len_of(v) matches Some(x) ==> (-804_672_000_000 <= x <= 804_672_000_000
            ==> (para_props_of(e).indent_end_px == Some(x))))),
        e.attr("text-indent"@) matches Some(v) ==> (len_of(v) matches Some(x)
            ==> (-804_672_000_000 <= x <= 804_672_000_000
            ==> (para_props_of(e).first_line_px == Some(x)))),
        e.attr("text-indent"@) is None ==> para_props_of(e).first_line_px is None,
        e.attr("tab-stop-distance"@) matches Some(v) ==> (len_of(v) matches Some(x)
            ==> (0 <= x <= 804_672_000_000 ==> (para_props_of(e).tab_stop_distance_px == Some(x)))),
        e.attr("tab-stop-distance"@) is None ==> para_props_of(e).tab_stop_distance_px is None,
        para_props_of(e).auto_text_indent == e.attr_bool("auto-text-indent"@),
        para_props_of(e).contextual_spacing == e.attr_bool("contextual-spacing"@),
        para_props_of(e).background
            == (match e.attr("background-color"@) { Some(v) => color_of(v), None => None }),
        para_props_of(e).rtl == Some(true) <==> e.attr("writing-mode"@) == Some("rl-tb"@),
        para_props_of(e).rtl == Some(false) <==> e.attr("writing-mode"@) == Some("lr-tb"@),
        para_props_of(e).keep_with_next is Some <==> e.attr("keep-with-next"@) is Some,
        para_props_of(e).keep_with_next == Some(true)
            <==> e.attr("keep-with-next"@) == Some("always"@),
{
    reveal_strlit("always");
    reveal_strlit("center");
    reveal_strlit("end");
    reveal_strlit("justify");
    reveal_strlit("left");
    reveal_strlit("lr-tb");
    reveal_strlit("right");
    reveal_strlit("rl-tb");
    reveal_strlit("start");
    assert("always"@[0] != "center"@[0]);
    assert("always"@.len() != "end"@.len());
    assert("always"@.len() != "justify"@.len());
    assert("always"@.len() != "left"@.len());
    assert("always"@.len() != "lr-tb"@.len());
    assert("always"@.len() != "right"@.len());
    assert("always"@.len() != "rl-tb"@.len());
    assert("always"@.len() != "start"@.len());
    assert("center"@.len() != "end"@.len());
    assert("center"@.len() != "justify"@.len());
    assert("center"@.len() != "left"@.len());
    assert("center"@.len() != "lr-tb"@.len());
    assert("center"@.len() != "right"@.len());
    assert("center"@.len() != "rl-tb"@.len());
    assert("center"@.len() != "start"@.len());
    assert("end"@.len() != "justify"@.len());
    assert("end"@.len() != "left"@.len());
    assert("end"@.len() != "lr-tb"@.len());
    assert("end"@.len() != "right"@.len());
    assert("end"@.len() != "rl-tb"@.len());
    assert("end"@.len() != "start"@.len());
    assert("justify"@.len() != "left"@.len());
    assert("justify"@.len() != "lr-tb"@.len());
    assert("justify"@.len() != "right"@.len());
    assert("justify"@.len() != "rl-tb"@.len());
    assert("justify"@.len() != "start"@.len());
    assert("left"@.len() != "lr-tb"@.len());
    assert("left"@.len() != "right"@.len());
    assert("left"@.len() != "rl-tb"@.len());
    assert("left"@.len() != "start"@.len());
    assert("lr-tb"@[0] != "right"@[0]);
    assert("lr-tb"@[0] != "rl-tb"@[0]);
    assert("lr-tb"@[0] != "start"@[0]);
    assert("right"@[1] != "rl-tb"@[1]);
    assert("right"@[0] != "start"@[0]);
    assert("rl-tb"@[0] != "start"@[0]);
}

/// A paragraph and a table state a break before and after them alike.
pub proof fn law_breaks_that_are_stated(e: Tree)
    ensures
        para_props_of(e).break_before == Some(BreakKind::Auto)
            <==> (e.attr("break-before"@) matches Some(v) && trimmed(v) == "auto"@),
        table_props_of(e).break_before == Some(BreakKind::Auto)
            <==> (e.attr("break-before"@) matches Some(v) && trimmed(v) == "auto"@),
        para_props_of(e).break_before == Some(BreakKind::Column)
            <==> (e.attr("break-before"@) matches Some(v) && trimmed(v) == "column"@),
        table_props_of(e).break_before == Some(BreakKind::Column)
            <==> (e.attr("break-before"@) matches Some(v) && trimmed(v) == "column"@),
        para_props_of(e).break_before == Some(BreakKind::Page)
            <==> (e.attr("break-before"@) matches Some(v) && trimmed(v) == "page"@),
        table_props_of(e).break_before == Some(BreakKind::Page)
            <==> (e.attr("break-before"@) matches Some(v) && trimmed(v) == "page"@),
        para_props_of(e).break_after == Some(BreakKind::Auto)
            <==> (e.attr("break-after"@) matches Some(v) && trimmed(v) == "auto"@),
        table_props_of(e).break_after == Some(BreakKind::Auto)
            <==> (e.attr("break-after"@) matches Some(v) && trimmed(v) == "auto"@),
        para_props_of(e).break_after == Some(BreakKind::Column)
            <==> (e.attr("break-after"@) matches Some(v) && trimmed(v) == "column"@),
        table_props_of(e).break_after == Some(BreakKind::Column)
            <==> (e.attr("break-after"@) matches Some(v) && trimmed(v) == "column"@),
        para_props_of(e).break_after == Some(BreakKind::Page)
            <==> (e.attr("break-after"@) matches Some(v) && trimmed(v) == "page"@),
        table_props_of(e).break_after == Some(BreakKind::Page)
            <==> (e.attr("break-after"@) matches Some(v) && trimmed(v) == "page"@),
{
    reveal_strlit("auto");
    reveal_strlit("column");
    reveal_strlit("page");
    assert("auto"@.len() != "column"@.len());
    assert("auto"@[0] != "page"@[0]);
    assert("column"@.len() != "page"@.len());
}

/// A line height goes before a least height, and that before leading.
pub proof fn law_line_heights_that_are_stated(e: Tree)
    ensures
        e.attr("line-height"@) matches Some(v) ==> (trimmed(v) == "normal"@
            ==> (para_props_of(e).line == Some(LineSpec::Proportional(100_000_000)))),
        e.attr("line-height"@) matches Some(v) ==> (trimmed(v) != "normal"@
            ==> (measure_of(v) matches Some(Measure::Percent(x))
            ==> (10_000_000 <= x <= 2_000_000_000
            ==> (para_props_of(e).line == Some(LineSpec::Proportional(x)))))),
        e.attr("line-height"@) matches Some(v) ==> (trimmed(v) != "normal"@
            ==> (measure_of(v) matches Some(Measure::Px(x)) ==> (0 <= x <= 804_672_000_000
            ==> (para_props_of(e).line == Some(LineSpec::Fixed(x)))))),
        e.attr("line-height"@) is None ==> (e.attr("line-height-at-least"@) matches Some(v)
            ==> (len_of(v) matches Some(x) ==> (0 <= x <= 804_672_000_000
            ==> (para_props_of(e).line == Some(LineSpec::AtLeast(x)))))),
        e.attr("line-height"@) is None ==> (e.attr("line-height-at-least"@) is None
            ==> (e.attr("line-spacing"@) matches Some(v) ==> (len_of(v) matches Some(x)
            ==> (-804_672_000_000 <= x <= 804_672_000_000
            ==> (para_props_of(e).line == Some(LineSpec::Leading(x))))))),
        e.attr("line-height"@) is None && e.attr("line-height-at-least"@) is None
            && e.attr("line-spacing"@) is None ==> para_props_of(e).line is None,
{

}

/// Each side of a box has its own border and its own padding, and one for all four where
/// it states none of its own.
pub proof fn law_each_side_has_its_own_attribute(e: Tree)
    ensures
        para_props_of(e).borders.top is Some <==> e.attr("border-top"@) is Some
            || e.attr("border"@) is Some,
        e.attr("border-top"@) matches Some(v)
            ==> (para_props_of(e).borders.top
            == Some(match border_of(v) { Some(b) => Edge::Line(b), None => Edge::Nothing })),
        e.attr("border-top"@) is None ==> (e.attr("border"@) matches Some(v)
            ==> (para_props_of(e).borders.top
            == Some(match border_of(v) { Some(b) => Edge::Line(b), None => Edge::Nothing }))),
        cell_props_of(e).borders.top is Some <==> e.attr("border-top"@) is Some
            || e.attr("border"@) is Some,
        e.attr("border-top"@) matches Some(v)
            ==> (cell_props_of(e).borders.top
            == Some(match border_of(v) { Some(b) => Edge::Line(b), None => Edge::Nothing })),
        e.attr("border-top"@) is None ==> (e.attr("border"@) matches Some(v)
            ==> (cell_props_of(e).borders.top
            == Some(match border_of(v) { Some(b) => Edge::Line(b), None => Edge::Nothing }))),
        e.attr("padding-top"@) matches Some(v) ==> (len_of(v) matches Some(x)
            ==> (0 <= x <= 804_672_000_000 ==> (cell_props_of(e).padding.top == Some(x)))),
        e.attr("padding-top"@) is None ==> (e.attr("padding"@) matches Some(v)
            ==> (len_of(v) matches Some(x) ==> (0 <= x <= 804_672_000_000
            ==> (cell_props_of(e).padding.top == Some(x))))),
        e.attr("padding-top"@) is None && e.attr("padding"@) is None
            ==> cell_props_of(e).padding.top is None,
        e.attr("padding-top"@) matches Some(v) ==> (len_of(v) matches Some(x)
            ==> (0 <= x <= 804_672_000_000 ==> (graphic_props_of(e).padding.top == Some(x)))),
        e.attr("padding-top"@) is None ==> (e.attr("padding"@) matches Some(v)
            ==> (len_of(v) matches Some(x) ==> (0 <= x <= 804_672_000_000
            ==> (graphic_props_of(e).padding.top == Some(x))))),
        e.attr("padding-top"@) is None && e.attr("padding"@) is None
            ==> graphic_props_of(e).padding.top is None,
        para_props_of(e).borders.right is Some <==> e.attr("border-right"@) is Some
            || e.attr("border"@) is Some,
        e.attr("border-right"@) matches Some(v)
            ==> (para_props_of(e).borders.right
            == Some(match border_of(v) { Some(b) => Edge::Line(b), None => Edge::Nothing })),
        e.attr("border-right"@) is None ==> (e.attr("border"@) matches Some(v)
            ==> (para_props_of(e).borders.right
            == Some(match border_of(v) { Some(b) => Edge::Line(b), None => Edge::Nothing }))),
        cell_props_of(e).borders.right is Some <==> e.attr("border-right"@) is Some
            || e.attr("border"@) is Some,
        e.attr("border-right"@) matches Some(v)
            ==> (cell_props_of(e).borders.right
            == Some(match border_of(v) { Some(b) => Edge::Line(b), None => Edge::Nothing })),
        e.attr("border-right"@) is None ==> (e.attr("border"@) matches Some(v)
            ==> (cell_props_of(e).borders.right
            == Some(match border_of(v) { Some(b) => Edge::Line(b), None => Edge::Nothing }))),
        e.attr("padding-right"@) matches Some(v) ==> (len_of(v) matches Some(x)
            ==> (0 <= x <= 804_672_000_000 ==> (cell_props_of(e).padding.right == Some(x)))),
        e.attr("padding-right"@) is None ==> (e.attr("padding"@) matches Some(v)
            ==> (len_of(v) matches Some(x) ==> (0 <= x <= 804_672_000_000
            ==> (cell_props_of(e).padding.right == Some(x))))),
        e.attr("padding-right"@) is None && e.attr("padding"@) is None
            ==> cell_props_of(e).padding.right is None,
        e.attr("padding-right"@) matches Some(v) ==> (len_of(v) matches Some(x)
            ==> (0 <= x <= 804_672_000_000 ==> (graphic_props_of(e).padding.right == Some(x)))),
        e.attr("padding-right"@) is None ==> (e.attr("padding"@) matches Some(v)
            ==> (len_of(v) matches Some(x) ==> (0 <= x <= 804_672_000_000
            ==> (graphic_props_of(e).padding.right == Some(x))))),
        e.attr("padding-right"@) is None && e.attr("padding"@) is None
            ==> graphic_props_of(e).padding.right is None,
        para_props_of(e).borders.bottom is Some <==> e.attr("border-bottom"@) is Some
            || e.attr("border"@) is Some,
        e.attr("border-bottom"@) matches Some(v)
            ==> (para_props_of(e).borders.bottom
            == Some(match border_of(v) { Some(b) => Edge::Line(b), None => Edge::Nothing })),
        e.attr("border-bottom"@) is None ==> (e.attr("border"@) matches Some(v)
            ==> (para_props_of(e).borders.bottom
            == Some(match border_of(v) { Some(b) => Edge::Line(b), None => Edge::Nothing }))),
        cell_props_of(e).borders.bottom is Some <==> e.attr("border-bottom"@) is Some
            || e.attr("border"@) is Some,
        e.attr("border-bottom"@) matches Some(v)
            ==> (cell_props_of(e).borders.bottom
            == Some(match border_of(v) { Some(b) => Edge::Line(b), None => Edge::Nothing })),
        e.attr("border-bottom"@) is None ==> (e.attr("border"@) matches Some(v)
            ==> (cell_props_of(e).borders.bottom
            == Some(match border_of(v) { Some(b) => Edge::Line(b), None => Edge::Nothing }))),
        e.attr("padding-bottom"@) matches Some(v) ==> (len_of(v) matches Some(x)
            ==> (0 <= x <= 804_672_000_000 ==> (cell_props_of(e).padding.bottom == Some(x)))),
        e.attr("padding-bottom"@) is None ==> (e.attr("padding"@) matches Some(v)
            ==> (len_of(v) matches Some(x) ==> (0 <= x <= 804_672_000_000
            ==> (cell_props_of(e).padding.bottom == Some(x))))),
        e.attr("padding-bottom"@) is None && e.attr("padding"@) is None
            ==> cell_props_of(e).padding.bottom is None,
        e.attr("padding-bottom"@) matches Some(v) ==> (len_of(v) matches Some(x)
            ==> (0 <= x <= 804_672_000_000 ==> (graphic_props_of(e).padding.bottom == Some(x)))),
        e.attr("padding-bottom"@) is None ==> (e.attr("padding"@) matches Some(v)
            ==> (len_of(v) matches Some(x) ==> (0 <= x <= 804_672_000_000
            ==> (graphic_props_of(e).padding.bottom == Some(x))))),
        e.attr("padding-bottom"@) is None && e.attr("padding"@) is None
            ==> graphic_props_of(e).padding.bottom is None,
        para_props_of(e).borders.left is Some <==> e.attr("border-left"@) is Some
            || e.attr("border"@) is Some,
        e.attr("border-left"@) matches Some(v)
            ==> (para_props_of(e).borders.left
            == Some(match border_of(v) { Some(b) => Edge::Line(b), None => Edge::Nothing })),
        e.attr("border-left"@) is None ==> (e.attr("border"@) matches Some(v)
            ==> (para_props_of(e).borders.left
            == Some(match border_of(v) { Some(b) => Edge::Line(b), None => Edge::Nothing }))),
        cell_props_of(e).borders.left is Some <==> e.attr("border-left"@) is Some
            || e.attr("border"@) is Some,
        e.attr("border-left"@) matches Some(v)
            ==> (cell_props_of(e).borders.left
            == Some(match border_of(v) { Some(b) => Edge::Line(b), None => Edge::Nothing })),
        e.attr("border-left"@) is None ==> (e.attr("border"@) matches Some(v)
            ==> (cell_props_of(e).borders.left
            == Some(match border_of(v) { Some(b) => Edge::Line(b), None => Edge::Nothing }))),
        e.attr("padding-left"@) matches Some(v) ==> (len_of(v) matches Some(x)
            ==> (0 <= x <= 804_672_000_000 ==> (cell_props_of(e).padding.left == Some(x)))),
        e.attr("padding-left"@) is None ==> (e.attr("padding"@) matches Some(v)
            ==> (len_of(v) matches Some(x) ==> (0 <= x <= 804_672_000_000
            ==> (cell_props_of(e).padding.left == Some(x))))),
        e.attr("padding-left"@) is None && e.attr("padding"@) is None
            ==> cell_props_of(e).padding.left is None,
        e.attr("padding-left"@) matches Some(v) ==> (len_of(v) matches Some(x)
            ==> (0 <= x <= 804_672_000_000 ==> (graphic_props_of(e).padding.left == Some(x)))),
        e.attr("padding-left"@) is None ==> (e.attr("padding"@) matches Some(v)
            ==> (len_of(v) matches Some(x) ==> (0 <= x <= 804_672_000_000
            ==> (graphic_props_of(e).padding.left == Some(x))))),
        e.attr("padding-left"@) is None && e.attr("padding"@) is None
            ==> graphic_props_of(e).padding.left is None,
{

}

/// What each attribute of cell properties states, and that nothing else states it.
pub proof fn law_attributes_of_cells(e: Tree)
    ensures
        cell_props_of(e).v_align == Some(VAlign::Top)
            <==> e.attr("vertical-align"@) == Some("top"@),
        cell_props_of(e).v_align == Some(VAlign::Center)
            <==> e.attr("vertical-align"@) == Some("middle"@),
        cell_props_of(e).v_align == Some(VAlign::Bottom)
            <==> e.attr("vertical-align"@) == Some("bottom"@),
        cell_props_of(e).v_align != Some(VAlign::Justify),
        cell_props_of(e).wrap == Some(true) <==> e.attr("wrap-option"@) == Some("wrap"@),
        cell_props_of(e).wrap == Some(false) <==> e.attr("wrap-option"@) == Some("no-wrap"@),
        graphic_props_of(e).wrap == Some(true) <==> e.attr("wrap-option"@) == Some("wrap"@),
        graphic_props_of(e).wrap == Some(false) <==> e.attr("wrap-option"@) == Some("no-wrap"@),
        cell_props_of(e).background
            == (match e.attr("background-color"@) { Some(v) => color_of(v), None => None }),
        cell_props_of(e).shrink_to_fit == e.attr_bool("shrink-to-fit"@),
{
    reveal_strlit("bottom");
    reveal_strlit("middle");
    reveal_strlit("no-wrap");
    reveal_strlit("top");
    reveal_strlit("wrap");
    assert("bottom"@[0] != "middle"@[0]);
    assert("bottom"@.len() != "no-wrap"@.len());
    assert("bottom"@.len() != "top"@.len());
    assert("bottom"@.len() != "wrap"@.len());
    assert("middle"@.len() != "no-wrap"@.len());
    assert("middle"@.len() != "top"@.len());
    assert("middle"@.len() != "wrap"@.len());
    assert("no-wrap"@.len() != "top"@.len());
    assert("no-wrap"@.len() != "wrap"@.len());
    assert("top"@.len() != "wrap"@.len());
}

/// What each attribute of table, column and row properties states.
pub proof fn law_attributes_of_tables(e: Tree)
    ensures
        table_props_of(e).align == Some(TableAlign::Left) <==> e.attr("align"@) == Some("left"@),
        table_props_of(e).align == Some(TableAlign::Center)
            <==> e.attr("align"@) == Some("center"@),
        table_props_of(e).align == Some(TableAlign::Right) <==> e.attr("align"@) == Some("right"@),
        table_props_of(e).align == Some(TableAlign::Margins)
            <==> e.attr("align"@) == Some("margins"@),
        table_props_of(e).display == e.attr_bool("display"@),
        e.attr("width"@) matches Some(v) ==> (table_props_of(e).width == measure_of(v)),
        e.attr("width"@) is None ==> (e.attr("rel-width"@) matches Some(v)
            ==> (table_props_of(e).width == measure_of(v))),
        e.attr("width"@) is None && e.attr("rel-width"@) is None
            ==> table_props_of(e).width is None,
        e.attr("margin-left"@) matches Some(v) ==> (len_of(v) matches Some(x)
            ==> (0 <= x <= 804_672_000_000 ==> (table_props_of(e).indent_px == Some(x)))),
        e.attr("margin-left"@) is None ==> table_props_of(e).indent_px is None,
        e.attr("column-width"@) matches Some(v) ==> (len_of(v) matches Some(x)
            ==> (0 <= x <= 1_560_576_000_000 ==> (column_props_of(e).width_px == Some(x)))),
        e.attr("column-width"@) is None ==> column_props_of(e).width_px is None,
        e.attr("row-height"@) matches Some(v) ==> (len_of(v) matches Some(x)
            ==> (0 <= x <= 1_560_576_000_000 ==> (row_props_of(e).height_px == Some(x)))),
        e.attr("row-height"@) is None ==> row_props_of(e).height_px is None,
        column_props_of(e).optimal == e.attr_bool("use-optimal-column-width"@),
        row_props_of(e).optimal == e.attr_bool("use-optimal-row-height"@),
{
    reveal_strlit("center");
    reveal_strlit("left");
    reveal_strlit("margins");
    reveal_strlit("right");
    assert("center"@.len() != "left"@.len());
    assert("center"@.len() != "margins"@.len());
    assert("center"@.len() != "right"@.len());
    assert("left"@.len() != "margins"@.len());
    assert("left"@.len() != "right"@.len());
    assert("margins"@.len() != "right"@.len());
}

/// What each attribute of a fill and of an outline states.
pub proof fn law_attributes_of_paint(e: Tree)
    ensures
        fill_props_of(e).kind == Some(FillKind::Empty) <==> e.attr("fill"@) == Some("none"@),
        fill_props_of(e).kind == Some(FillKind::Solid) <==> e.attr("fill"@) == Some("solid"@),
        fill_props_of(e).kind == Some(FillKind::Unsupported)
            <==> e.attr("fill"@) == Some("gradient"@) || e.attr("fill"@) == Some("hatch"@)
            || e.attr("fill"@) == Some("bitmap"@),
        fill_props_of(e).color
            == (match e.attr("fill-color"@) { Some(v) => color_of(v), None => None }),
        e.attr("opacity"@) matches Some(v) ==> (percent_of(v) matches Some(x)
            ==> (0 <= x <= 100_000_000 ==> (fill_props_of(e).opacity == Some(x)))),
        e.attr("opacity"@) is None ==> fill_props_of(e).opacity is None,
        graphic_props_of(e).fill == fill_props_of(e),
        graphic_props_of(e).stroke.kind == Some(StrokeKind::Empty)
            <==> e.attr("stroke"@) == Some("none"@),
        graphic_props_of(e).stroke.kind == Some(StrokeKind::Solid)
            <==> e.attr("stroke"@) == Some("solid"@),
        graphic_props_of(e).stroke.kind == Some(StrokeKind::Dash)
            <==> e.attr("stroke"@) == Some("dash"@),
        graphic_props_of(e).stroke.color
            == (match e.attr("stroke-color"@) { Some(v) => color_of(v), None => None }),
        e.attr("stroke-width"@) matches Some(v) ==> (len_of(v) matches Some(x)
            ==> (0 <= x <= 804_672_000_000 ==> (graphic_props_of(e).stroke.width_px == Some(x)))),
        e.attr("stroke-width"@) is None ==> graphic_props_of(e).stroke.width_px is None,
        graphic_props_of(e).stroke.cap == Some(Cap::Flat)
            <==> e.attr("stroke-linecap"@) == Some("butt"@),
        graphic_props_of(e).stroke.cap == Some(Cap::Round)
            <==> e.attr("stroke-linecap"@) == Some("round"@),
        graphic_props_of(e).stroke.cap == Some(Cap::Square)
            <==> e.attr("stroke-linecap"@) == Some("square"@),
{
    reveal_strlit("bitmap");
    reveal_strlit("butt");
    reveal_strlit("dash");
    reveal_strlit("gradient");
    reveal_strlit("hatch");
    reveal_strlit("none");
    reveal_strlit("round");
    reveal_strlit("solid");
    reveal_strlit("square");
    assert("bitmap"@.len() != "butt"@.len());
    assert("bitmap"@.len() != "dash"@.len());
    assert("bitmap"@.len() != "gradient"@.len());
    assert("bitmap"@.len() != "hatch"@.len());
    assert("bitmap"@.len() != "none"@.len());
    assert("bitmap"@.len() != "round"@.len());
    assert("bitmap"@.len() != "solid"@.len());
    assert("bitmap"@[0] != "square"@[0]);
    assert("butt"@[0] != "dash"@[0]);
    assert("butt"@.len() != "gradient"@.len());
    assert("butt"@.len() != "hatch"@.len());
    assert("butt"@[0] != "none"@[0]);
    assert("butt"@.len() != "round"@.len());
    assert("butt"@.len() != "solid"@.len());
    assert("butt"@.len() != "square"@.len());
    assert("dash"@.len() != "gradient"@.len());
    assert("dash"@.len() != "hatch"@.len());
    assert("dash"@[0] != "none"@[0]);
    assert("dash"@.len() != "round"@.len());
    assert("dash"@.len() != "solid"@.len());
    assert("dash"@.len() != "square"@.len());
    assert("gradient"@.len() != "hatch"@.len());
    assert("gradient"@.len() != "none"@.len());
    assert("gradient"@.len() != "round"@.len());
    assert("gradient"@.len() != "solid"@.len());
    assert("gradient"@.len() != "square"@.len());
    assert("hatch"@.len() != "none"@.len());
    assert("hatch"@[0] != "round"@[0]);
    assert("hatch"@[0] != "solid"@[0]);
    assert("hatch"@.len() != "square"@.len());
    assert("none"@.len() != "round"@.len());
    assert("none"@.len() != "solid"@.len());
    assert("none"@.len() != "square"@.len());
    assert("round"@[0] != "solid"@[0]);
    assert("round"@.len() != "square"@.len());
    assert("solid"@.len() != "square"@.len());
}

/// What each attribute of graphic properties states.
pub proof fn law_attributes_of_shapes(e: Tree)
    ensures
        graphic_props_of(e).text_v_align == Some(VAlign::Top)
            <==> e.attr("textarea-vertical-align"@) == Some("top"@),
        graphic_props_of(e).text_v_align == Some(VAlign::Center)
            <==> e.attr("textarea-vertical-align"@) == Some("middle"@),
        graphic_props_of(e).text_v_align == Some(VAlign::Bottom)
            <==> e.attr("textarea-vertical-align"@) == Some("bottom"@),
        graphic_props_of(e).text_v_align == Some(VAlign::Justify)
            <==> e.attr("textarea-vertical-align"@) == Some("justify"@),
        graphic_props_of(e).text_h_align == Some(Align::Left)
            <==> e.attr("textarea-horizontal-align"@) == Some("left"@),
        graphic_props_of(e).text_h_align == Some(Align::Center)
            <==> e.attr("textarea-horizontal-align"@) == Some("center"@),
        graphic_props_of(e).text_h_align == Some(Align::Right)
            <==> e.attr("textarea-horizontal-align"@) == Some("right"@),
        graphic_props_of(e).text_h_align == Some(Align::Justify)
            <==> e.attr("textarea-horizontal-align"@) == Some("justify"@),
        graphic_props_of(e).auto_grow_height == e.attr_bool("auto-grow-height"@),
        graphic_props_of(e).auto_grow_width == e.attr_bool("auto-grow-width"@),
        e.attr("min-height"@) matches Some(v) ==> (len_of(v) matches Some(x)
            ==> (0 <= x <= 804_672_000_000 ==> (graphic_props_of(e).min_height_px == Some(x)))),
        e.attr("min-width"@) matches Some(v) ==> (len_of(v) matches Some(x)
            ==> (0 <= x <= 804_672_000_000 ==> (graphic_props_of(e).min_width_px == Some(x)))),
        graphic_props_of(e).wrap_mode == Some(WrapMode::Alone)
            <==> e.attr("wrap"@) == Some("none"@),
        graphic_props_of(e).wrap_mode == Some(WrapMode::Left) <==> e.attr("wrap"@) == Some("left"@),
        graphic_props_of(e).wrap_mode == Some(WrapMode::Right)
            <==> e.attr("wrap"@) == Some("right"@),
        graphic_props_of(e).wrap_mode == Some(WrapMode::Parallel)
            <==> e.attr("wrap"@) == Some("parallel"@) || e.attr("wrap"@) == Some("biggest"@),
        graphic_props_of(e).wrap_mode == Some(WrapMode::Dynamic)
            <==> e.attr("wrap"@) == Some("dynamic"@),
        graphic_props_of(e).wrap_mode == Some(WrapMode::RunThrough)
            <==> e.attr("wrap"@) == Some("run-through"@),
        graphic_props_of(e).h_pos == Some(HPos::Left)
            <==> e.attr("horizontal-pos"@) == Some("left"@)
            || e.attr("horizontal-pos"@) == Some("inside"@),
        graphic_props_of(e).h_pos == Some(HPos::Center)
            <==> e.attr("horizontal-pos"@) == Some("center"@),
        graphic_props_of(e).h_pos == Some(HPos::Right)
            <==> e.attr("horizontal-pos"@) == Some("right"@)
            || e.attr("horizontal-pos"@) == Some("outside"@),
        graphic_props_of(e).h_pos == Some(HPos::FromLeft)
            <==> e.attr("horizontal-pos"@) == Some("from-left"@)
            || e.attr("horizontal-pos"@) == Some("from-inside"@),
{
    reveal_strlit("biggest");
    reveal_strlit("bottom");
    reveal_strlit("center");
    reveal_strlit("dynamic");
    reveal_strlit("from-inside");
    reveal_strlit("from-left");
    reveal_strlit("inside");
    reveal_strlit("justify");
    reveal_strlit("left");
    reveal_strlit("middle");
    reveal_strlit("none");
    reveal_strlit("outside");
    reveal_strlit("parallel");
    reveal_strlit("right");
    reveal_strlit("run-through");
    reveal_strlit("top");
    assert("biggest"@.len() != "bottom"@.len());
    assert("biggest"@.len() != "center"@.len());
    assert("biggest"@[0] != "dynamic"@[0]);
    assert("biggest"@.len() != "from-inside"@.len());
    assert("biggest"@.len() != "from-left"@.len());
    assert("biggest"@.len() != "inside"@.len());
    assert("biggest"@[0] != "justify"@[0]);
    assert("biggest"@.len() != "left"@.len());
    assert("biggest"@.len() != "middle"@.len());
    assert("biggest"@.len() != "none"@.len());
    assert("biggest"@[0] != "outside"@[0]);
    assert("biggest"@.len() != "parallel"@.len());
    assert("biggest"@.len() != "right"@.len());
    assert("biggest"@.len() != "run-through"@.len());
    assert("biggest"@.len() != "top"@.len());
    assert("bottom"@[0] != "center"@[0]);
    assert("bottom"@.len() != "dynamic"@.len());
    assert("bottom"@.len() != "from-inside"@.len());
    assert("bottom"@.len() != "from-left"@.len());
    assert("bottom"@[0] != "inside"@[0]);
    assert("bottom"@.len() != "justify"@.len());
    assert("bottom"@.len() != "left"@.len());
    assert("bottom"@[0] != "middle"@[0]);
    assert("bottom"@.len() != "none"@.len());
    assert("bottom"@.len() != "outside"@.len());
    assert("bottom"@.len() != "parallel"@.len());
    assert("bottom"@.len() != "right"@.len());
    assert("bottom"@.len() != "run-through"@.len());
    assert("bottom"@.len() != "top"@.len());
    assert("center"@.len() != "dynamic"@.len());
    assert("center"@.len() != "from-inside"@.len());
    assert("center"@.len() != "from-left"@.len());
    assert("center"@[0] != "inside"@[0]);
    assert("center"@.len() != "justify"@.len());
    assert("center"@.len() != "left"@.len());
    assert("center"@[0] != "middle"@[0]);
    assert("center"@.len() != "none"@.len());
    assert("center"@.len() != "outside"@.len());
    assert("center"@.len() != "parallel"@.len());
    assert("center"@.len() != "right"@.len());
    assert("center"@.len() != "run-through"@.len());
    assert("center"@.len() != "top"@.len());
    assert("dynamic"@.len() != "from-inside"@.len());
    assert("dynamic"@.len() != "from-left"@.len());
    assert("dynamic"@.len() != "inside"@.len());
    assert("dynamic"@[0] != "justify"@[0]);
    assert("dynamic"@.len() != "left"@.len());
    assert("dynamic"@.len() != "middle"@.len());
    assert("dynamic"@.len() != "none"@.len());
    assert("dynamic"@[0] != "outside"@[0]);
    assert("dynamic"@.len() != "parallel"@.len());
    assert("dynamic"@.len() != "right"@.len());
    assert("dynamic"@.len() != "run-through"@.len());
    assert("dynamic"@.len() != "top"@.len());
    assert("from-inside"@.len() != "from-left"@.len());
    assert("from-inside"@.len() != "inside"@.len());
    assert("from-inside"@.len() != "justify"@.len());
    assert("from-inside"@.len() != "left"@.len());
    assert("from-inside"@.len() != "middle"@.len());
    assert("from-inside"@.len() != "none"@.len());
    assert("from-inside"@.len() != "outside"@.len());
    assert("from-inside"@.len() != "parallel"@.len());
    assert("from-inside"@.len() != "right"@.len());
    assert("from-inside"@[0] != "run-through"@[0]);
    assert("from-inside"@.len() != "top"@.len());
    assert("from-left"@.len() != "inside"@.len());
    assert("from-left"@.len() != "justify"@.len());
    assert("from-left"@.len() != "left"@.len());
    assert("from-left"@.len() != "middle"@.len());
    assert("from-left"@.len() != "none"@.len());
    assert("from-left"@.len() != "outside"@.len());
    assert("from-left"@.len() != "parallel"@.len());
    assert("from-left"@.len() != "right"@.len());
    assert("from-left"@.len() != "run-through"@.len());
    assert("from-left"@.len() != "top"@.len());
    assert("inside"@.len() != "justify"@.len());
    assert("inside"@.len() != "left"@.len());
    assert("inside"@[0] != "middle"@[0]);
    assert("inside"@.len() != "none"@.len());
    assert("inside"@.len() != "outside"@.len());
    assert("inside"@.len() != "parallel"@.len());
    assert("inside"@.len() != "right"@.len());
    assert("inside"@.len() != "run-through"@.len());
    assert("inside"@.len() != "top"@.len());
    assert("justify"@.len() != "left"@.len());
    assert("justify"@.len() != "middle"@.len());
    assert("justify"@.len() != "none"@.len());
    assert("justify"@[0] != "outside"@[0]);
    assert("justify"@.len() != "parallel"@.len());
    assert("justify"@.len() != "right"@.len());
    assert("justify"@.len() != "run-through"@.len());
    assert("justify"@.len() != "top"@.len());
    assert("left"@.len() != "middle"@.len());
    assert("left"@[0] != "none"@[0]);
    assert("left"@.len() != "outside"@.len());
    assert("left"@.len() != "parallel"@.len());
    assert("left"@.len() != "right"@.len());
    assert("left"@.len() != "run-through"@.len());
    assert("left"@.len() != "top"@.len());
    assert("middle"@.len() != "none"@.len());
    assert("middle"@.len() != "outside"@.len());
    assert("middle"@.len() != "parallel"@.len());
    assert("middle"@.len() != "right"@.len());
    assert("middle"@.len() != "run-through"@.len());
    assert("middle"@.len() != "top"@.len());
    assert("none"@.len() != "outside"@.len());
    assert("none"@.len() != "parallel"@.len());
    assert("none"@.len() != "right"@.len());
    assert("none"@.len() != "run-through"@.len());
    assert("none"@.len() != "top"@.len());
    assert("outside"@.len() != "parallel"@.len());
    assert("outside"@.len() != "right"@.len());
    assert("outside"@.len() != "run-through"@.len());
    assert("outside"@.len() != "top"@.len());
    assert("parallel"@.len() != "right"@.len());
    assert("parallel"@.len() != "run-through"@.len());
    assert("parallel"@.len() != "top"@.len());
    assert("right"@.len() != "run-through"@.len());
    assert("right"@.len() != "top"@.len());
    assert("run-through"@.len() != "top"@.len());
}

// ── chains ───────────────────────────────────────────────────────────────────

proof fn lemma_chain_aside(
    rows: Seq<(Seq<char>, RawView)>,
    f: Family,
    name: Seq<char>,
    seen: Seq<Seq<char>>,
    x: Seq<char>,
)
    requires
        !chain_names(rows, f, name, seen).contains(x),
        seen.len() + chain_names(rows, f, name, seen).len() < MAX_PARENT,
    ensures
        chain_names(rows, f, name, seq![x] + seen) == chain_names(rows, f, name, seen),
    decreases MAX_PARENT - seen.len(),
{
    let all = chain_names(rows, f, name, seen);
    let more = seq![x] + seen;
    if name.len() == 0 {
    } else if seen.contains(name) {
        let k = choose|k: int| 0 <= k < seen.len() && seen[k] == name;
        assert(more[k + 1] == name);
    } else if let Some(raw) = lookup(rows, style_key(f, name)) {
        let up = match raw.parent {
            Some(p) => p,
            None => Seq::empty(),
        };
        let rest = chain_names(rows, f, up, seen.push(name));
        assert(all[0] == name);
        assert(!rest.contains(x)) by {
            if rest.contains(x) {
                let k = choose|k: int| 0 <= k < rest.len() && rest[k] == x;
                assert(all[k + 1] == x);
            }
        }
        lemma_chain_aside(rows, f, up, seen.push(name), x);
        assert(seq![x] + seen.push(name) =~= more.push(name));
        if more.contains(name) {
            let k = choose|k: int| 0 <= k < more.len() && more[k] == name;
            if k > 0 {
                assert(seen[k - 1] == name);
            }
        }
    }
}

/// A style comes to what its parent comes to with its own statements over it, and so for the
/// master page and the number style that it names. This holds wherever the chain of parents
/// neither leads back nor is too long.
pub proof fn law_a_style_lies_over_its_parent(
    s: Store,
    f: Family,
    name: Seq<char>,
    own: RawView,
    parent: Seq<char>,
)
    requires
        name.len() > 0,
        lookup(s.styles, style_key(f, name)) == Some(own),
        own.parent == Some(parent),
        !chain_names(s.styles, f, parent, Seq::empty()).contains(name),
        chain_names(s.styles, f, parent, Seq::empty()).len() < 15,
    ensures
        s.resolved(f, name) == merged(s.resolved(f, parent), own.props),
        own.master is Some ==> chain_master(chain_of(s.styles, f, name)) == own.master,
        own.master is None ==> chain_master(chain_of(s.styles, f, name)) == chain_master(
            chain_of(s.styles, f, parent),
        ),
        own.data_style is Some ==> chain_data(chain_of(s.styles, f, name)) == own.data_style,
        own.data_style is None ==> chain_data(chain_of(s.styles, f, name)) == chain_data(
            chain_of(s.styles, f, parent),
        ),
{
    let rows = s.styles;
    lemma_chain_aside(rows, f, parent, Seq::empty(), name);
    assert(seq![name] + Seq::<Seq<char>>::empty() =~= Seq::<Seq<char>>::empty().push(name));
    let up = chain_names(rows, f, parent, Seq::empty());
    assert(chain_names(rows, f, name, Seq::empty()) =~= seq![name] + up);
    let chain = chain_of(rows, f, name);
    assert(chain[0] == own);
    assert(chain.skip(1) =~= chain_of(rows, f, parent));
    reveal(Store::resolved);
}

/// A style without a parent lies over its family's defaults, and what is no style at all
/// comes to the defaults alone.
pub proof fn law_a_chain_ends_with_the_defaults(
    s: Store,
    f: Family,
    name: Seq<char>,
    own: RawView,
)
    ensures
        name.len() > 0 && lookup(s.styles, style_key(f, name)) == Some(own) && own.parent is None
            ==> s.resolved(f, name) == merged(s.resolved(f, Seq::empty()), own.props),
        lookup(s.styles, style_key(f, name)) is None ==> s.resolved(f, name) == s.resolved(
            f,
            Seq::empty(),
        ),
        lookup(s.defaults, seq![letter(f)]) matches Some(d) ==> s.resolved(f, Seq::empty()) == d,
        lookup(s.defaults, seq![letter(f)]) is None ==> s.resolved(f, Seq::empty()) == unstated(),
{
    let rows = s.styles;
    reveal(Store::resolved);
    assert(chain_of(rows, f, Seq::empty()) =~= Seq::<RawView>::empty());
    if lookup(rows, style_key(f, name)) is None {
        assert(chain_of(rows, f, name) =~= Seq::<RawView>::empty());
    }
    if name.len() > 0 && lookup(rows, style_key(f, name)) == Some(own) && own.parent is None {
        let none = Seq::<Seq<char>>::empty();
        assert(chain_names(rows, f, Seq::empty(), none.push(name)) =~= none);
        assert(chain_names(rows, f, name, none) =~= seq![name]);
        let chain = chain_of(rows, f, name);
        assert(chain[0] == own);
        assert(chain.skip(1) =~= Seq::<RawView>::empty());
    }
}

/// What an element of a style container states of a family's defaults is what the family's
/// styles start from.
pub proof fn law_defaults_are_of_their_family(s: Store, e: Tree, f: Family)
    requires
        family_attr(e) == Some(f),
    ensures
        s.with_default(e).resolved(f, Seq::empty()) == props_of(e.elems(), s.faces),
        forall|g: Family|
            g != f ==> #[trigger] s.with_default(e).resolved(g, Seq::empty()) == s.resolved(
                g,
                Seq::empty(),
            ),
{
    let t = s.with_default(e);
    reveal(Store::resolved);
    assert(chain_of(t.styles, f, Seq::empty()) =~= Seq::<RawView>::empty());
    law_stored_is_found(s.defaults, seq![letter(f)], props_of(e.elems(), s.faces), seq![letter(f)]);
    assert forall|g: Family| g != f implies #[trigger] t.resolved(g, Seq::empty()) == s.resolved(
        g,
        Seq::empty(),
    ) by {
        assert(seq![letter(g)][0] != seq![letter(f)][0]);
        law_stored_is_found(
            s.defaults,
            seq![letter(f)],
            props_of(e.elems(), s.faces),
            seq![letter(g)],
        );
        assert(chain_of(t.styles, g, Seq::empty()) =~= Seq::<RawView>::empty());
    }
}

/// Each kind of property element fills its own bag and no other, and a later one takes the
/// place of one before it.
pub proof fn law_each_element_fills_its_bag(r: ResolvedView, v: Seq<Tree>, e: Tree, faces: Faces)
    ensures
        e.name == "text-properties"@
            ==> with_props(r, e, faces) == (Resolved { text: text_props_of(e, faces), ..r }),
        e.name != "text-properties"@ ==> with_props(r, e, faces).text == r.text,
        e.name == "paragraph-properties"@
            ==> with_props(r, e, faces) == (Resolved { para: para_props_of(e), ..r }),
        e.name != "paragraph-properties"@ ==> with_props(r, e, faces).para == r.para,
        e.name == "table-cell-properties"@
            ==> with_props(r, e, faces) == (Resolved { cell: cell_props_of(e), ..r }),
        e.name != "table-cell-properties"@ ==> with_props(r, e, faces).cell == r.cell,
        e.name == "table-column-properties"@
            ==> with_props(r, e, faces) == (Resolved { column: column_props_of(e), ..r }),
        e.name != "table-column-properties"@ ==> with_props(r, e, faces).column == r.column,
        e.name == "table-row-properties"@
            ==> with_props(r, e, faces) == (Resolved { row: row_props_of(e), ..r }),
        e.name != "table-row-properties"@ ==> with_props(r, e, faces).row == r.row,
        e.name == "table-properties"@
            ==> with_props(r, e, faces) == (Resolved { table: table_props_of(e), ..r }),
        e.name != "table-properties"@ ==> with_props(r, e, faces).table == r.table,
        e.name == "graphic-properties"@
            ==> with_props(r, e, faces) == (Resolved { graphic: graphic_props_of(e), ..r }),
        e.name != "graphic-properties"@ ==> with_props(r, e, faces).graphic == r.graphic,
        e.name == "drawing-page-properties"@
            ==> with_props(r, e, faces)
            == (Resolved { page: DrawPageProps { fill: fill_props_of(e) }, ..r }),
        e.name != "drawing-page-properties"@ ==> with_props(r, e, faces).page == r.page,
        props_of(v.push(e), faces) == with_props(props_of(v, faces), e, faces),
        props_of(Seq::empty(), faces) == unstated(),
{
    reveal_strlit("drawing-page-properties");
    reveal_strlit("graphic-properties");
    reveal_strlit("paragraph-properties");
    reveal_strlit("table-cell-properties");
    reveal_strlit("table-column-properties");
    reveal_strlit("table-properties");
    reveal_strlit("table-row-properties");
    reveal_strlit("text-properties");
    assert("drawing-page-properties"@.len() != "graphic-properties"@.len());
    assert("drawing-page-properties"@.len() != "paragraph-properties"@.len());
    assert("drawing-page-properties"@.len() != "table-cell-properties"@.len());
    assert("drawing-page-properties"@[0] != "table-column-properties"@[0]);
    assert("drawing-page-properties"@.len() != "table-properties"@.len());
    assert("drawing-page-properties"@.len() != "table-row-properties"@.len());
    assert("drawing-page-properties"@.len() != "text-properties"@.len());
    assert("graphic-properties"@.len() != "paragraph-properties"@.len());
    assert("graphic-properties"@.len() != "table-cell-properties"@.len());
    assert("graphic-properties"@.len() != "table-column-properties"@.len());
    assert("graphic-properties"@.len() != "table-properties"@.len());
    assert("graphic-properties"@.len() != "table-row-properties"@.len());
    assert("graphic-properties"@.len() != "text-properties"@.len());
    assert("paragraph-properties"@.len() != "table-cell-properties"@.len());
    assert("paragraph-properties"@.len() != "table-column-properties"@.len());
    assert("paragraph-properties"@.len() != "table-properties"@.len());
    assert("paragraph-properties"@[0] != "table-row-properties"@[0]);
    assert("paragraph-properties"@.len() != "text-properties"@.len());
    assert("table-cell-properties"@.len() != "table-column-properties"@.len());
    assert("table-cell-properties"@.len() != "table-properties"@.len());
    assert("table-cell-properties"@.len() != "table-row-properties"@.len());
    assert("table-cell-properties"@.len() != "text-properties"@.len());
    assert("table-column-properties"@.len() != "table-properties"@.len());
    assert("table-column-properties"@.len() != "table-row-properties"@.len());
    assert("table-column-properties"@.len() != "text-properties"@.len());
    assert("table-properties"@.len() != "table-row-properties"@.len());
    assert("table-properties"@.len() != "text-properties"@.len());
    assert("table-row-properties"@.len() != "text-properties"@.len());
    assert(v.push(e).drop_last() =~= v);
}

/// The family that each word names.
pub proof fn law_families_by_name(e: Tree)
    ensures
        family_attr(e) == Some(Family::Text) <==> e.attr("family"@) == Some("text"@),
        family_attr(e) == Some(Family::Paragraph) <==> e.attr("family"@) == Some("paragraph"@),
        family_attr(e) == Some(Family::Graphic) <==> e.attr("family"@) == Some("graphic"@),
        family_attr(e) == Some(Family::Presentation)
            <==> e.attr("family"@) == Some("presentation"@),
        family_attr(e) == Some(Family::DrawingPage) <==> e.attr("family"@) == Some("drawing-page"@),
        family_attr(e) == Some(Family::Table) <==> e.attr("family"@) == Some("table"@),
        family_attr(e) == Some(Family::TableColumn) <==> e.attr("family"@) == Some("table-column"@),
        family_attr(e) == Some(Family::TableRow) <==> e.attr("family"@) == Some("table-row"@),
        family_attr(e) == Some(Family::TableCell) <==> e.attr("family"@) == Some("table-cell"@),
{
    reveal_strlit("drawing-page");
    reveal_strlit("graphic");
    reveal_strlit("paragraph");
    reveal_strlit("presentation");
    reveal_strlit("table");
    reveal_strlit("table-cell");
    reveal_strlit("table-column");
    reveal_strlit("table-row");
    reveal_strlit("text");
    assert("drawing-page"@.len() != "graphic"@.len());
    assert("drawing-page"@.len() != "paragraph"@.len());
    assert("drawing-page"@[0] != "presentation"@[0]);
    assert("drawing-page"@.len() != "table"@.len());
    assert("drawing-page"@.len() != "table-cell"@.len());
    assert("drawing-page"@[0] != "table-column"@[0]);
    assert("drawing-page"@.len() != "table-row"@.len());
    assert("drawing-page"@.len() != "text"@.len());
    assert("graphic"@.len() != "paragraph"@.len());
    assert("graphic"@.len() != "presentation"@.len());
    assert("graphic"@.len() != "table"@.len());
    assert("graphic"@.len() != "table-cell"@.len());
    assert("graphic"@.len() != "table-column"@.len());
    assert("graphic"@.len() != "table-row"@.len());
    assert("graphic"@.len() != "text"@.len());
    assert("paragraph"@.len() != "presentation"@.len());
    assert("paragraph"@.len() != "table"@.len());
    assert("paragraph"@.len() != "table-cell"@.len());
    assert("paragraph"@.len() != "table-column"@.len());
    assert("paragraph"@[0] != "table-row"@[0]);
    assert("paragraph"@.len() != "text"@.len());
    assert("presentation"@.len() != "table"@.len());
    assert("presentation"@.len() != "table-cell"@.len());
    assert("presentation"@[0] != "table-column"@[0]);
    assert("presentation"@.len() != "table-row"@.len());
    assert("presentation"@.len() != "text"@.len());
    assert("table"@.len() != "table-cell"@.len());
    assert("table"@.len() != "table-column"@.len());
    assert("table"@.len() != "table-row"@.len());
    assert("table"@.len() != "text"@.len());
    assert("table-cell"@.len() != "table-column"@.len());
    assert("table-cell"@.len() != "table-row"@.len());
    assert("table-cell"@.len() != "text"@.len());
    assert("table-column"@.len() != "table-row"@.len());
    assert("table-column"@.len() != "text"@.len());
    assert("table-row"@.len() != "text"@.len());
}

/// A weight by word, and by number: 600 and more is bold, less is not.
pub proof fn law_weights(v: Seq<char>)
    ensures
        weight_of(v) == Some(true) && number_of(trimmed(v)) is None ==> trimmed(v) == "bold"@
            || trimmed(v) == "bolder"@,
        trimmed(v) == "bold"@ || trimmed(v) == "bolder"@ ==> weight_of(v) == Some(true),
        trimmed(v) == "normal"@ || trimmed(v) == "lighter"@ ==> weight_of(v) == Some(false),
        trimmed(v) != "bold"@ && trimmed(v) != "bolder"@ && trimmed(v) != "normal"@ && trimmed(v)
            != "lighter"@ ==> {
            &&& weight_of(v) is Some <==> number_of(trimmed(v)) is Some
            &&& number_of(trimmed(v)) matches Some(n) ==> n is Finite ==> n.value() >= 600_000_000
                ==> weight_of(v) == Some(true)
            &&& number_of(trimmed(v)) matches Some(n) ==> n is Finite ==> n.value() < 599_000_000
                ==> weight_of(v) == Some(false)
        },
{
    reveal_strlit("bold");
    reveal_strlit("bolder");
    reveal_strlit("lighter");
    reveal_strlit("normal");
    assert("bold"@.len() != "bolder"@.len());
    assert("bold"@.len() != "lighter"@.len());
    assert("bold"@.len() != "normal"@.len());
    assert("bolder"@.len() != "lighter"@.len());
    assert("bolder"@[0] != "normal"@[0]);
    assert("lighter"@.len() != "normal"@.len());
}

/// The first word of a position raises or lowers the text.
pub proof fn law_positions(v: Seq<char>)
    requires
        words_from(v, 0).len() > 0,
    ensures
        words_from(v, 0)[0] == "super"@ ==> position_of(v) == Some(Position::Super),
        words_from(v, 0)[0] == "sub"@ ==> position_of(v) == Some(Position::Sub),
        percent_of(words_from(v, 0)[0]) matches Some(p) ==> words_from(v, 0)[0] != "super"@
            ==> words_from(v, 0)[0] != "sub"@ ==> {
            &&& p > 0 ==> position_of(v) == Some(Position::Super)
            &&& p < 0 ==> position_of(v) == Some(Position::Sub)
            &&& p == 0 ==> position_of(v) == Some(Position::Baseline)
        },
{
    reveal_strlit("sub");
    reveal_strlit("super");
    assert("sub"@.len() != "super"@.len());
}

// ── from properties to paragraphs and runs ───────────────────────────────────

/// A run has each quality that its properties state, and no other.
pub proof fn law_a_run_has_what_is_stated(text: Seq<char>, t: TextPropsView, base: Px)
    ensures
        ({
            let r = text_run_of(text, t, base);
            &&& r.text == text
            &&& r.bold <==> t.bold == Some(true)
            &&& r.italic <==> t.italic == Some(true)
            &&& r.underline <==> t.underline == Some(true)
            &&& r.strike <==> t.strike == Some(true)
            &&& r.caps == Some(Caps::All) <==> t.caps == Some(true)
            &&& r.caps == Some(Caps::Small) <==> t.caps != Some(true) && t.small_caps == Some(true)
            &&& r.script == Some(Script::Super) <==> t.position == Some(Position::Super)
            &&& r.script == Some(Script::Sub) <==> t.position == Some(Position::Sub)
            &&& r.highlight == t.highlight
            &&& r.font == t.font
            &&& r.link is None
            &&& forall|c: Color| t.color == Some(ColorVal::Of(c)) <==> r.color == Some(c)
            &&& t.color is None || t.color == Some(ColorVal::Auto) ==> r.color is None
            &&& t.letter_spacing_pt matches Some(v) ==> r.letter_spacing_pt == v
            &&& t.letter_spacing_pt is None ==> r.letter_spacing_pt == 0
            &&& t.size is None ==> r.size_pt == base
            &&& forall|v: Px|
                508_000_000 <= v <= 1_016_000_000_000 && t.size == Some(FontSize::Pt(v))
                    ==> #[trigger] same(v) == r.size_pt
        }),
        t.size == Some(FontSize::Percent(100_000_000)) && 508_000_000 <= base
            <= 1_016_000_000_000 ==> text_run_of(text, t, base).size_pt == base,
        t.size == Some(FontSize::Percent(50_000_000)) && 1_016_000_000 <= base
            <= 1_016_000_000_000 ==> text_run_of(text, t, base).size_pt == base / 2,
{
}

/// A length as it is.
pub open spec fn same(v: Px) -> Px {
    v
}

/// A paragraph has what its properties state; what they do not state is nothing.
pub proof fn law_a_paragraph_has_what_is_stated(p: ParaPropsView, base: Px, heading: Option<u8>)
    ensures
        ({
            let r = para_of(p, base, heading);
            &&& r.runs.len() == 0
            &&& r.marker is None
            &&& r.size_pt == base
            &&& r.heading == heading
            &&& r.align == p.align
            &&& r.shade == p.background
            &&& r.rtl <==> p.rtl == Some(true)
            &&& p.indent_px matches Some(v) ==> r.indent_px == v
            &&& p.indent_px is None ==> r.indent_px == 0
            &&& p.indent_end_px matches Some(v) ==> r.indent_end_px == v
            &&& p.indent_end_px is None ==> r.indent_end_px == 0
            &&& p.space_before_px matches Some(v) ==> r.space_before_px == v
            &&& p.space_before_px is None ==> r.space_before_px == 0
            &&& p.space_after_px matches Some(v) ==> r.space_after_px == v
            &&& p.space_after_px is None ==> r.space_after_px == 0
            &&& p.auto_text_indent == Some(true) || p.first_line_px is None ==> r.first_line_px == 0
            &&& p.auto_text_indent != Some(true) ==> (p.first_line_px matches Some(v)
                ==> r.first_line_px == v)
            &&& p.borders.top matches Some(Edge::Line(b)) ==> (r.borders.top matches Some(x)
                && x.width_px == b.width_px && x.style == Some(b.style) && x.color == b.color)
            &&& p.borders.right matches Some(Edge::Line(b)) ==> (r.borders.right matches Some(x)
                && x.width_px == b.width_px && x.style == Some(b.style) && x.color == b.color)
            &&& p.borders.bottom matches Some(Edge::Line(b)) ==> (r.borders.bottom matches Some(x)
                && x.width_px == b.width_px && x.style == Some(b.style) && x.color == b.color)
            &&& p.borders.left matches Some(Edge::Line(b)) ==> (r.borders.left matches Some(x)
                && x.width_px == b.width_px && x.style == Some(b.style) && x.color == b.color)
            &&& p.borders.top is None || p.borders.top == Some(Edge::Nothing)
                ==> r.borders.top is None
            &&& p.borders.right is None || p.borders.right == Some(Edge::Nothing)
                ==> r.borders.right is None
            &&& p.borders.bottom is None || p.borders.bottom == Some(Edge::Nothing)
                ==> r.borders.bottom is None
            &&& p.borders.left is None || p.borders.left == Some(Edge::Nothing)
                ==> r.borders.left is None
        }),
{
}

/// A line is as tall as is stated: a share of a single line, exactly so much, so much at
/// least, or so much more than a single line of the paragraph's size.
pub proof fn law_lines_are_as_tall_as_stated(v: Px, base: Px)
    requires
        381_000_000 <= v <= 804_672_000_000,
        508_000_000 <= base <= 1_016_000_000_000,
    ensures
        line_of(Some(LineSpec::Fixed(v)), base) == LineHeight::Exact(v),
        line_of(Some(LineSpec::AtLeast(v)), base) == LineHeight::AtLeast(v),
        line_of(None, base) == line_of(Some(LineSpec::Proportional(100_000_000)), base),
        line_of(Some(LineSpec::Proportional(100_000_000)), base) == LineHeight::Multiple(
            120_000_000,
        ),
        line_of(Some(LineSpec::Proportional(200_000_000)), base) == LineHeight::Multiple(
            240_000_000,
        ),
        line_of(Some(LineSpec::Leading(v)), base) matches LineHeight::Exact(h) && h == base + base
            / 5 + v,
{
}

/// A fill by its kind: none is a fill too, and a colour fills unless its kind says
/// otherwise. Opacity thins it.
pub proof fn law_fills(f: FillProps)
    ensures
        f.kind == Some(FillKind::Empty) ==> f.value() == Some(Fill::Empty),
        f.kind == Some(FillKind::Unsupported) ==> f.value() is None,
        f.kind is None || f.kind == Some(FillKind::Solid) ==> (f.value() is Some <==> f.color
            is Some),
        f.kind is None || f.kind == Some(FillKind::Solid) ==> (f.color matches Some(c) ==> f.value()
            matches Some(Fill::Solid(x)) && x.rgb == c.rgb && (f.opacity is None ==> x == c) && (
        f.opacity == Some(100_000_000i64) && c.alpha <= 100_000_000 ==> x == c) && (f.opacity
            == Some(0i64) ==> x.alpha == 0)),
{
    if let Some(c) = f.color {
        let v = c.alpha as int;
        assert(v * 100_000_000 / 100_000_000 == v);
        assert(v * 0 == 0);
        assert(0int / 100_000_000 == 0);
        if f.opacity == Some(100_000_000i64) && c.alpha <= 100_000_000 {
            assert(share(v, 100_000_000) == v);
            assert(faded(c, f.opacity).alpha == c.alpha);
        }
        if f.opacity == Some(0i64) {
            assert(share(v, 0) == 0);
        }
    }
}

/// An outline by its kind: none is an outline without paint, and one without a colour or a
/// width is black and a pixel wide.
pub proof fn law_outlines(s: StrokeProps)
    ensures
        s.kind is None <==> s.value() is None,
        s.value() matches Some(l) ==> {
            &&& l.fill == Fill::Empty <==> s.kind == Some(StrokeKind::Empty)
            &&& l.dash == Dash::Dashed <==> s.kind == Some(StrokeKind::Dash)
            &&& s.width_px matches Some(w) ==> l.width_px == w
            &&& s.width_px is None ==> l.width_px == 381_000_000
            &&& s.cap matches Some(c) ==> l.cap == c
            &&& s.cap is None ==> l.cap == Cap::Flat
            &&& s.kind != Some(StrokeKind::Empty) ==> (s.color matches Some(c) ==> l.fill
                == Fill::Solid(c))
            &&& s.kind != Some(StrokeKind::Empty) && s.color is None
                ==> (l.fill matches Fill::Solid(c)
                && c.rgb == 0 && c.alpha == OPAQUE)
        },
{
}

} // verus!
