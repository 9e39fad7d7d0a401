//! Paragraphs and their HTML.

use odf_preview::color::Color;
use odf_preview::highlight::{Marker, Terms};
use odf_preview::html::Writer;
use odf_preview::model::{
    emit_paras, Align, Border, Borders, Break, Caps, Graphic, HtmlStyle, LineHeight, ListMarker,
    Para, Run, Script, Side, TextRun,
};
use odf_preview::odf::length::BorderStyle;

fn px(v: f64) -> i64 {
    (v * 381_000_000.0).round() as i64
}

fn pt(v: f64) -> i64 {
    (v * 508_000_000.0).round() as i64
}

fn ratio(v: f64) -> i64 {
    (v * 100_000_000.0).round() as i64
}

const ST: HtmlStyle = HtmlStyle {
    para_class: "p",
    list_class: "p li",
    marker_class: "bu",
    text_class: "tx",
    break_class: "",
    img_class: "",
    graphic_class: "",
    scalable: false,
};

fn run(text: &str) -> Run {
    Run::Text(TextRun {
        text: text.to_string(),
        size_pt: pt(18.0),
        ..Default::default()
    })
}

fn para(runs: Vec<Run>) -> Para {
    Para {
        runs,
        size_pt: pt(18.0),
        ..Default::default()
    }
}

fn html(paras: &[Para], st: &HtmlStyle) -> String {
    let mut w = Writer::new(1 << 16);
    let mut hl = Marker::new();
    emit_paras(&mut w, paras, st, &mut hl, &Terms::new(&[]));
    w.finish()
}

#[test]
fn a_plain_paragraph_states_only_its_size() {
    assert_eq!(
        html(&[para(vec![run("café")])], &ST),
        "<p class=\"p\" style=\"font-size:24px;\">café</p>"
    );
}

#[test]
fn run_formatting_lands_on_a_span_and_defaults_do_not() {
    let mut t = TextRun {
        text: "naïve".to_string(),
        size_pt: pt(24.0),
        bold: true,
        italic: true,
        underline: true,
        strike: true,
        color: Some(Color::from_rgb(0x00FF00)),
        font: Some("Widget Sans, sans-serif".to_string()),
        caps: Some(Caps::All),
        letter_spacing_pt: pt(1.5),
        script: Some(Script::Super),
        highlight: None,
        link: None,
    };
    let out = html(&[para(vec![Run::Text(t.clone())])], &ST);
    assert!(out.contains("font-size:32px;"), "{out}");
    assert!(out.contains("font-weight:700;font-style:italic;"), "{out}");
    assert!(out.contains("text-decoration:underline line-through;"), "{out}");
    assert!(out.contains("color:#00ff00;"), "{out}");
    assert!(out.contains("text-transform:uppercase;"), "{out}");
    assert!(out.contains("letter-spacing:2px;"), "{out}");
    // Super/subscript is an alignment *and* a size.
    assert!(out.contains("vertical-align:super;font-size:0.65em;"), "{out}");

    // A run that states nothing but its (inherited) size needs no span at all.
    t = TextRun {
        text: "café".to_string(),
        size_pt: pt(18.0),
        ..Default::default()
    };
    assert_eq!(
        html(&[para(vec![Run::Text(t)])], &ST),
        "<p class=\"p\" style=\"font-size:24px;\">café</p>"
    );
}

#[test]
fn a_marker_hangs_in_the_first_line_indent() {
    let p = Para {
        marker: Some(ListMarker {
            label: "1.".to_string(),
            color: Some(Color::from_rgb(0xFF0000)),
            font: Some("Widget Sans, sans-serif".to_string()),
            size_pt: Some(pt(9.0)),
        }),
        indent_px: px(36.0),
        first_line_px: px(-36.0),
        ..para(vec![run("café")])
    };
    let out = html(&[p.clone()], &ST);
    // marL + a full hang cancel out, so the block starts at the box edge and
    // the marker occupies the hang.
    assert!(out.starts_with("<p class=\"p li\" style=\"font-size:24px;\">"), "{out}");
    assert!(
        out.contains("<span class=\"bu\" style=\"width:36px;color:#ff0000;\
font-family:Widget Sans, sans-serif;font-size:12px;\">1.</span>"),
        "{out}"
    );
    assert!(out.contains("<span class=\"tx\">café</span>"), "{out}");

    // No hang: the marker cannot be given a width, so it takes a gap.
    let flat = Para {
        first_line_px: px(0.0),
        indent_px: px(0.0),
        ..p
    };
    assert!(
        html(&[flat], &ST).contains("style=\"padding-right:0.3em;"),
        "no fallback gap"
    );
}

#[test]
fn an_unmarked_paragraph_spells_its_indent_as_margin_and_text_indent() {
    let p = Para {
        indent_px: px(48.0),
        first_line_px: px(-24.0),
        ..para(vec![run("café")])
    };
    assert!(
        html(&[p], &ST).contains("margin-left:48px;text-indent:-24px;"),
        "indent not split"
    );
}

#[test]
fn line_height_states_only_what_differs_from_a_single_line() {
    let with = |line| html(&[Para { line, ..para(vec![run("x")]) }], &ST);
    assert!(!with(LineHeight::default()).contains("line-height"));
    // Unitless, so a run larger than the paragraph resolves the ratio against
    // its own size instead of inheriting the paragraph's computed px — a 96px
    // title in a 16px paragraph writes over itself otherwise.
    assert!(with(LineHeight::Multiple(ratio(1.8))).contains("line-height:1.8;"));
    assert!(!with(LineHeight::Multiple(ratio(1.8))).contains("180%"));
    assert!(with(LineHeight::Exact(px(40.0))).contains("line-height:40px;"));
}

#[test]
fn a_ratio_line_height_survives_a_run_larger_than_its_paragraph() {
    // The shape of the odp title bug: the paragraph resolves to one size and
    // the run inside it to another.
    let big = TextRun {
        text: "Google Trends".to_string(),
        size_pt: pt(72.0),
        ..Default::default()
    };
    let out = html(
        &[Para {
            line: LineHeight::Multiple(ratio(1.068)),
            size_pt: pt(12.0),
            ..para(vec![Run::Text(big)])
        }],
        &ST,
    );
    // Two decimals is the writer's precision for every CSS number; on a 96px
    // run that is a quarter of a pixel.
    assert!(out.contains("line-height:1.07;"), "{out}");
    assert!(out.contains("font-size:96px"), "{out}");
}

#[test]
fn scalable_sizes_ride_the_fitting_variable() {
    let st = HtmlStyle { scalable: true, ..ST };
    let p = Para {
        line: LineHeight::Exact(px(30.0)),
        ..para(vec![Run::Text(TextRun {
            text: "café".to_string(),
            size_pt: pt(36.0),
            ..Default::default()
        })])
    };
    let out = html(&[p], &st);
    assert!(out.contains("font-size:calc(24px * var(--af, 1));"), "{out}");
    assert!(out.contains("line-height:calc(30px * var(--af, 1));"), "{out}");
    assert!(out.contains("font-size:calc(48px * var(--af, 1));"), "{out}");
}

#[test]
fn an_empty_paragraph_keeps_its_height_but_an_empty_run_does_not() {
    assert!(html(&[para(vec![])], &ST).contains('\u{00a0}'));
    // A paragraph whose runs are all empty is not a blank line: it holds no
    // text *and* no filler.
    assert_eq!(
        html(&[para(vec![run("")])], &ST),
        "<p class=\"p\" style=\"font-size:24px;\"></p>"
    );
    assert_eq!(
        html(&[para(vec![Run::Break(Break::Line)])], &ST),
        "<p class=\"p\" style=\"font-size:24px;\"><br></p>"
    );
}

#[test]
fn alignment_and_direction_reach_the_paragraph_box() {
    let p = Para {
        align: Some(Align::Justify),
        rtl: true,
        space_before_px: px(8.0),
        space_after_px: px(12.0),
        ..para(vec![run("café")])
    };
    let out = html(&[p], &ST);
    assert!(out.contains("text-align:justify;"), "{out}");
    assert!(out.contains("margin-top:8px;margin-bottom:12px;"), "{out}");
    assert!(out.contains("direction:rtl;"), "{out}");
}

#[test]
fn a_tab_run_emits_a_literal_tab() {
    // Not `&#9;` and not spaces: `tab-size` only acts on U+0009.
    assert_eq!(
        html(&[para(vec![run("café"), Run::Tab, run("naïve")])], &ST),
        "<p class=\"p\" style=\"font-size:24px;\">café\tnaïve</p>"
    );
}

#[test]
fn page_and_column_breaks_take_a_class_and_degrade_without_one() {
    let st = HtmlStyle { break_class: "pb", ..ST };
    let out = html(
        &[para(vec![Run::Break(Break::Page), Run::Break(Break::Column)])],
        &st,
    );
    assert_eq!(
        out,
        "<p class=\"p\" style=\"font-size:24px;\"><br class=\"pb\"><br class=\"pb\"></p>"
    );
    // A line break never takes the class, and a renderer with no rule for
    // pagination gets a plain break for all three kinds.
    assert!(html(&[para(vec![Run::Break(Break::Line)])], &st).contains("<br>"));
    assert!(html(&[para(vec![Run::Break(Break::Page)])], &ST).contains("<br>"));
}

#[test]
fn a_run_highlight_paints_behind_the_span() {
    let t = TextRun {
        text: "Widget".to_string(),
        size_pt: pt(18.0),
        highlight: Some(Color::from_rgb(0xFFFF00)),
        ..Default::default()
    };
    assert_eq!(
        html(&[para(vec![Run::Text(t)])], &ST),
        "<p class=\"p\" style=\"font-size:24px;\">\
<span style=\"background-color:#ffff00;\">Widget</span></p>"
    );
}

#[test]
fn paragraph_shade_and_borders_paint_the_box() {
    let edge = Border {
        width_px: px(2.0),
        style: Some(BorderStyle::Dashed),
        color: Some(Color::from_rgb(0x0000FF)),
        space_px: px(4.0),
    };
    let p = Para {
        shade: Some(Color::from_rgb(0xEEEEEE)),
        borders: Borders {
            top: Some(edge),
            // No colour: the edge follows the text colour. No space either.
            bottom: Some(Border { color: None, space_px: px(0.0), ..edge }),
            ..Default::default()
        },
        ..para(vec![run("café")])
    };
    let out = html(&[p], &ST);
    assert!(out.contains("background-color:#eeeeee;"), "{out}");
    assert!(out.contains("border-top:2px dashed #0000ff;padding-top:4px;"), "{out}");
    assert!(out.contains("border-bottom:2px dashed;"), "{out}");
    assert!(!out.contains("padding-bottom"), "{out}");
    assert!(!out.contains("border-left") && !out.contains("border-right"), "{out}");
}

#[test]
fn a_zero_or_unmeasurable_border_paints_nothing() {
    // `border-top:0px solid` would still reset the stylesheet's edge, so an
    // absent border must emit no declaration at all — as must a poisoned one.
    let with = |b: Border| {
        html(
            &[Para {
                borders: Borders { top: Some(b), ..Default::default() },
                ..para(vec![run("café")])
            }],
            &ST,
        )
    };
    let base = Border { width_px: px(1.0), style: Some(BorderStyle::Solid), color: None, space_px: px(8.0) };
    assert!(!with(Border { width_px: px(0.0), ..base }).contains("border"));
    assert!(!with(Border { width_px: px(-1.0), ..base }).contains("border"));
        // An unstated style is still a border.
    assert!(with(Border { style: None, ..base }).contains("border-top:1px solid;padding-top:8px;"));
}

#[test]
fn at_least_line_height_keeps_the_single_line_floor_in_css() {
    let with = |line| html(&[Para { line, ..para(vec![run("x")]) }], &ST);
    assert!(with(LineHeight::AtLeast(px(30.0))).contains("line-height:max(30px, 1.2em);"));
    let st = HtmlStyle { scalable: true, ..ST };
    assert!(html(&[Para { line: LineHeight::AtLeast(px(30.0)), ..para(vec![run("x")]) }], &st)
        .contains("line-height:max(calc(30px * var(--af, 1)), 1.2em);"));
}

#[test]
fn a_trailing_indent_becomes_a_right_margin() {
    let p = Para {
        indent_px: px(48.0),
        indent_end_px: px(24.0),
        ..para(vec![run("café")])
    };
    assert!(
        html(&[p], &ST).contains("margin-left:48px;margin-right:24px;"),
        "trailing indent missing"
    );
    // Zero states nothing, like the leading indent.
    assert!(!html(&[para(vec![run("café")])], &ST).contains("margin-right"));
}

#[test]
fn a_heading_changes_the_element_and_nothing_else() {
    let base = Para {
        align: Some(Align::Center),
        ..para(vec![run("café")])
    };
    // Every class and style decision is the paragraph's either way, so the
    // only difference from a `p` is the tag.
    let plain = html(&[base.clone()], &ST);
    assert_eq!(plain, "<p class=\"p\" style=\"text-align:center;font-size:24px;\">café</p>");
    for lvl in 1..=6u8 {
        let out = html(&[Para { heading: Some(lvl), ..base.clone() }], &ST);
        assert_eq!(out, plain.replacen("<p ", &format!("<h{lvl} "), 1).replace("</p>", &format!("</h{lvl}>")));
    }
    // Levels with no element stay a `p`, and so does `None`.
    assert_eq!(html(&[Para { heading: Some(7), ..base.clone() }], &ST), plain);
    assert_eq!(html(&[Para { heading: Some(0), ..base }], &ST), plain);
}

#[test]
fn a_graphic_run_is_an_image_in_the_line() {
    let st = HtmlStyle { img_class: "im", graphic_class: "gp", ..ST };
    let g = Graphic {
        src: Some("data:image/png;base64,AAAA".to_string()),
        w_px: px(96.0),
        h_px: px(48.0),
        label: "café \"naïve\"".to_string(),
        float: None,
    };
    let out = html(&[para(vec![run("a "), Run::Graphic(g.clone())])], &st);
    assert!(out.contains("<img class=\"im\" src=\"data:image/png;base64,AAAA\""), "{out}");
    // The label is the alt text, escaped as an attribute value.
    assert!(out.contains("alt=\"café &quot;naïve&quot;\""), "{out}");
    assert!(out.contains("style=\"width:96px;height:48px;\">"), "{out}");

    // No `src`: the same box as a dashed span, carrying the label as text.
    let ph = Graphic { src: None, ..g };
    let out = html(&[para(vec![Run::Graphic(ph)])], &st);
    assert!(
        out.contains("<span class=\"gp\" style=\"width:96px;height:48px;\">café \"naïve\"</span>"),
        "{out}"
    );
}

#[test]
fn a_floated_graphic_states_its_side_and_a_gap() {
    let g = |float| {
        Run::Graphic(Graphic {
            src: Some("data:image/png;base64,AAAA".to_string()),
            w_px: px(64.0),
            h_px: px(64.0),
            label: String::new(),
            float,
        })
    };
    let left = html(&[para(vec![g(Some(Side::Left))])], &ST);
    assert!(left.contains("float:left;margin:0 8px 4px 0;"), "{left}");
    let right = html(&[para(vec![g(Some(Side::Right))])], &ST);
    assert!(right.contains("float:right;margin:0 0 4px 8px;"), "{right}");
    // A renderer with no class for the box emits no `class` attribute at all.
    assert!(html(&[para(vec![g(None)])], &ST).contains("<img src="), "{right}");
    assert!(!html(&[para(vec![g(None)])], &ST).contains("class=\"\""), "{right}");
}

#[test]
fn a_link_wraps_its_run_and_states_where_it_points() {
    let t = TextRun {
        text: "example.org".to_string(),
        size_pt: pt(18.0),
        underline: true,
        color: Some(Color::from_rgb(0x0563C1)),
        link: Some("https://example.org/?a=1&b=2".to_string()),
        ..Default::default()
    };
    let out = html(&[para(vec![Run::Text(t.clone())])], &ST);
    // The destination is escaped as an attribute value in both places, and the
    // styled span sits *inside* the anchor.
    assert!(
        out.contains(
            "<a href=\"https://example.org/?a=1&amp;b=2\" \
title=\"https://example.org/?a=1&amp;b=2\"><span style=\""
        ),
        "{out}"
    );
    assert!(out.contains(">example.org</span></a>"), "{out}");

    // A run with no style of its own still closes its anchor.
    let plain = TextRun { underline: false, color: None, ..t };
    let out = html(&[para(vec![Run::Text(plain)])], &ST);
    assert!(out.ends_with("\">example.org</a></p>"), "{out}");
    assert!(!out.contains("<span"), "{out}");

    // An anchor is a position, not text: nothing but the id.
    assert_eq!(
        html(&[para(vec![Run::Anchor("of-bm-Widget".to_string())])], &ST),
        "<p class=\"p\" style=\"font-size:24px;\"><span id=\"of-bm-Widget\"></span></p>"
    );
}

#[test]
fn query_terms_are_marked_inside_the_runs() {
    let mut w = Writer::new(1 << 16);
    let mut hl = Marker::new();
    let terms = Terms::new(&["café".to_string()]);
    emit_paras(&mut w, &[para(vec![run("a café here")])], &ST, &mut hl, &terms);
    let out = w.finish();
    assert!(out.contains("<mark class=\"preview-hl\""), "{out}");
    assert!(hl.best_mark_id().is_some());
}


#[test]
fn a_marker_of_its_own_size_is_fitted_with_the_rest() {
    let p = Para {
        marker: Some(ListMarker {
            label: "1.".to_string(),
            color: None,
            font: None,
            size_pt: Some(pt(9.0)),
        }),
        ..para(vec![run("café")])
    };
    let st = HtmlStyle { scalable: true, ..ST };
    assert!(html(&[p], &st).contains("font-size:calc(12px * var(--af, 1));\">1.</span>"));
}
