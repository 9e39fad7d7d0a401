//! Styles: their chains, their properties and the page.

use odf_preview::cellstyle::{Rotation, VAlign};
use odf_preview::color::{Color, OPAQUE};
use odf_preview::docshape::{MAX_MARGIN_PX, MIN_COLUMN_PX};
use odf_preview::fonts;
use odf_preview::model::{Align, Caps, LineHeight, Script};
use odf_preview::odf::length::{BorderStyle, Measure, PERCENT, PX};
use odf_preview::odf::style::store::{Styles, MAX_STYLES};
use odf_preview::odf::style::{
    size_pt, to_borders, to_para, to_text_run, ColorVal, Edge, Family, FillKind, FontSize,
    Position, Sides, TableAlign,
};
use odf_preview::html::Style;
use odf_preview::paint::{push_fill, push_line, Cap, Dash, Fill, Line};

fn px(v: f64) -> i64 {
    (v * 381_000_000.0).round() as i64
}

fn pt(v: f64) -> i64 {
    (v * 508_000_000.0).round() as i64
}

fn ratio(v: f64) -> i64 {
    (v * 100_000_000.0).round() as i64
}

fn fill_css(f: &Fill) -> String {
    let mut s = Style::new();
    push_fill(&mut s, *f);
    s.css.iter().collect()
}

fn line_css(l: &Line) -> String {
    let mut s = Style::new();
    push_line(&mut s, l);
    s.css.iter().collect()
}

const NO_SIDES: Sides = Sides { top: None, right: None, bottom: None, left: None };

/// Every prefix a fixture below uses. Declared on the root because the parser
/// rejects an undeclared one — and because the lookups are all by local name,
/// the URIs only have to be present, not correct per attribute.
const NS: &str = " xmlns:office=\"urn:oasis:names:tc:opendocument:xmlns:office:1.0\" \
    xmlns:style=\"urn:oasis:names:tc:opendocument:xmlns:style:1.0\" \
    xmlns:fo=\"urn:oasis:names:tc:opendocument:xmlns:xsl-fo-compatible:1.0\" \
    xmlns:text=\"urn:oasis:names:tc:opendocument:xmlns:text:1.0\" \
    xmlns:table=\"urn:oasis:names:tc:opendocument:xmlns:table:1.0\" \
    xmlns:draw=\"urn:oasis:names:tc:opendocument:xmlns:drawing:1.0\" \
    xmlns:svg=\"urn:oasis:names:tc:opendocument:xmlns:svg-compatible:1.0\"";

fn wrap(body: &str) -> String {
    format!("<office:document{NS}>{body}</office:document>")
}

/// A `styles.xml` body, with an empty `content.xml` beside it.
fn parse_styles(body: &str) -> Styles {
    Styles::parse(Some(&wrap(body)), &wrap(""))
}

/// Named styles only — the common case for these fixtures.
fn named(inner: &str) -> Styles {
    parse_styles(&format!("<office:styles>{inner}</office:styles>"))
}

/// Named styles in `styles.xml`, automatic styles in `content.xml`.
fn layered(named: &str, auto: &str) -> Styles {
    Styles::parse(
        Some(&wrap(&format!("<office:styles>{named}</office:styles>"))),
        &wrap(&format!("<office:automatic-styles>{auto}</office:automatic-styles>")),
    )
}

fn close(a: i64, want: f64) -> bool {
    (a as f64 / 381_000_000.0 - want).abs() < 0.01
}

fn close_pt(a: i64, want: f64) -> bool {
    (a as f64 / 508_000_000.0 - want).abs() < 0.01
}

/// The absolute size a bag resolved to.
fn size_of(size: Option<FontSize>) -> i64 {
    match size {
        Some(FontSize::Pt(v)) => v,
        other => panic!("expected an absolute size, got {other:?}"),
    }
}

// ── resolution ───────────────────────────────────────────────────────────

#[test]
fn a_three_deep_chain_merges_root_first() {
    let s = named(
        r##"<style:style style:family="paragraph" style:name="Root">
             <style:paragraph-properties fo:text-align="start" fo:margin-left="1cm"/>
             <style:text-properties fo:font-size="10pt" fo:font-style="italic"/>
           </style:style>
           <style:style style:family="paragraph" style:name="Mid"
                        style:parent-style-name="Root">
             <style:paragraph-properties fo:text-align="center"/>
             <style:text-properties fo:font-size="14pt"/>
           </style:style>
           <style:style style:family="paragraph" style:name="Leaf"
                        style:parent-style-name="Mid">
             <style:paragraph-properties fo:text-align="end"/>
           </style:style>"##,
    );
    let r = s.resolve(Family::Paragraph, "Leaf");
    // Leaf wins the alignment, Mid the size, Root keeps the indent and the
    // italic nobody overrode.
    assert_eq!(r.para.align, Some(Align::Right));
    assert!(close_pt(size_of(r.text.size), 14.0));
    assert!(close(r.para.indent_px.expect("indent survives"), 37.795));
    assert_eq!(r.text.italic, Some(true));
    // A name no style defines is not an error, and the family is part of the
    // key: the same name in another family resolves to nothing.
    assert_eq!(s.resolve(Family::Paragraph, "café").para.align, None);
    assert_eq!(s.resolve(Family::Text, "Leaf").para.align, None);
}

#[test]
fn a_parent_cycle_terminates() {
    let s = named(
        r##"<style:style style:family="paragraph" style:name="A" style:parent-style-name="C">
             <style:paragraph-properties fo:text-align="start"/></style:style>
           <style:style style:family="paragraph" style:name="B" style:parent-style-name="A">
             <style:text-properties fo:font-weight="bold"/></style:style>
           <style:style style:family="paragraph" style:name="C" style:parent-style-name="B">
             <style:paragraph-properties fo:text-align="center"/></style:style>
           <style:style style:family="paragraph" style:name="Self"
                        style:parent-style-name="Self">
             <style:text-properties fo:font-style="italic"/></style:style>"##,
    );
    // Every entry point of the cycle resolves, and each style in it still
    // contributes exactly once.
    for name in ["A", "B", "C"] {
        let r = s.resolve(Family::Paragraph, name);
        assert_eq!(r.text.bold, Some(true), "{name} lost B");
        assert!(r.para.align.is_some(), "{name} lost the alignment");
    }
    // A self-parented style is the degenerate cycle.
    assert_eq!(s.resolve(Family::Paragraph, "Self").text.italic, Some(true));
}

#[test]
fn a_missing_parent_ends_the_chain_without_losing_the_style() {
    let s = named(
        r##"<style:default-style style:family="paragraph">
             <style:text-properties fo:font-size="10pt"/></style:default-style>
           <style:style style:family="paragraph" style:name="Orphan"
                        style:parent-style-name="Gone">
             <style:paragraph-properties fo:text-align="center"/></style:style>"##,
    );
    let r = s.resolve(Family::Paragraph, "Orphan");
    assert_eq!(r.para.align, Some(Align::Center));
    // The family default is still the root of the chain.
    assert!(close_pt(size_of(r.text.size), 10.0));
}

#[test]
fn an_automatic_style_wins_a_name_collision() {
    let s = layered(
        r##"<style:style style:family="paragraph" style:name="P1">
             <style:paragraph-properties fo:text-align="start" fo:margin-top="1cm"/>
           </style:style>
           <style:style style:family="paragraph" style:name="Base">
             <style:text-properties fo:font-size="9pt"/></style:style>"##,
        r##"<style:style style:family="paragraph" style:name="P1"
                        style:parent-style-name="Base">
             <style:paragraph-properties fo:text-align="center"/></style:style>"##,
    );
    let r = s.resolve(Family::Paragraph, "P1");
    // The automatic style replaces the named one outright — it is a different
    // style that happens to share a name, not an override of it — so the
    // margin the named one stated is gone and its own parent applies instead.
    assert_eq!(r.para.align, Some(Align::Center));
    assert_eq!(r.para.space_before_px, None);
    assert!(close_pt(size_of(r.text.size), 9.0));
}

#[test]
fn a_default_style_roots_every_chain_of_its_family() {
    let s = named(
        r##"<style:default-style style:family="paragraph">
             <style:paragraph-properties fo:margin-bottom="0.2cm"/>
             <style:text-properties fo:font-size="11pt" style:font-name="Widget"/>
           </style:default-style>
           <style:default-style style:family="graphic">
             <style:graphic-properties draw:fill="none"/></style:default-style>
           <style:style style:family="paragraph" style:name="Body">
             <style:text-properties fo:font-size="13pt"/></style:style>"##,
    );
    // A style states the size; everything else comes from the default.
    let r = s.resolve(Family::Paragraph, "Body");
    assert!(close_pt(size_of(r.text.size), 13.0));
    assert!(close(r.para.space_after_px.expect("default spacing"), 7.559));
    assert_eq!(r.text.font_raw.as_deref(), Some("Widget"));
    // An element that names no style at all gets the default alone.
    let d = s.resolve(Family::Paragraph, "");
    assert!(close_pt(size_of(d.text.size), 11.0));
    assert_eq!(d.para.align, None);
    // Defaults are per family: the graphic one must not reach a paragraph.
    assert_eq!(d.graphic.fill.kind, None);
    assert_eq!(
        s.resolve(Family::Graphic, "").graphic.fill.kind,
        Some(FillKind::Empty)
    );
}

#[test]
fn percentage_font_sizes_resolve_against_the_parents_resolved_size() {
    let s = named(
        r##"<style:style style:family="paragraph" style:name="Root">
             <style:text-properties fo:font-size="20pt"/></style:style>
           <style:style style:family="paragraph" style:name="Mid"
                        style:parent-style-name="Root">
             <style:text-properties fo:font-size="150%"/></style:style>
           <style:style style:family="paragraph" style:name="Leaf"
                        style:parent-style-name="Mid">
             <style:text-properties fo:font-size="50%"/></style:style>"##,
    );
    // 20pt → 150% of it → 50% of that. Nested, and resolved inside the
    // cascade rather than at emission.
    assert!(close_pt(size_of(s.resolve(Family::Paragraph, "Mid").text.size), 30.0));
    assert!(close_pt(size_of(s.resolve(Family::Paragraph, "Leaf").text.size), 15.0));

    // With no absolute size anywhere, the percentages compose and stay
    // relative — a text style is resolved on its own and only then merged over
    // the paragraph's size, and resolving early would lose that base.
    let rel = named(
        r##"<style:style style:family="text" style:name="Big">
             <style:text-properties fo:font-size="200%"/></style:style>
           <style:style style:family="text" style:name="Half"
                        style:parent-style-name="Big">
             <style:text-properties fo:font-size="50%"/></style:style>"##,
    );
    let t = rel.resolve(Family::Text, "Half");
    assert_eq!(t.text.size, Some(FontSize::Percent(100 * PERCENT)));
    assert_eq!(size_pt(&t.text, pt(18.0)), pt(18.0));
    assert_eq!(size_pt(&rel.resolve(Family::Text, "Big").text, pt(18.0)), pt(36.0));
    // And an unstated size is the base itself.
    assert_eq!(size_pt(&Styles::empty().resolve(Family::Text, "").text, pt(18.0)), pt(18.0));
}

#[test]
fn the_style_count_and_chain_length_caps_hold() {
    let mut xml = String::new();
    for i in 0..(MAX_STYLES + 8) {
        xml.push_str(&format!(
            r##"<style:style style:family="paragraph" style:name="S{i}">
                 <style:paragraph-properties fo:text-align="center"/></style:style>"##
        ));
    }
    let s = named(&xml);
    assert_eq!(s.resolve(Family::Paragraph, "S0").para.align, Some(Align::Center));
    assert_eq!(
        s.resolve(Family::Paragraph, &format!("S{MAX_STYLES}")).para.align,
        None,
        "the cap must drop the remainder"
    );

    // A chain longer than the cap keeps the links nearest the leaf: the 16th
    // ancestor still contributes and the 17th does not.
    let mut xml = String::new();
    for i in 0..20 {
        let parent = if i == 0 {
            String::new()
        } else {
            format!(r##" style:parent-style-name="L{}""##, i - 1)
        };
        let props = match i {
            3 => r##"<style:paragraph-properties fo:text-align="center"/>"##,
            4 => r##"<style:text-properties fo:font-style="italic"/>"##,
            _ => "",
        };
        xml.push_str(&format!(
            r##"<style:style style:family="paragraph" style:name="L{i}"{parent}>{props}</style:style>"##
        ));
    }
    let s = named(&xml);
    let r = s.resolve(Family::Paragraph, "L19");
    assert_eq!(r.text.italic, Some(true), "L4 is the 16th link and must count");
    assert_eq!(r.para.align, None, "L3 is past the cap");
}

#[test]
fn a_malformed_part_degrades_without_taking_the_other_one_with_it() {
    let s = Styles::parse(
        Some("not xml at all"),
        &wrap(
            r##"<office:automatic-styles>
                 <style:style style:family="paragraph" style:name="P1">
                   <style:paragraph-properties fo:text-align="center"/></style:style>
               </office:automatic-styles>"##,
        ),
    );
    assert_eq!(s.resolve(Family::Paragraph, "P1").para.align, Some(Align::Center));
    // And the other way round, plus the no-styles-at-all case.
    let s = Styles::parse(
        Some(&wrap(
            r##"<office:styles><style:style style:family="text" style:name="T1">
                 <style:text-properties fo:font-weight="bold"/></style:style></office:styles>"##,
        )),
        "<office:document",
    );
    assert_eq!(s.resolve(Family::Text, "T1").text.bold, Some(true));
    let r = Styles::empty().resolve(Family::Text, "T1");
    assert_eq!((r.text.size, r.text.bold, r.text.color), (None, None, None));
    assert_eq!((r.para.align, r.cell.wrap, r.graphic.fill.kind), (None, None, None));
    // A style with no name, or in a family nothing renders, is skipped rather
    // than poisoning the table.
    let s = named(
        r##"<style:style style:family="paragraph"><style:text-properties fo:font-weight="bold"/></style:style>
           <style:style style:family="chart" style:name="C1">
             <style:text-properties fo:font-weight="bold"/></style:style>"##,
    );
    assert_eq!(s.resolve(Family::Paragraph, "").text.bold, None);
}

// ── property bags ────────────────────────────────────────────────────────

#[test]
fn text_properties_reach_the_model_and_merge_field_by_field() {
    let s = named(
        r##"<style:style style:family="paragraph" style:name="Base">
             <style:text-properties fo:font-size="12pt" fo:font-weight="bold"
               fo:color="#2f5496" fo:background-color="#ffff00"
               style:text-underline-style="solid" style:text-line-through-style="solid"
               fo:letter-spacing="1.5pt" style:text-position="33% 58%"
               fo:text-transform="uppercase" fo:language="en" fo:country="GB"/>
           </style:style>
           <style:style style:family="paragraph" style:name="Quiet"
                        style:parent-style-name="Base">
             <style:text-properties fo:font-weight="normal"
               style:text-underline-style="none" fo:text-transform="none"
               fo:font-variant="small-caps" style:use-window-font-color="true"
               fo:letter-spacing="normal" style:text-position="0% 100%"/>
           </style:style>"##,
    );
    let t = &s.resolve(Family::Paragraph, "Base").text;
    assert_eq!(t.bold, Some(true));
    assert_eq!(t.underline, Some(true));
    assert_eq!(t.strike, Some(true));
    assert_eq!(t.caps, Some(true));
    assert_eq!(t.color, Some(ColorVal::Of(Color::from_rgb(0x2f_5496))));
    assert_eq!(t.highlight, Some(Color::from_rgb(0xff_ff_00)));
    assert_eq!(t.position, Some(Position::Super));
    assert_eq!(t.language.as_deref(), Some("en-GB"));
    assert!(close_pt(t.letter_spacing_pt.expect("spacing"), 1.5));
    let run = to_text_run("café".to_string(), t, pt(10.0));
    assert_eq!(run.size_pt, pt(12.0));
    assert!(run.bold && run.underline && run.strike);
    assert_eq!(run.caps, Some(Caps::All));
    assert_eq!(run.script, Some(Script::Super));
    assert_eq!(run.color, Some(Color::from_rgb(0x2f_5496)));

    // Every off switch is a statement that cancels the inherited on, and the
    // properties nobody restated survive.
    let t = &s.resolve(Family::Paragraph, "Quiet").text;
    assert_eq!(t.bold, Some(false));
    assert_eq!(t.underline, Some(false));
    assert_eq!(t.strike, Some(true), "the untouched decoration must survive");
    assert_eq!(t.caps, Some(false));
    assert_eq!(t.small_caps, Some(true));
    assert_eq!(t.color, Some(ColorVal::Auto));
    assert_eq!(t.position, Some(Position::Baseline));
    assert!(close_pt(size_of(t.size), 12.0));
    let run = to_text_run("naïve".to_string(), t, pt(10.0));
    assert!(!run.bold && !run.underline && run.strike);
    assert_eq!(run.caps, Some(Caps::Small));
    // `use-window-font-color` is the reader's colour, which the model spells
    // as no colour at all.
    assert_eq!(run.color, None);
    assert_eq!(run.script, None);
    assert_eq!(run.letter_spacing_pt, 0);

    // `transparent` is a stated band that cancels an inherited one.
    let s = named(
        r##"<style:style style:family="text" style:name="Clear">
             <style:text-properties fo:background-color="transparent"/></style:style>"##,
    );
    let t = &s.resolve(Family::Text, "Clear").text;
    assert_eq!(t.highlight.map(|c| c.alpha), Some(0));
}

#[test]
fn paragraph_properties_reach_the_model_box() {
    let s = named(
        r##"<style:style style:family="paragraph" style:name="Body">
             <style:paragraph-properties fo:margin-top="0.2cm" fo:margin-bottom="0.4cm"
               fo:margin-left="1cm" fo:margin-right="0.5cm" fo:text-indent="-0.5cm"
               fo:text-align="justify" fo:background-color="#eeeeee"
               style:contextual-spacing="true" fo:keep-with-next="always"
               style:tab-stop-distance="1.25cm">
               <style:tab-stops>
                 <style:tab-stop style:position="2cm" style:type="center"/>
                 <style:tab-stop style:position="4cm"/>
               </style:tab-stops>
             </style:paragraph-properties>
           </style:style>
           <style:style style:family="paragraph" style:name="Tight"
                        style:parent-style-name="Body">
             <style:paragraph-properties fo:margin-top="0cm"/></style:style>"##,
    );
    let p = &s.resolve(Family::Paragraph, "Body").para;
    assert_eq!(p.align, Some(Align::Justify));
    assert_eq!(p.contextual_spacing, Some(true));
    assert_eq!(p.keep_with_next, Some(true));
    assert_eq!(p.tab_stops.len(), 2);
    assert!(close(p.tab_stops[0], 75.5906));
    assert!(close(p.tab_stop_distance_px.expect("default stop"), 47.2441));
    let para = to_para(p, pt(12.0), Some(2));
    assert!(close(para.space_before_px, 7.5591));
    assert!(close(para.space_after_px, 15.1181));
    assert!(close(para.indent_px, 37.7953));
    assert!(close(para.indent_end_px, 18.8976));
    // ODF states a hanging indent as a negative `fo:text-indent`, which is
    // already the model's sign convention — nothing to fold or negate.
    assert!(close(para.first_line_px, -18.8976));
    assert_eq!(para.shade, Some(Color::from_rgb(0xee_ee_ee)));
    assert_eq!(para.size_pt, pt(12.0));
    assert_eq!(para.heading, Some(2));

    // A child that restates one margin keeps the rest.
    let p = &s.resolve(Family::Paragraph, "Tight").para;
    assert_eq!(p.space_before_px, Some(0));
    assert!(close(p.space_after_px.expect("inherited"), 15.1181));
    assert_eq!(p.tab_stops.len(), 2, "the inherited stop list survives");

    // `style:auto-text-indent` drops the stated indent: the automatic value is
    // font-metric-derived and nothing here measures text.
    let s = named(
        r##"<style:style style:family="paragraph" style:name="Auto">
             <style:paragraph-properties fo:text-indent="1cm"
               style:auto-text-indent="true"/></style:style>"##,
    );
    let p = &s.resolve(Family::Paragraph, "Auto").para;
    assert_eq!(to_para(p, pt(12.0), None).first_line_px, 0);
}

#[test]
fn line_height_reads_all_three_spellings() {
    let with = |attrs: &str| {
        let s = named(&format!(
            r##"<style:style style:family="paragraph" style:name="P">
                 <style:paragraph-properties {attrs}/></style:style>"##
        ));
        let r = s.resolve(Family::Paragraph, "P");
        to_para(&r.para, pt(12.0), None).line
    };
    // A percentage is a multiple of a single line.
    assert_eq!(
        with(r##"fo:line-height="150%""##),
        LineHeight::Multiple(ratio(1.8))
    );
    assert_eq!(
        with(r##"fo:line-height="normal""##),
        LineHeight::Multiple(ratio(1.2))
    );
    // A length is the whole line.
    match with(r##"fo:line-height="0.5cm""##) {
        LineHeight::Exact(v) => assert!(close(v, 18.8976)),
        other => panic!("{other:?}"),
    }
    // A floor, which the emitter keeps as a `max()`.
    match with(r##"style:line-height-at-least="0.6cm""##) {
        LineHeight::AtLeast(v) => assert!(close(v, 22.6772)),
        other => panic!("{other:?}"),
    }
    // Leading is *added* to a single line, so the total needs the paragraph's
    // own size — 12pt at 1.2 lines is 19.2px, plus 0.2cm.
    match with(r##"style:line-spacing="0.2cm""##) {
        LineHeight::Exact(v) => assert!(close(v, 19.2 + 7.5591), "{v}"),
        other => panic!("{other:?}"),
    }
    // Negative leading tightens rather than inverting the line.
    match with(r##"style:line-spacing="-0.1cm""##) {
        LineHeight::Exact(v) => assert!(close(v, 19.2 - 3.7795), "{v}"),
        other => panic!("{other:?}"),
    }
    // Nothing stated, and a nonsensical zero, are both single spacing.
    assert_eq!(with(""), LineHeight::Multiple(ratio(1.2)));
    assert_eq!(with(r##"fo:line-height="0cm""##), LineHeight::Multiple(ratio(1.2)));
}

#[test]
fn a_border_shorthand_seeds_four_edges_and_a_side_overrides_one() {
    let s = named(
        r##"<style:style style:family="paragraph" style:name="Boxed">
             <style:paragraph-properties fo:border="0.5pt solid #000000"
               fo:border-bottom="1.76pt dashed #ff0000"/></style:style>
           <style:style style:family="paragraph" style:name="Open"
                        style:parent-style-name="Boxed">
             <style:paragraph-properties fo:border-top="none"/></style:style>"##,
    );
    let b = to_borders(&s.resolve(Family::Paragraph, "Boxed").para.borders);
    for side in [b.top, b.right, b.left] {
        let e = side.expect("the shorthand seeds every edge");
        assert_eq!((e.width_px, e.style, e.color), (px(1.0), Some(BorderStyle::Solid), Some(Color::from_rgb(0))));
        assert_eq!(e.space_px, 0);
    }
    let bottom = b.bottom.expect("per-side override");
    assert_eq!(bottom.style, Some(BorderStyle::Dashed));
    assert_eq!(bottom.color, Some(Color::from_rgb(0xff_00_00)));
    assert!(close(bottom.width_px, 2.3467));

    // `none` is a statement: it cancels the inherited edge and leaves the
    // other three alone.
    let sides = &s.resolve(Family::Paragraph, "Open").para.borders;
    assert_eq!(sides.top, Some(Edge::Nothing));
    let b = to_borders(sides);
    assert!(b.top.is_none());
    assert!(b.right.is_some() && b.bottom.is_some() && b.left.is_some());
    // No border anywhere costs no allocation and no declaration.
    let b = to_borders(&NO_SIDES);
    assert!(b.top.is_none() && b.right.is_none() && b.bottom.is_none() && b.left.is_none());
}

#[test]
fn a_writing_mode_of_rl_tb_is_a_right_to_left_paragraph() {
    let with = |mode: &str| {
        let s = named(&format!(
            r##"<style:style style:family="paragraph" style:name="P">
                 <style:paragraph-properties style:writing-mode="{mode}"/></style:style>"##
        ));
        let r = s.resolve(Family::Paragraph, "P");
        (r.para.rtl, to_para(&r.para, pt(12.0), None).rtl)
    };
    assert_eq!(with("rl-tb"), (Some(true), true));
    assert_eq!(with("lr-tb"), (Some(false), false));
    // A vertical mode is not a direction, so it states nothing here.
    assert_eq!(with("tb-rl"), (None, false));
}

#[test]
fn a_font_name_resolves_through_the_face_declarations() {
    let s = parse_styles(
        r##"<office:font-face-decls>
             <style:font-face style:name="Liberation Serif1" svg:font-family="'Liberation Serif'"/>
             <style:font-face style:name="Widget Sans"/>
           </office:font-face-decls>
           <office:styles>
             <style:style style:family="text" style:name="Named">
               <style:text-properties style:font-name="Liberation Serif1"/></style:style>
             <style:style style:family="text" style:name="Bare">
               <style:text-properties style:font-name="Widget Sans"/></style:style>
             <style:style style:family="text" style:name="Direct">
               <style:text-properties fo:font-family="&apos;Widget Serif&apos;, serif"/></style:style>
             <style:style style:family="text" style:name="Unknown">
               <style:text-properties style:font-name="Nothing Declared"/></style:style>
           </office:styles>"##,
    );
    assert_eq!(s.font_family("Liberation Serif1"), Some("Liberation Serif"));
    // A declaration with no `svg:font-family` is its own family.
    assert_eq!(s.font_family("Widget Sans"), Some("Widget Sans"));
    assert_eq!(s.font_family("café"), None);

    let raw = |name: &str| s.resolve(Family::Text, name).text.font_raw.clone();
    assert_eq!(raw("Named").as_deref(), Some("Liberation Serif"));
    assert_eq!(raw("Bare").as_deref(), Some("Widget Sans"));
    // `fo:font-family` states the family itself, quotes and list and all.
    assert_eq!(raw("Direct").as_deref(), Some("Widget Serif"));
    // An undeclared name is still a name — better a family that may not be
    // installed than no font at all.
    assert_eq!(raw("Unknown").as_deref(), Some("Nothing Declared"));
    // The stack is what reaches CSS.
    let font = s.resolve(Family::Text, "Named").text.font.clone();
    assert_eq!(font, Some(fonts::css_font_stack("Liberation Serif")));
}

#[test]
fn cell_column_row_and_table_properties_merge() {
    let s = named(
        r##"<style:style style:family="table-cell" style:name="Cell">
             <style:table-cell-properties fo:padding="0.1cm" fo:padding-left="0.3cm"
               fo:border="0.5pt solid #000000" fo:background-color="#dddddd"
               style:vertical-align="middle" fo:wrap-option="wrap"
               style:shrink-to-fit="true" style:rotation-angle="90"/>
           </style:style>
           <style:style style:family="table-cell" style:name="Plain"
                        style:parent-style-name="Cell">
             <style:table-cell-properties fo:background-color="#ffffff"/></style:style>
           <style:style style:family="table-column" style:name="Col">
             <style:table-column-properties style:column-width="2.5cm"
               style:use-optimal-column-width="true"/></style:style>
           <style:style style:family="table-row" style:name="Row">
             <style:table-row-properties style:row-height="0.5cm"
               style:use-optimal-row-height="false"/></style:style>
           <style:style style:family="table" style:name="Tbl">
             <style:table-properties style:width="16cm" table:display="true"
               table:align="margins"/></style:style>"##,
    );
    let c = s.resolve(Family::TableCell, "Cell").cell;
    assert!(close(c.padding.top.expect("shorthand"), 3.7795));
    assert!(close(c.padding.left.expect("override"), 11.3386));
    assert_eq!(c.v_align, Some(VAlign::Center));
    assert_eq!(c.wrap, Some(true));
    assert_eq!(c.shrink_to_fit, Some(true));
    assert_eq!(c.rotation, Some(Rotation::Ccw(90_000_000)));
    assert_eq!(c.background, Some(Color::from_rgb(0xdd_dd_dd)));
    assert!(c.borders.top.is_some());

    // Only the fill changes; the padding, borders and alignment are inherited.
    let c = s.resolve(Family::TableCell, "Plain").cell;
    assert_eq!(c.background, Some(Color::from_rgb(0xff_ff_ff)));
    assert_eq!(c.v_align, Some(VAlign::Center));
    assert!(c.padding.left.is_some() && c.borders.left.is_some());

    let col = s.resolve(Family::TableColumn, "Col").column;
    assert!(close(col.width_px.expect("width"), 94.4882));
    assert_eq!(col.optimal, Some(true));
    let row = s.resolve(Family::TableRow, "Row").row;
    assert!(close(row.height_px.expect("height"), 18.8976));
    assert_eq!(row.optimal, Some(false));
    let t = s.resolve(Family::Table, "Tbl").table;
    assert!(matches!(t.width, Some(Measure::Px(v)) if close(v, 604.7244)));
    assert_eq!(t.display, Some(true));
    assert_eq!(t.align, Some(TableAlign::Margins));
}

#[test]
fn graphic_and_page_fills_become_drawingml_values() {

    let s = named(
        r##"<style:style style:family="graphic" style:name="Box">
             <style:graphic-properties draw:fill="solid" draw:fill-color="#729fcf"
               draw:opacity="50%" draw:stroke="dash" svg:stroke-color="#3465a4"
               svg:stroke-width="0.08cm" svg:stroke-linecap="round"
               draw:textarea-vertical-align="middle" draw:textarea-horizontal-align="center"
               draw:auto-grow-height="true" draw:auto-grow-width="false"
               fo:padding-left="0.25cm" fo:min-height="1cm" fo:min-width="2cm"
               fo:wrap-option="no-wrap"/>
           </style:style>
           <style:style style:family="presentation" style:name="Recolour"
                        style:parent-style-name="Box">
             <style:graphic-properties draw:fill-color="#ff0000"/></style:style>
           <style:style style:family="graphic" style:name="Empty">
             <style:graphic-properties draw:fill="none" draw:stroke="none"/></style:style>
           <style:style style:family="graphic" style:name="Gradient">
             <style:graphic-properties draw:fill="gradient"
               draw:fill-gradient-name="Gradient_20_1"/></style:style>
           <style:style style:family="drawing-page" style:name="Mdp1">
             <style:drawing-page-properties draw:fill="solid"
               draw:fill-color="#191b0e"/></style:style>"##,
    );
    let g = s.resolve(Family::Graphic, "Box").graphic;
    match g.fill.fill() {
        Some(Fill::Solid(c)) => {
            assert_eq!(c.rgb, 0x72_9f_cf);
            assert!(c.alpha == OPAQUE / 2);
        }
        other => panic!("{other:?}"),
    }
    assert_eq!(
        fill_css(&g.fill.fill().expect("fill")),
        "background-color:rgba(114, 159, 207, 0.5);"
    );
    let line = g.stroke.line().expect("stroke");
    assert_eq!(line.dash, Dash::Dashed);
    assert_eq!(line.cap, Cap::Round);
    assert!(close(line.width_px, 3.0236));
    assert_eq!(line_css(&line), "border:3.02px dashed #3465a4;");
    assert_eq!(g.text_v_align, Some(VAlign::Center));
    assert_eq!(g.text_h_align, Some(Align::Center));
    assert_eq!((g.auto_grow_height, g.auto_grow_width), (Some(true), Some(false)));
    assert!(close(g.padding.left.expect("padding"), 9.4488));
    assert!(close(g.min_height_px.expect("min height"), 37.7953));
    assert!(close(g.min_width_px.expect("min width"), 75.5906));
    assert_eq!(g.wrap, Some(false));

    // A style that restates only the colour keeps the kind and the opacity:
    // the three attributes merge independently, so a bare colour cannot turn
    // an inherited `draw:fill="none"` back on.
    let g = s.resolve(Family::Presentation, "Recolour").graphic;
    assert!(matches!(g.fill.fill(), Some(Fill::Solid(c)) if c.rgb == 0xff_00_00));
    let off = s.resolve(Family::Graphic, "Empty").graphic;
    assert_eq!(off.fill.fill(), Some(Fill::Empty));
    // A stated `none` stroke is an explicit reset, not an absent one.
    assert_eq!(line_css(&off.stroke.line().expect("none is stated")), "border:none;");
    assert_eq!(s.resolve(Family::Graphic, "Gradient").graphic.stroke.line(), None);

    // A gradient names a definition that is not indexed, so it reports
    // absence and the caller's own fill wins rather than being painted flat.
    assert_eq!(s.resolve(Family::Graphic, "Gradient").graphic.fill.fill(), None);

    // A drawing page carries the slide background and nothing else.
    let p = s.resolve(Family::DrawingPage, "Mdp1").page;
    assert_eq!(p.fill.fill(), Some(Fill::Solid(Color::from_rgb(0x19_1b_0e))));
}

// ── page geometry ────────────────────────────────────────────────────────

#[test]
fn page_geometry_comes_from_the_master_pages_layout() {
    let s = parse_styles(
        r##"<office:automatic-styles>
             <style:page-layout style:name="PM1">
               <style:page-layout-properties fo:page-width="21cm" fo:page-height="29.7cm"
                 fo:margin-top="2cm" fo:margin-bottom="2cm" fo:margin-left="1cm"
                 fo:margin-right="1cm" style:print-orientation="portrait"/>
             </style:page-layout>
           </office:automatic-styles>
           <office:master-styles>
             <style:master-page style:name="Standard" style:page-layout-name="PM1"
                                draw:style-name="Mdp1">
               <style:header><text:p>café</text:p></style:header>
               <style:footer style:display="false"/>
             </style:master-page>
             <style:master-page style:name="Bare"/>
           </office:master-styles>"##,
    );
    let p = s.page_setup(Some("Standard"));
    assert!(close(p.page.width, 793.7008), "{}", p.page.width);
    assert!(close(p.page.height, 1122.5197));
    assert!(close(p.page.top, 75.5906) && close(p.page.left, 37.7953));
    assert!(!p.landscape);
    // A header is defined and cannot be rendered, so the fact is exposed; a
    // `style:display="false"` footer is switched off and is not a note.
    assert!(p.has_header);
    assert!(!p.has_footer);
    assert_eq!(p.drawing_page_style.as_deref(), Some("Mdp1"));

    // A master page naming no layout, and a name no master page defines, both
    // degrade to the default box rather than to nothing.
    assert!(close(s.page_setup(Some("Bare")).page.width, 816.0));
    assert_eq!(s.first_master(), Some("Standard"));
    // An unknown name falls back to the document's first master page, which is
    // also what a body that names none gets.
    assert!(close(s.page_setup(Some("café")).page.width, 793.7008));
    assert!(close(s.page_setup(None).page.width, 793.7008));
    assert!(s.page_setup(None).has_header);
    // No master pages at all: the Letter-with-inch-margins default.
    let bare = Styles::empty().page_setup(None);
    assert!(close(bare.page.width, 816.0));
    assert!(!bare.has_header && !bare.has_footer);
}

#[test]
fn a_landscape_layout_states_its_own_wide_extent() {
    // A landscape page layout already carries the wide extent as
    // `fo:page-width`, so `style:print-orientation` must **not** swap the two.
    // A producer agrees: given a portrait width/height beside
    // `print-orientation="landscape"`, LibreOffice lays the page out portrait.
    let s = parse_styles(
        r##"<office:automatic-styles>
             <style:page-layout style:name="PM1">
               <style:page-layout-properties fo:page-width="28cm" fo:page-height="15.75cm"
                 style:print-orientation="landscape" fo:margin-top="0cm"
                 fo:margin-bottom="0cm" fo:margin-left="0cm" fo:margin-right="0cm"/>
             </style:page-layout>
             <style:page-layout style:name="PM2">
               <style:page-layout-properties fo:page-width="21cm" fo:page-height="29.7cm"
                 style:print-orientation="landscape"/>
             </style:page-layout>
           </office:automatic-styles>
           <office:master-styles>
             <style:master-page style:name="Slide" style:page-layout-name="PM1"/>
             <style:master-page style:name="Odd" style:page-layout-name="PM2"/>
           </office:master-styles>"##,
    );
    let p = s.page_setup(Some("Slide"));
    assert!(p.landscape);
    assert!(p.page.width > p.page.height, "the stated extents are kept as stated");
    assert!(close(p.page.width, 1058.2677) && close(p.page.height, 595.2756));
    assert_eq!((p.page.left, p.page.top), (0, 0));
    // The attribute is a print hint, so a contradiction resolves in favour of
    // the geometry rather than of the orientation.
    let p = s.page_setup(Some("Odd"));
    assert!(p.landscape);
    assert!(p.page.height > p.page.width);
}

#[test]
fn absurd_page_geometry_is_clamped_to_the_shared_bounds() {
    let with = |props: &str| {
        let s = parse_styles(&format!(
            r##"<office:automatic-styles>
                 <style:page-layout style:name="PM1">
                   <style:page-layout-properties {props}/></style:page-layout>
               </office:automatic-styles>
               <office:master-styles>
                 <style:master-page style:name="S" style:page-layout-name="PM1"/>
               </office:master-styles>"##
        ));
        s.page_setup(Some("S")).page
    };
    // Both or neither: a page too small to hold a column keeps the default.
    let p = with(r##"fo:page-width="0.5cm" fo:page-height="29.7cm""##);
    assert!(close(p.width, 816.0) && close(p.height, 1056.0));
    let p = with(r##"fo:page-width="200cm" fo:page-height="200cm""##);
    assert!(close(p.width, 816.0));
    // A margin never eats the whole page, nor more than `MAX_MARGIN_PX`.
    let p = with(r##"fo:page-width="21cm" fo:page-height="29.7cm" fo:margin="40cm""##);
    assert!(close(p.left, (793.7008 - MIN_COLUMN_PX as f64 / PX as f64) / 2.0), "{}", p.left);
    assert!(p.top <= MAX_MARGIN_PX);
    // A negative margin is no margin, and `fo:margin` seeds all four sides.
    let p = with(r##"fo:page-width="21cm" fo:page-height="29.7cm" fo:margin="-3cm""##);
    assert_eq!((p.left, p.right, p.top, p.bottom), (0, 0, 0, 0));
    let p = with(r##"fo:page-width="21cm" fo:page-height="29.7cm" fo:margin="1cm" fo:margin-left="2cm""##);
    assert!(close(p.left, 75.5906) && close(p.right, 37.7953));
}
