//! List styles, their levels and the counters of a walk.

use odf_preview::color::Color;
use odf_preview::model::Align;
use odf_preview::odf::list::{
    alpha_sync, FollowedBy, LevelIndent, ListStart, Lists, LEVELS, MAX_COUNTER, MAX_DEPTH,
    MAX_HREF, MAX_LABEL,
};
use odf_preview::odf::style::store::Styles;

fn px(v: f64) -> i64 {
    (v * 381_000_000.0).round() as i64
}

fn pt(v: f64) -> i64 {
    (v * 508_000_000.0).round() as i64
}

fn near(a: i64, want: f64) -> bool {
    (a as f64 / 381_000_000.0 - want).abs() < 0.01
}

fn text(v: Vec<char>) -> String {
    v.into_iter().collect()
}

const NO_INDENT: LevelIndent =
    LevelIndent { indent_px: 0, first_line_px: 0, followed_by: FollowedBy::ListTab, align: None };

const NS: &str = " xmlns:office=\"urn:oasis:names:tc:opendocument:xmlns:office:1.0\" \
    xmlns:style=\"urn:oasis:names:tc:opendocument:xmlns:style:1.0\" \
    xmlns:text=\"urn:oasis:names:tc:opendocument:xmlns:text:1.0\" \
    xmlns:fo=\"urn:oasis:names:tc:opendocument:xmlns:xsl-fo-compatible:1.0\" \
    xmlns:svg=\"urn:oasis:names:tc:opendocument:xmlns:svg-compatible:1.0\" \
    xmlns:xlink=\"http://www.w3.org/1999/xlink\"";

fn content(body: &str) -> String {
    format!(
        "<office:document-content{NS}><office:automatic-styles>{body}\
         </office:automatic-styles></office:document-content>"
    )
}

fn lists(body: &str) -> Lists {
    Lists::parse(None, &content(body))
}

/// One list style whose level 1 is a number in `fmt`, plus whatever extra
/// attributes the test needs.
fn numbered(fmt: &str, extra: &str) -> String {
    format!(
        r#"<text:list-style style:name="L">
             <text:list-level-style-number text:level="1" style:num-format="{fmt}" {extra}/>
           </text:list-style>"#
    )
}

fn open(l: &mut Lists) {
    l.enter(ListStart {
        style: Some("L"),
        ..ListStart::plain()
    });
}

/// The label of the next item, or `""` when the level draws none.
fn label(l: &mut Lists) -> String {
    let s = Styles::empty();
    l.item(&s, pt(12.0))
        .and_then(|m| m.label)
        .map(|m| m.label)
        .unwrap_or_default()
}

#[test]
fn every_num_format_spells_its_own_numeral() {
    for (fmt, want) in [
        ("1", "3"),
        ("a", "c"),
        ("A", "C"),
        ("i", "iii"),
        ("I", "III"),
        // An empty format counts but shows nothing, and with no prefix or
        // suffix beside it there is no label at all.
        ("", ""),
        // ODF leaves the value open; an unknown one still numbers.
        ("\u{2460}", "3"),
    ] {
        let mut l = lists(&numbered(fmt, ""));
        open(&mut l);
        label(&mut l);
        label(&mut l);
        assert_eq!(label(&mut l), want, "format {fmt:?}");
        l.leave();
    }
}

#[test]
fn letter_sync_repeats_the_letter_instead_of_counting_in_base_26() {
    let mut plain = lists(&numbered("a", ""));
    let mut sync = lists(&numbered("a", r#"style:num-letter-sync="true""#));
    open(&mut plain);
    open(&mut sync);
    let mut last = (String::new(), String::new());
    for _ in 0..28 {
        last = (label(&mut plain), label(&mut sync));
    }
    // The two agree up to `aa` (item 27) and part company at 28.
    assert_eq!(last.0, "ab");
    assert_eq!(last.1, "bb");
    assert_eq!(text(alpha_sync(1, false)), "a");
    assert_eq!(text(alpha_sync(26, true)), "Z");
    assert_eq!(text(alpha_sync(27, false)), "aa");
    assert_eq!(text(alpha_sync(52, false)), "zz");
    assert_eq!(text(alpha_sync(53, false)), "aaa");
}

#[test]
fn prefix_and_suffix_wrap_the_numeral() {
    let mut l = lists(&numbered(
        "1",
        r#"style:num-prefix="(" style:num-suffix=")""#,
    ));
    open(&mut l);
    assert_eq!(label(&mut l), "(1)");
    assert_eq!(label(&mut l), "(2)");

    // A level whose numeral is empty is still wrapped: its whole label is the suffix.
    let mut l = lists(&numbered("", r#"style:num-suffix="-""#));
    open(&mut l);
    assert_eq!(label(&mut l), "-");
}

#[test]
fn display_levels_joins_the_enclosing_numbers() {
    let body = r#"<text:list-style style:name="L">
          <text:list-level-style-number text:level="1" style:num-format="1"
             style:num-suffix="."/>
          <text:list-level-style-number text:level="2" style:num-format="a"
             text:display-levels="2"/>
          <text:list-level-style-number text:level="3" style:num-format="i"
             text:display-levels="3" style:num-prefix="[" style:num-suffix="]"/>
        </text:list-style>"#;
    let mut l = lists(body);
    open(&mut l);
    assert_eq!(label(&mut l), "1.");
    assert_eq!(label(&mut l), "2.");
    // Each shown level is spelled in *its own* format, not the deepest one's.
    l.enter(ListStart::plain());
    assert_eq!(label(&mut l), "2.a");
    assert_eq!(label(&mut l), "2.b");
    l.enter(ListStart::plain());
    assert_eq!(label(&mut l), "[2.b.i]");
    assert_eq!(label(&mut l), "[2.b.ii]");
    // Deeper than the level being drawn is not addressable, and a count
    // beyond the current depth clamps to it rather than inventing segments.
    l.leave();
    l.leave();
    assert_eq!(label(&mut l), "3.");
}

#[test]
fn an_unentered_parent_level_shows_its_start_value() {
    let body = r#"<text:list-style style:name="L">
          <text:list-level-style-number text:level="1" style:num-format="1"
             text:start-value="4"/>
          <text:list-level-style-number text:level="2" style:num-format="1"
             text:display-levels="2"/>
        </text:list-style>"#;
    let mut l = lists(body);
    open(&mut l);
    // A nested list before any item of the outer one.
    l.enter(ListStart::plain());
    assert_eq!(label(&mut l), "4.1");
}

#[test]
fn start_value_is_where_the_level_begins() {
    let mut l = lists(&numbered("1", r#"text:start-value="30""#));
    open(&mut l);
    assert_eq!(label(&mut l), "30");
    assert_eq!(label(&mut l), "31");
    // `text:list-item@text:start-value` moves the next item and nothing else.
    l.restart_at(2);
    assert_eq!(label(&mut l), "2");
    assert_eq!(label(&mut l), "3");
}

#[test]
fn bullet_char_and_the_levels_own_font_ride_the_marker() {
    let body = r##"<text:list-style style:name="L">
          <text:list-level-style-bullet text:level="1" text:bullet-char="–"
             style:num-suffix="–">
            <style:text-properties fo:font-family="'Times New Roman'"
               fo:color="#191b0e" fo:font-size="45%"/>
          </text:list-level-style-bullet>
          <text:list-level-style-bullet text:level="2" text:bullet-char="&#xF0B7;">
            <style:text-properties fo:font-family="Symbol"
               style:font-charset="x-symbol"/>
          </text:list-level-style-bullet>
        </text:list-style>"##;
    let mut l = lists(body);
    let s = Styles::empty();
    open(&mut l);
    let m = l.item(&s, pt(20.0)).expect("bullet level");
    let lbl = m.label.expect("bullet has a label");
    // The bullet is drawn once: `style:num-suffix` repeats the character on
    // every bullet level LibreOffice writes, and applying it would double it.
    assert_eq!(lbl.label, "\u{2013}");
    assert_eq!(lbl.color, Some(Color::from_rgb(0x19_1b_0e)));
    assert_eq!(
        lbl.font.as_deref(),
        Some("\"Liberation Serif\", Tinos, Times, serif")
    );
    assert_eq!(lbl.size_pt, Some(pt(9.0)));
    assert!(m.bullet);
    assert_eq!(m.image, None);
    // A symbol-font code point folds onto real Unicode.
    l.enter(ListStart::plain());
    let m = l.item(&s, pt(20.0)).expect("symbol bullet level");
    assert_eq!(m.label.expect("label").label, "\u{2022}");
    // Nothing about a bullet changes from item to item.
    assert_eq!(label(&mut l), "\u{2022}");
}

#[test]
fn a_level_with_no_stated_size_leaves_the_paragraphs_alone() {
    let mut l = lists(&numbered("1", ""));
    let s = Styles::empty();
    open(&mut l);
    let lbl = l.item(&s, pt(20.0)).and_then(|m| m.label).expect("label");
    assert_eq!(lbl.size_pt, None);
    assert_eq!(lbl.font, None);
    assert_eq!(lbl.color, None);
}

#[test]
fn a_text_style_name_formats_the_label_and_the_level_overrides_it() {
    let styles = format!(
        r##"<office:document-styles{NS}><office:font-face-decls>
             <style:font-face style:name="OpenSymbol1" svg:font-family="OpenSymbol"/>
           </office:font-face-decls><office:styles>
             <style:style style:name="ListLabel_20_1" style:family="text">
               <style:text-properties fo:color="#ff0000" fo:font-size="8pt"
                  fo:font-weight="bold"/>
             </style:style>
           </office:styles></office:document-styles>"##
    );
    let body = r#"<text:list-style style:name="L">
          <text:list-level-style-bullet text:level="1" text:style-name="ListLabel_20_1"
             text:bullet-char="●">
            <style:text-properties style:font-name="OpenSymbol1" fo:font-size="150%"/>
          </text:list-level-style-bullet>
        </text:list-style>"#;
    let s = Styles::parse(Some(&styles), &content(body));
    let mut l = Lists::parse(Some(&styles), &content(body));
    open(&mut l);
    let lbl = l.item(&s, pt(12.0)).and_then(|m| m.label).expect("label");
    // Colour from the text style, size composed over it (150% of 8pt), and
    // the `style:font-name` resolved through the document's face
    // declarations rather than left as the declaration's own name.
    assert_eq!(lbl.color, Some(Color::from_rgb(0xff_00_00)));
    assert_eq!(lbl.size_pt, Some(pt(12.0)));
    assert_eq!(lbl.font.as_deref(), Some("\"OpenSymbol\", sans-serif"));
}

#[test]
fn an_image_level_reports_its_href_beside_a_fallback_glyph() {
    let body = r#"<text:list-style style:name="L">
          <text:list-level-style-image text:level="1"
             xlink:href="Pictures/bullet.png"/>
        </text:list-style>"#;
    let mut l = lists(body);
    let s = Styles::empty();
    open(&mut l);
    let m = l.item(&s, pt(12.0)).expect("image level");
    assert_eq!(m.image.as_deref(), Some("Pictures/bullet.png"));
    assert_eq!(m.label.expect("fallback glyph").label, "\u{2022}");
    assert!(m.bullet);
}

#[test]
fn both_indentation_spellings_land_in_px() {
    // Writer's spelling, which text documents use.
    let body = r#"<text:list-style style:name="L">
          <text:list-level-style-number text:level="1" style:num-format="1">
            <style:list-level-properties
               text:list-level-position-and-space-mode="label-alignment"
               fo:text-align="end">
              <style:list-level-label-alignment text:label-followed-by="space"
                 fo:margin-left="0.5in" fo:text-indent="-0.25in"/>
            </style:list-level-properties>
          </text:list-level-style-number>
        </text:list-style>"#;
    let l = lists(body);
    let lvl = l.level_of("L", 1).expect("level");
    assert_eq!(lvl.indent.indent_px, px(48.0));
    assert_eq!(lvl.indent.first_line_px, px(-24.0));
    assert_eq!(lvl.indent.followed_by, FollowedBy::Space);
    assert_eq!(lvl.indent.align, Some(Align::Right));

    // Impress's spelling: the text starts past both lengths and the label
    // hangs back into the width reserved for it.
    let body = r#"<text:list-style style:name="L">
          <text:list-level-style-bullet text:level="1" text:bullet-char="●">
            <style:list-level-properties text:space-before="1.2cm"
               text:min-label-width="0.6cm" text:min-label-distance="0.3cm"/>
          </text:list-level-style-bullet>
        </text:list-style>"#;
    let l = lists(body);
    let ind = l.level_of("L", 1).expect("level").indent;
    assert!(near(ind.indent_px, 68.031), "{ind:?}");
    assert!(near(ind.first_line_px, -22.677), "{ind:?}");
    assert_eq!(ind.followed_by, FollowedBy::ListTab);
    assert_eq!(ind.align, None);

    // A level with no properties at all indents by nothing rather than
    // guessing an indent the document never stated.
    let l = lists(&numbered("1", ""));
    assert_eq!(
        l.level_of("L", 1).expect("level").indent,
        NO_INDENT
    );
}

#[test]
fn the_label_alignment_child_is_read_without_its_mode_switch() {
    // No `text:list-level-position-and-space-mode`, and no older attributes
    // for it to have deferred to.
    let body = r#"<text:list-style style:name="L">
          <text:list-level-style-number text:level="1" style:num-format="1">
            <style:list-level-properties>
              <style:list-level-label-alignment fo:margin-left="1in"
                 fo:text-indent="-0.5in"/>
            </style:list-level-properties>
          </text:list-level-style-number>
        </text:list-style>"#;
    let l = lists(body);
    let ind = l.level_of("L", 1).expect("level").indent;
    assert_eq!((ind.indent_px, ind.first_line_px), (px(96.0), px(-48.0)));

    // With the older attributes present and the switch absent, ODF's default
    // wins and the child is ignored.
    let body = r#"<text:list-style style:name="L">
          <text:list-level-style-number text:level="1" style:num-format="1">
            <style:list-level-properties text:space-before="1in"
               text:min-label-width="0.5in">
              <style:list-level-label-alignment fo:margin-left="4in"/>
            </style:list-level-properties>
          </text:list-level-style-number>
        </text:list-style>"#;
    let l = lists(body);
    let ind = l.level_of("L", 1).expect("level").indent;
    assert_eq!((ind.indent_px, ind.first_line_px), (px(144.0), px(-48.0)));
}

#[test]
fn a_new_list_restarts_unless_it_continues_numbering() {
    let mut l = lists(&numbered("1", ""));
    open(&mut l);
    assert_eq!(label(&mut l), "1");
    assert_eq!(label(&mut l), "2");
    l.leave();
    // A second list is a second list.
    open(&mut l);
    assert_eq!(label(&mut l), "1");
    l.leave();
    // Unless it says otherwise.
    l.enter(ListStart {
        style: Some("L"),
        continue_numbering: true,
        ..ListStart::plain()
    });
    assert_eq!(label(&mut l), "2");
    l.leave();
    // An empty list in between is not the list a continuation means.
    open(&mut l);
    l.leave();
    l.enter(ListStart {
        style: Some("L"),
        continue_numbering: true,
        ..ListStart::plain()
    });
    assert_eq!(label(&mut l), "3");
    l.leave();
    // A fresh walk starts over.
    l.reset();
    open(&mut l);
    assert_eq!(label(&mut l), "1");
}

#[test]
fn a_nested_list_restarts_its_own_level_and_keeps_the_parents() {
    let body = r#"<text:list-style style:name="L">
          <text:list-level-style-number text:level="1" style:num-format="1"/>
          <text:list-level-style-number text:level="2" style:num-format="1"
             text:display-levels="2"/>
        </text:list-style>"#;
    let mut l = lists(body);
    open(&mut l);
    assert_eq!(label(&mut l), "1");
    // A nested list inherits the enclosing definition when it names none.
    l.enter(ListStart::plain());
    assert_eq!(label(&mut l), "1.1");
    assert_eq!(label(&mut l), "1.2");
    l.leave();
    assert_eq!(label(&mut l), "2");
    l.enter(ListStart::plain());
    assert_eq!(label(&mut l), "2.1");
    l.leave();
    // …and keeps them when it asks to.
    l.enter(ListStart {
        continue_numbering: true,
        ..ListStart::plain()
    });
    assert_eq!(label(&mut l), "2.2");
}

#[test]
fn continue_list_continues_the_list_it_names() {
    // One-item lists chained by `xml:id`.
    let mut l = lists(&numbered("1", r#"style:num-suffix=".""#));
    l.enter(ListStart {
        style: Some("L"),
        id: Some("list1"),
        ..ListStart::plain()
    });
    assert_eq!(label(&mut l), "1.");
    l.leave();
    // An unrelated list in between must not be what gets continued.
    open(&mut l);
    assert_eq!(label(&mut l), "1.");
    l.leave();
    l.enter(ListStart {
        style: Some("L"),
        id: Some("list2"),
        continue_list: Some("list1"),
        ..ListStart::plain()
    });
    assert_eq!(label(&mut l), "2.");
    l.leave();
    // The chain continues through the list that itself continued.
    l.enter(ListStart {
        style: Some("L"),
        continue_list: Some("list2"),
        ..ListStart::plain()
    });
    assert_eq!(label(&mut l), "3.");
    l.leave();
    // A name nothing closed restarts rather than failing.
    l.enter(ListStart {
        style: Some("L"),
        continue_list: Some("naïve"),
        ..ListStart::plain()
    });
    assert_eq!(label(&mut l), "1.");
}

#[test]
fn a_list_header_consumes_no_number() {
    let body = r#"<text:list-style style:name="L">
          <text:list-level-style-number text:level="1" style:num-format="1">
            <style:list-level-properties text:min-label-width="0.5in"/>
          </text:list-level-style-number>
        </text:list-style>"#;
    let mut l = lists(body);
    open(&mut l);
    assert_eq!(label(&mut l), "1");
    // The header is indented like an item…
    let ind = l.header().expect("level 1 indent");
    assert_eq!((ind.indent_px, ind.first_line_px), (px(48.0), px(-48.0)));
    // …and the next item is still the second one.
    assert_eq!(label(&mut l), "2");
    // Outside any list there is no indent to report.
    l.leave();
    assert!(l.header().is_none());
}

#[test]
fn missing_and_blank_definitions_degrade_to_no_marker() {
    // A list style that defines level 2 and nothing else.
    let body = r#"<text:list-style style:name="L">
          <text:list-level-style-number text:level="2" style:num-format="1"/>
        </text:list-style>"#;
    let mut l = lists(body);
    let s = Styles::empty();
    open(&mut l);
    assert!(l.item(&s, pt(12.0)).is_none());
    assert!(l.header().is_none());
    l.enter(ListStart::plain());
    assert_eq!(label(&mut l), "1");
    l.leave();

    // A list naming a style the document does not define, with nothing to
    // inherit from.
    let mut l = lists(&numbered("1", ""));
    l.enter(ListStart {
        style: Some("café"),
        ..ListStart::plain()
    });
    assert!(l.item(&s, pt(12.0)).is_none());
    l.leave();
    // An item outside any list.
    assert!(l.item(&s, pt(12.0)).is_none());
    // Levels outside the ten ODF defines are dropped, not clamped onto one.
    let l = lists(
        r#"<text:list-style style:name="L">
             <text:list-level-style-number text:level="0" style:num-format="1"/>
             <text:list-level-style-number text:level="11" style:num-format="1"/>
           </text:list-style>"#,
    );
    assert!(l.has("L"));
    assert!((1..=LEVELS).all(|n| l.level_of("L", n).is_none()));
    // A list style with no name is not addressable and is skipped.
    let l = lists(r#"<text:list-style><text:list-level-style-number text:level="1"/></text:list-style>"#);
    assert!(!l.has(""));
    // Unparseable parts cost the document its markers and nothing else.
    let mut broken = Lists::parse(Some("<office:document-styles>"), "<not xml");
    assert!(!broken.has("L"));
    broken.enter(ListStart::plain());
    assert!(broken.item(&s, pt(12.0)).is_none());
    assert!(Lists::empty().header().is_none());
}

#[test]
fn a_list_style_nested_in_a_graphic_style_is_still_indexed_by_name() {
    // Impress's shape: the outline bullets of a presentation style, named
    // after the style that owns them.
    let styles = format!(
        r#"<office:document-styles{NS}><office:styles>
             <style:style style:name="outline1" style:family="presentation">
               <style:graphic-properties>
                 <text:list-style style:name="outline1">
                   <text:list-level-style-bullet text:level="1"
                      text:bullet-char="●"/>
                 </text:list-style>
               </style:graphic-properties>
             </style:style>
           </office:styles></office:document-styles>"#
    );
    let mut l = Lists::parse(Some(&styles), &content(""));
    assert!(l.has("outline1"));
    l.enter(ListStart {
        style: Some("outline1"),
        ..ListStart::plain()
    });
    assert_eq!(label(&mut l), "\u{25cf}");
}

#[test]
fn list_document_controlled_sizes_are_capped() {
    let long: String = "café ".repeat(200);
    let body = format!(
        r#"<text:list-style style:name="L">
             <text:list-level-style-number text:level="1" style:num-format="1"
                text:start-value="4294967295" style:num-prefix="{long}"
                text:display-levels="99">
               <style:list-level-properties text:space-before="99999in"
                  text:min-label-width="99999in"/>
             </text:list-level-style-number>
             <text:list-level-style-image text:level="2" xlink:href="{long}"/>
           </text:list-style>"#
    );
    let mut l = lists(&body);
    let s = Styles::empty();
    let lvl = l.level_of("L", 1).expect("level");
    assert_eq!(lvl.start, MAX_COUNTER);
    assert_eq!(lvl.prefix.chars().count(), MAX_LABEL);
    assert_eq!(lvl.display_levels, LEVELS as u32);
    // An absurd length is refused by the parser and leaves the indent at
    // zero rather than pushing the column off the page.
    assert_eq!(lvl.indent, NO_INDENT);
    // The rendered label is bounded whatever the prefix was — here it is all
    // prefix, and the numeral is what falls off the end.
    open(&mut l);
    assert_eq!(label(&mut l).chars().count(), MAX_LABEL);
    l.enter(ListStart::plain());
    let m = l.item(&s, pt(12.0)).expect("image level");
    assert_eq!(m.image.map(|h| h.chars().count()), Some(MAX_HREF));
    l.leave();

    // A start value past the cap saturates rather than wrapping, and stays
    // there.
    let mut l = lists(&numbered("1", r#"text:start-value="4294967295""#));
    open(&mut l);
    assert_eq!(label(&mut l), MAX_COUNTER.to_string());
    assert_eq!(label(&mut l), MAX_COUNTER.to_string());
    l.leave();

    // Nesting past the depth cap still pairs enter with leave, so a list that
    // closes deep does not leave the shallower counters dangling.
    let mut l = lists(&numbered("1", ""));
    for _ in 0..MAX_DEPTH + 8 {
        open(&mut l);
    }
    assert_eq!(l.depth(), MAX_DEPTH + 8);
    assert!(l.item(&s, pt(12.0)).is_none());
    for _ in 0..MAX_DEPTH + 8 {
        l.leave();
    }
    assert_eq!(l.depth(), 0);
    open(&mut l);
    assert_eq!(label(&mut l), "1");
}
