//! Presentations, from package to canvas.

use odf_preview::document::{OfficeDoc, Shape};
use odf_preview::media::{Picture, Pictures, Shown, Wanted};
use odf_preview::odf::pkg::{Entries, Part, Parts};
use odf_preview::odf::render;
use odf_preview::values::Values;
use odf_preview::odf::slide::{MAX_SHAPES, NOTE_CUSTOM, NOTE_OBJECT, NOTE_SHAPES, NOTE_TRANSFORM};
use odf_preview::slideshape::{DEFAULT_HEIGHT, DEFAULT_WIDTH};

fn px(v: f64) -> i64 {
    (v * 381_000_000.0).round() as i64
}

const NS: &str = "xmlns:office=\"urn:oasis:names:tc:opendocument:xmlns:office:1.0\" \
     xmlns:text=\"urn:oasis:names:tc:opendocument:xmlns:text:1.0\" \
     xmlns:style=\"urn:oasis:names:tc:opendocument:xmlns:style:1.0\" \
     xmlns:fo=\"urn:oasis:names:tc:opendocument:xmlns:xsl-fo-compatible:1.0\" \
     xmlns:table=\"urn:oasis:names:tc:opendocument:xmlns:table:1.0\" \
     xmlns:draw=\"urn:oasis:names:tc:opendocument:xmlns:drawing:1.0\" \
     xmlns:svg=\"urn:oasis:names:tc:opendocument:xmlns:svg-compatible:1.0\" \
     xmlns:xlink=\"http://www.w3.org/1999/xlink\"";

/// A package in memory.
struct Fixture {
    parts: Vec<(String, Vec<u8>)>,
}

impl Fixture {
    fn new(_tag: &str, parts: &[(&str, Vec<u8>)]) -> Fixture {
        Fixture { parts: parts.iter().map(|(n, b)| (n.to_string(), b.clone())).collect() }
    }

    fn part(&self, name: &str) -> Part {
        match self.parts.iter().find(|p| p.0 == name) {
            None => Ok(None),
            Some(p) => String::from_utf8(p.1.clone()).map(Some).map_err(|e| e.to_string()),
        }
    }

    fn parts(&self) -> Parts {
        Parts {
            entries: Entries(self.parts.iter().map(|p| p.0.clone()).collect()),
            manifest: self.part("META-INF/manifest.xml"),
            mimetype: self.part("mimetype"),
            content: self.part("content.xml"),
            styles: self.part("styles.xml"),
            meta: self.part("meta.xml"),
            settings: self.part("settings.xml"),
        }
    }

    /// Renders, hands in the pictures that the document shows, and renders again.
    fn render(&self, section: Option<u32>, terms: &[String]) -> Result<OfficeDoc, String> {
        let first = render(self.parts(), section, terms, &Pictures::none(), &Values::none())?;
        let list = first.wanted.iter().map(picture).collect();
        let pictures = Pictures { list, notes: Vec::new() };
        render(self.parts(), section, terms, &pictures, &Values::none())
    }

    fn doc(&self) -> OfficeDoc {
        self.render(None, &[]).expect("render")
    }

    fn html(&self) -> String {
        self.doc().html
    }

    /// The rendered body without the stylesheet in front of it, which mentions every
    /// class.
    fn body_html(&self) -> String {
        let html = self.html();
        match html.split_once("</style>") {
            Some((_, body)) => body.to_string(),
            None => html,
        }
    }
}

fn picture(w: &Wanted) -> Picture {
    Picture {
        part: w.part.clone(),
        want: w.want,
        shown: Shown::DataUri("data:image/png;base64,AAAA".to_string()),
    }
}

/// A picture's bytes. What they hold is not looked at.
fn png_bytes(w: u32, h: u32) -> Vec<u8> {
    vec![w as u8, h as u8]
}

/// A presentation package. `auto` holds `content.xml`'s automatic styles,
/// `pages` its slides, `named` the named styles, and `master` the master page's
/// body — the last because a master's shapes live in `styles.xml`.
fn deck(tag: &str, named: &str, master: &str, auto: &str, pages: &str) -> Fixture {
    deck_media(tag, named, master, auto, pages, &[])
}

fn deck_media(
    tag: &str,
    named: &str,
    master: &str,
    auto: &str,
    pages: &str,
    media: &[(&str, Vec<u8>)],
) -> Fixture {
    let styles = format!(
        "<office:document-styles {NS} \
         xmlns:presentation=\"urn:oasis:names:tc:opendocument:xmlns:presentation:1.0\">\
         <office:styles>{named}</office:styles>\
         <office:automatic-styles>\
         <style:page-layout style:name=\"pm1\"><style:page-layout-properties \
         fo:page-width=\"10in\" fo:page-height=\"7.5in\"/></style:page-layout>\
         </office:automatic-styles>\
         <office:master-styles>\
         <style:master-page style:name=\"Default\" style:page-layout-name=\"pm1\" \
         draw:style-name=\"dp1\">{master}</style:master-page>\
         </office:master-styles></office:document-styles>"
    );
    let content = format!(
        "<office:document-content {NS} \
         xmlns:presentation=\"urn:oasis:names:tc:opendocument:xmlns:presentation:1.0\">\
         <office:automatic-styles>{auto}</office:automatic-styles>\
         <office:body><office:presentation>{pages}\
         </office:presentation></office:body></office:document-content>"
    );
    let mut parts: Vec<(&str, Vec<u8>)> = vec![
        (
            "mimetype",
            b"application/vnd.oasis.opendocument.presentation".to_vec(),
        ),
        ("styles.xml", styles.into_bytes()),
        ("content.xml", content.into_bytes()),
    ];
    parts.extend(media.iter().map(|(n, b)| (*n, b.clone())));
    Fixture::new(tag, &parts)
}

/// One slide holding `shapes`.
fn page(name: &str, shapes: &str) -> String {
    format!(
        "<draw:page draw:name=\"{name}\" draw:master-page-name=\"Default\">{shapes}\
         </draw:page>"
    )
}

/// A framed text box at a stated box.
fn text_frame(attrs: &str, text: &str) -> String {
    format!(
        "<draw:frame svg:x=\"1in\" svg:y=\"1in\" svg:width=\"4in\" svg:height=\"2in\" \
         {attrs}><draw:text-box><text:p>{text}</text:p></draw:text-box></draw:frame>"
    )
}

#[test]
fn a_deck_renders_one_slide_onto_a_canvas_of_the_stated_size() {
    let f = deck("canvas", "", "", "", &page("First", &text_frame("", "café")));
    let doc = f.doc();
    assert_eq!(doc.shape, Shape::Slide);
    // 10 × 7.5in at 96dpi.
    assert_eq!(doc.natural, Some((px(960.0), px(720.0))));
    assert!(doc.page.is_none(), "a canvas has no page box");
    assert_eq!(doc.section, 0);
    assert!(doc.html.contains("class=\"pp-doc\""), "{}", doc.html);
    assert!(doc.html.contains("width:960px;height:720px"), "{}", doc.html);
    assert!(doc.html.contains("café"), "{}", doc.html);
}

#[test]
fn a_presentation_with_no_page_layout_falls_back_to_a_slide_shaped_canvas() {
    // No `style:page-layout` at all: the page default is Letter *portrait*,
    // which is the wrong shape for a deck, so the 4:3 canvas wins.
    let styles = format!(
        "<office:document-styles {NS}><office:styles/></office:document-styles>"
    );
    let content = format!(
        "<office:document-content {NS}><office:body><office:presentation>\
         {}</office:presentation></office:body></office:document-content>",
        page("One", &text_frame("", "café"))
    );
    let f = Fixture::new(
        "nolayout",
        &[
            ("styles.xml", styles.into_bytes()),
            ("content.xml", content.into_bytes()),
        ],
    );
    assert_eq!(f.doc().natural, Some((DEFAULT_WIDTH, DEFAULT_HEIGHT)));
}

#[test]
fn every_slide_in_the_strip_gets_its_own_title() {
    let pages = format!(
        "{}{}{}",
        page(
            "page1",
            "<draw:frame presentation:class=\"title\" svg:x=\"0in\" svg:y=\"0in\" \
             svg:width=\"4in\" svg:height=\"1in\"><draw:text-box>\
             <text:p>Café  naïve</text:p></draw:text-box></draw:frame>"
        ),
        page("Widget", &text_frame("", "second")),
        page("page3", &text_frame("", "third")),
    );
    let doc = deck("titles", "", "", "", &pages).doc();
    // The title's own text, whitespace collapsed; then a name a person typed;
    // then a position, because `page3` is the producer's own.
    assert_eq!(
        doc.sections,
        vec![
            "Café naïve".to_string(),
            "Widget".to_string(),
            "Slide 3".to_string()
        ]
    );
}

#[test]
fn a_section_past_the_end_clamps_to_the_last_slide() {
    let pages = format!(
        "{}{}",
        page("One", &text_frame("", "first")),
        page("Two", &text_frame("", "second"))
    );
    let f = deck("clamp", "", "", "", &pages);
    let doc = f.render(Some(99), &[]).expect("render");
    assert_eq!(doc.section, 1);
    assert!(doc.html.contains("second"), "{}", doc.html);
    assert!(!doc.html.contains("first"), "{}", doc.html);
}

#[test]
fn a_deck_with_no_slides_is_an_error_rather_than_an_empty_canvas() {
    let f = deck("empty", "", "", "", "");
    assert!(f.render(None, &[]).is_err());
}

#[test]
fn a_shape_carries_its_own_geometry_fill_and_stroke() {
    let named = "<style:style style:name=\"gr1\" style:family=\"graphic\">\
         <style:graphic-properties draw:fill=\"solid\" draw:fill-color=\"#ff0000\" \
         draw:stroke=\"solid\" svg:stroke-color=\"#0000ff\" svg:stroke-width=\"2pt\"/>\
         </style:style>";
    let shapes = "<draw:custom-shape draw:style-name=\"gr1\" svg:x=\"2in\" svg:y=\"1in\" \
         svg:width=\"3in\" svg:height=\"1.5in\"><text:p>café</text:p></draw:custom-shape>";
    let html = deck("paint", named, "", "", &page("One", shapes)).body_html();
    assert!(html.contains("left:192px;top:96px;"), "{html}");
    assert!(html.contains("width:288px;height:144px;"), "{html}");
    assert!(html.contains("background-color:#ff0000"), "{html}");
    // One declaration from `line_css`, not a property name pasted twice. 2pt
    // is 2.67px: the width is the document's, unrounded.
    assert!(html.contains("border:2.67px solid #0000ff;"), "{html}");
    assert!(!html.contains("border:border"), "{html}");
}

#[test]
fn a_hidden_shape_is_not_drawn_in_either_spelling() {
    for attr in ["draw:display=\"none\"", "drawooo:display=\"none\""] {
        let shapes = format!(
            "<draw:custom-shape {attr} svg:x=\"0in\" svg:y=\"0in\" svg:width=\"1in\" \
             svg:height=\"1in\"><text:p>hidden</text:p></draw:custom-shape>{}",
            text_frame("", "shown")
        );
        let content = format!(
            "<office:document-content {NS} \
             xmlns:drawooo=\"http://openoffice.org/2010/draw\">\
             <office:body><office:presentation>{}\
             </office:presentation></office:body></office:document-content>",
            page("One", &shapes)
        );
        let f = Fixture::new(
            "hidden",
            &[
                ("mimetype", b"application/vnd.oasis.opendocument.presentation".to_vec()),
                ("content.xml", content.into_bytes()),
            ],
        );
        let html = f.body_html();
        assert!(!html.contains("hidden"), "{attr}: {html}");
        assert!(html.contains("shown"), "{attr}: {html}");
    }
}

#[test]
fn a_picture_is_the_box_it_is_framed_at() {
    let shapes = "<draw:frame svg:x=\"1in\" svg:y=\"0.5in\" svg:width=\"2in\" \
         svg:height=\"1in\"><svg:desc>a naïve café</svg:desc>\
         <draw:image xlink:href=\"Pictures/1.png\"/></draw:frame>";
    let f = deck_media(
        "pic",
        "",
        "",
        "",
        &page("One", shapes),
        &[("Pictures/1.png", png_bytes(48, 24))],
    );
    let html = f.body_html();
    assert!(html.contains("<img class=\"pp-img\" src=\"data:image/"), "{html}");
    assert!(html.contains("left:96px;top:48px;width:192px;height:96px;"), "{html}");
    // The author's own description is the alt text.
    assert!(html.contains("alt=\"a naïve café\""), "{html}");
}

#[test]
fn an_unresolvable_href_and_an_embedded_object_leave_labelled_boxes() {
    let shapes = "<draw:frame svg:x=\"0in\" svg:y=\"0in\" svg:width=\"2in\" \
         svg:height=\"1in\"><draw:image xlink:href=\"../secret.png\"/></draw:frame>\
         <draw:frame svg:x=\"3in\" svg:y=\"0in\" svg:width=\"2in\" svg:height=\"1in\">\
         <draw:object xlink:href=\"./Object 1\"/></draw:frame>";
    let doc = deck("boxes", "", "", "", &page("One", shapes)).doc();
    assert!(!doc.html.contains("data:image/"), "{}", doc.html);
    assert!(!doc.html.contains("secret"), "{}", doc.html);
    assert!(doc.html.contains("image unavailable"), "{}", doc.html);
    assert!(doc.html.contains("embedded object"), "{}", doc.html);
    assert!(doc.notes.iter().any(|n| n == NOTE_OBJECT), "{:?}", doc.notes);
}

#[test]
fn a_masters_furniture_is_drawn_and_its_prompt_boxes_are_not() {
    let master = "<draw:custom-shape svg:x=\"0in\" svg:y=\"0in\" svg:width=\"10in\" \
         svg:height=\"0.5in\" draw:style-name=\"bar\"/>\
         <draw:frame presentation:class=\"title\" svg:x=\"1in\" svg:y=\"1in\" \
         svg:width=\"4in\" svg:height=\"1in\"><draw:text-box>\
         <text:p>Click to add title</text:p></draw:text-box></draw:frame>\
         <draw:frame draw:name=\"Footer Placeholder 4\" svg:x=\"1in\" svg:y=\"6in\" \
         svg:width=\"4in\" svg:height=\"0.5in\"><draw:text-box><text:p> </text:p>\
         </draw:text-box></draw:frame>\
         <draw:frame draw:name=\"Logo\" svg:x=\"8in\" svg:y=\"0in\" svg:width=\"1in\" \
         svg:height=\"1in\"><draw:text-box><text:p>Widget Inc</text:p>\
         </draw:text-box></draw:frame>";
    let named = "<style:style style:name=\"bar\" style:family=\"graphic\">\
         <style:graphic-properties draw:fill=\"solid\" draw:fill-color=\"#123456\"/>\
         </style:style>";
    let html = deck("master", named, master, "", &page("One", &text_frame("", "slide text")))
        .body_html();
    // Furniture: a filled bar, and a frame with real text in it.
    assert!(html.contains("background-color:#123456"), "{html}");
    assert!(html.contains("Widget Inc"), "{html}");
    // Prompts, in both spellings: the labelled one, and the converted one
    // that carries no `presentation:class` at all and only whitespace.
    assert!(!html.contains("Click to add title"), "{html}");
    assert!(html.contains("slide text"), "{html}");
}

#[test]
fn an_empty_text_box_gets_no_selectable_box_over_the_shape() {
    let shapes = "<draw:custom-shape svg:x=\"0in\" svg:y=\"0in\" svg:width=\"2in\" \
         svg:height=\"1in\"><text:p> </text:p></draw:custom-shape>";
    let html = deck("emptytb", "", "", "", &page("One", shapes)).body_html();
    // The shape itself is drawn; the text box a producer writes into every
    // shape is not, or it would sit over the shape catching drags.
    assert!(html.contains("class=\"pp-sp\""), "{html}");
    assert!(!html.contains("class=\"pp-tb\""), "{html}");
}

#[test]
fn text_is_anchored_the_way_the_style_asks() {
    let named = "<style:style style:name=\"mid\" style:family=\"graphic\">\
         <style:graphic-properties draw:textarea-vertical-align=\"middle\"/></style:style>\
         <style:style style:name=\"bot\" style:family=\"graphic\">\
         <style:graphic-properties draw:textarea-vertical-align=\"bottom\"/></style:style>";
    let shapes = format!(
        "{}{}{}",
        text_frame("draw:style-name=\"mid\"", "centre"),
        text_frame("draw:style-name=\"bot\"", "bottom"),
        text_frame("", "top"),
    );
    let html = deck("anchor", named, "", "", &page("One", &shapes)).body_html();
    assert!(html.contains("justify-content:center"), "{html}");
    assert!(html.contains("justify-content:flex-end"), "{html}");
    assert!(html.contains("justify-content:flex-start"), "{html}");
}

#[test]
fn a_slide_draws_lists_and_tables_through_the_same_walk_as_a_page() {
    let named = "<text:list-style style:name=\"L1\">\
         <text:list-level-style-bullet text:level=\"1\" text:bullet-char=\"•\"/>\
         </text:list-style>";
    let shapes = "<draw:frame svg:x=\"1in\" svg:y=\"1in\" svg:width=\"4in\" \
         svg:height=\"3in\"><draw:text-box>\
         <text:list text:style-name=\"L1\"><text:list-item><text:p>café</text:p>\
         </text:list-item></text:list>\
         <table:table><table:table-row><table:table-cell><text:p>cell</text:p>\
         </table:table-cell></table:table-row></table:table>\
         </draw:text-box></draw:frame>";
    let html = deck("blocks", named, "", "", &page("One", shapes)).body_html();
    // The slide's own class names, not the page column's.
    assert!(html.contains("class=\"pp-p pp-li\""), "{html}");
    assert!(html.contains("class=\"pp-bu\""), "{html}");
    assert!(html.contains("class=\"pp-tbl"), "{html}");
    assert!(!html.contains("of-p"), "{html}");
    assert!(!html.contains("of-tbl"), "{html}");
    // The cell is styled by tag on a slide, so it publishes no class — and an
    // empty `class=""` would be litter.
    assert!(!html.contains("class=\"\""), "{html}");
}

#[test]
fn a_rotation_reaches_the_box_and_a_skew_is_noted_instead() {
    let shapes = "<draw:custom-shape draw:transform=\"rotate (0.5) translate (1in 2in)\" \
         svg:width=\"2in\" svg:height=\"1in\"><text:p>turned</text:p></draw:custom-shape>";
    let doc = deck("rot", "", "", "", &page("One", shapes)).doc();
    // ODF states radians counter-clockwise; CSS turns clockwise.
    assert!(doc.html.contains("transform:rotate(-28.6"), "{}", doc.html);
    // `translate` is where the shape is, since a box has no transform origin
    // to slide from.
    assert!(doc.html.contains("left:96px;top:192px;"), "{}", doc.html);
    assert!(doc.notes.iter().all(|n| n != NOTE_TRANSFORM), "{:?}", doc.notes);

    let skewed = "<draw:custom-shape draw:transform=\"skewX (0.2)\" svg:width=\"2in\" \
         svg:height=\"1in\"><text:p>skewed</text:p></draw:custom-shape>";
    let doc = deck("skew", "", "", "", &page("One", skewed)).doc();
    assert!(doc.notes.iter().any(|n| n == NOTE_TRANSFORM), "{:?}", doc.notes);
}

#[test]
fn a_custom_outline_is_noted_only_when_a_rectangle_loses_something() {
    let rect = "<draw:custom-shape svg:width=\"2in\" svg:height=\"1in\">\
         <draw:enhanced-geometry draw:type=\"ooxml-rect\"/></draw:custom-shape>";
    let doc = deck("rect", "", "", "", &page("One", rect)).doc();
    // A rectangle drawn as a rectangle lost nothing, and a note on every shape
    // of a converted deck would bury the ones that matter.
    assert!(doc.notes.iter().all(|n| n != NOTE_CUSTOM), "{:?}", doc.notes);

    let star = "<draw:custom-shape svg:width=\"2in\" svg:height=\"1in\">\
         <draw:enhanced-geometry draw:type=\"star5\"/></draw:custom-shape>";
    let doc = deck("star", "", "", "", &page("One", star)).doc();
    assert!(doc.notes.iter().any(|n| n == NOTE_CUSTOM), "{:?}", doc.notes);
}

#[test]
fn a_line_is_the_stroke_between_its_ends() {
    let named = "<style:style style:name=\"ln\" style:family=\"graphic\">\
         <style:graphic-properties draw:stroke=\"solid\" svg:stroke-color=\"#00ff00\" \
         svg:stroke-width=\"3pt\"/></style:style>";
    let shapes = "<draw:line draw:style-name=\"ln\" svg:x1=\"1in\" svg:y1=\"2in\" \
         svg:x2=\"4in\" svg:y2=\"2in\"/>";
    let html = deck("line", named, "", "", &page("One", shapes)).body_html();
    // One edge, not four: a border on every side would draw a box.
    assert!(html.contains("border-top:4px solid #00ff00"), "{html}");
    assert!(!html.contains("border:4px"), "{html}");
    assert!(html.contains("left:96px;top:192px;width:288px"), "{html}");
}

#[test]
fn the_canvas_takes_the_masters_background_and_the_slides_own_overrides_it() {
    let named = "<style:style style:name=\"dp1\" style:family=\"drawing-page\">\
         <style:drawing-page-properties draw:fill=\"solid\" draw:fill-color=\"#101010\"/>\
         </style:style>\
         <style:style style:name=\"dp2\" style:family=\"drawing-page\">\
         <style:drawing-page-properties draw:fill=\"solid\" draw:fill-color=\"#202020\"/>\
         </style:style>";
    let html = deck("bg", named, "", "", &page("One", &text_frame("", "x"))).body_html();
    assert!(html.contains("background-color:#101010"), "{html}");

    let own = "<draw:page draw:name=\"One\" draw:master-page-name=\"Default\" \
         draw:style-name=\"dp2\">"
        .to_string()
        + &text_frame("", "x")
        + "</draw:page>";
    let html = deck("bg2", named, "", "", &own).body_html();
    assert!(html.contains("background-color:#202020"), "{html}");
    assert!(!html.contains("#101010"), "{html}");
}

#[test]
fn speaker_notes_are_not_drawn_and_not_noted() {
    let shapes = format!(
        "{}<presentation:notes><draw:frame svg:width=\"4in\" svg:height=\"2in\">\
         <draw:text-box><text:p>only for the speaker</text:p></draw:text-box>\
         </draw:frame></presentation:notes>",
        text_frame("", "on the slide")
    );
    let doc = deck("notes", "", "", "", &page("One", &shapes)).doc();
    assert!(!doc.html.contains("only for the speaker"), "{}", doc.html);
    assert!(doc.html.contains("on the slide"), "{}", doc.html);
    // Deliberately *not* noted: every slide of every deck has a notes page, so
    // a footer line about it is on every slide and tells the reader nothing.
    assert!(doc.notes.is_empty(), "{:?}", doc.notes);
}

#[test]
fn terms_are_marked_on_the_slide_that_holds_them() {
    let f = deck("terms", "", "", "", &page("One", &text_frame("", "the runner was running")));
    let doc = f.render(None, &["run".to_string()]).expect("render");
    assert!(doc.html.contains("<mark class=\"preview-hl\""), "{}", doc.html);
    assert!(doc.best_mark_id.is_some());
}

#[test]
fn the_shape_count_is_capped_and_says_so() {
    let one = "<draw:custom-shape svg:x=\"0in\" svg:y=\"0in\" svg:width=\"1in\" \
         svg:height=\"1in\"><text:p>x</text:p></draw:custom-shape>";
    let shapes: String = one.repeat(MAX_SHAPES + 20);
    let doc = deck("shapecap", "", "", "", &page("One", &shapes)).doc();
    let body = doc.html.split_once("</style>").map(|(_, b)| b).unwrap_or("");
    assert_eq!(body.matches("class=\"pp-sp\"").count(), MAX_SHAPES);
    assert!(doc.notes.iter().any(|n| n == NOTE_SHAPES), "{:?}", doc.notes);
}

#[test]
fn a_shape_with_no_size_is_not_placed_at_all() {
    let shapes = "<draw:custom-shape svg:x=\"1in\" svg:y=\"1in\" svg:width=\"2in\">\
         <text:p>half a box</text:p></draw:custom-shape>";
    let html = deck("nosize", "", "", "", &page("One", shapes)).body_html();
    // Both extents or neither: a guessed height puts a wrongly-shaped box on
    // the slide.
    assert!(!html.contains("half a box"), "{html}");
    assert!(!html.contains("class=\"pp-sp\""), "{html}");
}
