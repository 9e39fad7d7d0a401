//! Text documents, from package to page.

use odf_preview::document::{OfficeDoc, Shape};
use odf_preview::media::{Picture, Pictures, Shown, Wanted};
use odf_preview::notes::Notes;
use odf_preview::odf::pkg::{open, Entries, Part, Parts};
use odf_preview::odf::render;
use odf_preview::values::Values;
use odf_preview::odf::text::{render_with, NOTE_COLUMNS, NOTE_HEADER};

fn px(v: f64) -> i64 {
    (v * 381_000_000.0).round() as i64
}

const NS: &str = "xmlns:office=\"urn:oasis:names:tc:opendocument:xmlns:office:1.0\" \
     xmlns:text=\"urn:oasis:names:tc:opendocument:xmlns:text:1.0\" \
     xmlns:style=\"urn:oasis:names:tc:opendocument:xmlns:style:1.0\" \
     xmlns:fo=\"urn:oasis:names:tc:opendocument:xmlns:xsl-fo-compatible:1.0\" \
     xmlns:table=\"urn:oasis:names:tc:opendocument:xmlns:table:1.0\" \
     xmlns:draw=\"urn:oasis:names:tc:opendocument:xmlns:drawing:1.0\" \
     xmlns:svg=\"urn:oasis:names:tc:opendocument:xmlns:svg-compatible:1.0\" \
     xmlns:xlink=\"http://www.w3.org/1999/xlink\"";

/// A package in memory.
struct Fixture {
    parts: Vec<(String, Vec<u8>)>,
}

impl Fixture {
    fn new(_tag: &str, parts: &[(&str, Vec<u8>)]) -> Fixture {
        Fixture { parts: parts.iter().map(|(n, b)| (n.to_string(), b.clone())).collect() }
    }

    fn part(&self, name: &str) -> Part {
        match self.parts.iter().find(|p| p.0 == name) {
            None => Ok(None),
            Some(p) => String::from_utf8(p.1.clone()).map(Some).map_err(|e| e.to_string()),
        }
    }

    fn parts(&self) -> Parts {
        Parts {
            entries: Entries(self.parts.iter().map(|p| p.0.clone()).collect()),
            manifest: self.part("META-INF/manifest.xml"),
            mimetype: self.part("mimetype"),
            content: self.part("content.xml"),
            styles: self.part("styles.xml"),
            meta: self.part("meta.xml"),
            settings: self.part("settings.xml"),
        }
    }

    /// Renders, hands in the pictures that the document shows, and renders again.
    fn render(&self, section: Option<u32>, terms: &[String]) -> Result<OfficeDoc, String> {
        let first = render(self.parts(), section, terms, &Pictures::none(), &Values::none())?;
        let list = first.wanted.iter().map(picture).collect();
        let pictures = Pictures { list, notes: Vec::new() };
        render(self.parts(), section, terms, &pictures, &Values::none())
    }

    fn doc(&self) -> OfficeDoc {
        self.render(None, &[]).expect("render")
    }

    fn html(&self) -> String {
        self.doc().html
    }

    /// The rendered body without the stylesheet in front of it, which mentions every
    /// class.
    fn body_html(&self) -> String {
        let html = self.html();
        match html.split_once("</style>") {
            Some((_, body)) => body.to_string(),
            None => html,
        }
    }
}

fn picture(w: &Wanted) -> Picture {
    Picture {
        part: w.part.clone(),
        want: w.want,
        shown: Shown::DataUri("data:image/png;base64,AAAA".to_string()),
    }
}

/// `content.xml`: `auto` becomes its automatic styles, `body` its text body.
fn content(auto: &str, body: &str) -> String {
    format!(
        "<office:document-content {NS}>\
         <office:automatic-styles>{auto}</office:automatic-styles>\
         <office:body><office:text>{body}</office:text></office:body>\
         </office:document-content>"
    )
}

/// `styles.xml`: the `Standard` paragraph style every producer writes, a US
/// Letter page with 1in margins (816 × 1056 px, 96px padding), plus whatever
/// `extra` adds to `office:styles` and `master` to the master page.
fn styles_with(extra: &str, master: &str) -> String {
    format!(
        "<office:document-styles {NS}>\
         <office:styles>\
         <style:style style:name=\"Standard\" style:family=\"paragraph\">\
         <style:text-properties fo:font-family=\"Widget Sans\" fo:font-size=\"12pt\"/>\
         </style:style>{extra}</office:styles>\
         <office:automatic-styles>\
         <style:page-layout style:name=\"pm1\"><style:page-layout-properties \
         fo:page-width=\"8.5in\" fo:page-height=\"11in\" fo:margin-top=\"1in\" \
         fo:margin-bottom=\"1in\" fo:margin-left=\"1in\" fo:margin-right=\"1in\"/>\
         </style:page-layout></office:automatic-styles>\
         <office:master-styles>\
         <style:master-page style:name=\"Standard\" style:page-layout-name=\"pm1\">{master}\
         </style:master-page></office:master-styles></office:document-styles>"
    )
}

fn styles(extra: &str) -> String {
    styles_with(extra, "")
}

/// A three-part odt: `mimetype`, `styles.xml`, `content.xml`.
fn odt(tag: &str, styles_xml: &str, content_xml: &str) -> Fixture {
    odt_media(tag, styles_xml, content_xml, &[])
}

fn odt_media(
    tag: &str,
    styles_xml: &str,
    content_xml: &str,
    media: &[(&str, Vec<u8>)],
) -> Fixture {
    let mut parts: Vec<(&str, Vec<u8>)> = vec![
        (
            "mimetype",
            b"application/vnd.oasis.opendocument.text".to_vec(),
        ),
        ("styles.xml", styles_xml.as_bytes().to_vec()),
        ("content.xml", content_xml.as_bytes().to_vec()),
    ];
    parts.extend(media.iter().map(|(n, b)| (*n, b.clone())));
    Fixture::new(tag, &parts)
}

/// The common case: default styles, one body, no automatic styles.
fn body(tag: &str, body: &str) -> Fixture {
    odt(tag, &styles(""), &content("", body))
}

// ── the document as a whole ─────────────────────────────────────────────

#[test]
fn renders_one_page_column_at_the_stated_geometry() {
    let doc = body("geom", "<text:p>café</text:p>").doc();
    assert_eq!(doc.shape, Shape::Doc);
    // 8.5in × 96dpi, and a 1in margin on each side.
    assert_eq!(doc.page, Some((px(816.0), px(96.0), px(96.0))));
    // A text document renders whole: one section, so the strip has nothing to
    // switch between.
    assert!(doc.sections.is_empty());
    assert_eq!(doc.section, 0);
    assert!(doc.natural.is_none(), "a column has no fixed canvas");
    assert!(!doc.truncated);
    assert!(doc.notes.is_empty(), "{:?}", doc.notes);
    assert!(doc.html.contains("class=\"of-page\""), "{}", doc.html);
    assert!(doc.html.contains("café"));
}

#[test]
fn a_missing_styles_part_still_renders_and_says_so() {
    let f = Fixture::new(
        "nostyles",
        &[(
            "content.xml",
            content("", "<text:p>café</text:p>").into_bytes(),
        )],
    );
    let doc = f.doc();
    assert!(doc.html.contains("café"));
    // ODF keeps the real stylesheet in `styles.xml`, so losing it is a
    // degradation rather than the loss of a few overrides.
    assert!(!doc.notes.is_empty(), "a missing stylesheet is a note");
}

#[test]
fn a_missing_or_malformed_body_is_an_error() {
    let f = Fixture::new("nocontent", &[("styles.xml", styles("").into_bytes())]);
    assert!(f.render(None, &[]).is_err());

    let f = Fixture::new(
        "badxml",
        &[("content.xml", b"<office:document-content".to_vec())],
    );
    assert!(f.render(None, &[]).is_err());
}

#[test]
fn document_text_is_escaped() {
    let html = body("esc", "<text:p>a &lt;b&gt; &amp; \"c\"</text:p>").html();
    assert!(html.contains("a &lt;b&gt; &amp; \"c\""), "{html}");
}

#[test]
fn headings_are_real_elements_and_clamp_at_six() {
    let html = body(
        "head",
        "<text:h text:outline-level=\"1\">one</text:h>\
         <text:h text:outline-level=\"8\">deep</text:h>\
         <text:h>bare</text:h>",
    )
    .html();
    assert!(html.contains("<h1 "), "{html}");
    // Level 8 keeps its place in the outline rather than losing it: HTML has
    // six heading elements, so the deeper levels collapse onto the last.
    assert!(html.contains("<h6 "), "{html}");
    assert!(!html.contains("<h8"), "{html}");
    // A `text:h` with no level is still a heading, and level 1 is what Writer
    // means by one.
    assert_eq!(html.matches("<h1 ").count(), 2, "{html}");
}

#[test]
fn headers_and_footers_are_noted_rather_than_drawn() {
    let f = odt(
        "hdr",
        &styles_with(
            "",
            "<style:header><text:p>naïve running head</text:p></style:header>",
        ),
        &content("", "<text:p>café</text:p>"),
    );
    let doc = f.doc();
    assert!(doc.notes.iter().any(|n| n == NOTE_HEADER), "{:?}", doc.notes);
    assert!(
        !doc.html.contains("running head"),
        "a header belongs to a page, and this column has none"
    );
}

// ── the property cascade ────────────────────────────────────────────────

#[test]
fn character_styles_cascade_and_a_percentage_size_resolves() {
    let extra = "<style:style style:name=\"Strong\" style:family=\"text\">\
         <style:text-properties fo:font-weight=\"bold\"/></style:style>\
         <style:style style:name=\"Big\" style:family=\"text\">\
         <style:text-properties fo:font-size=\"200%\" fo:font-style=\"italic\"/></style:style>";
    let html = odt(
        "chars",
        &styles(extra),
        &content(
            "",
            "<text:p><text:span text:style-name=\"Strong\">bold\
             <text:span text:style-name=\"Big\">both</text:span></text:span></text:p>",
        ),
    )
    .html();
    assert!(html.contains("font-weight:700"), "{html}");
    // 200% of the paragraph's 12pt is 24pt, i.e. 32px — and the nested span
    // keeps the weight it inherited.
    assert!(html.contains("font-size:32px"), "{html}");
    assert!(html.contains("font-style:italic"), "{html}");
}

#[test]
fn an_automatic_style_overrides_the_named_one_it_is_based_on() {
    let auto = "<style:style style:name=\"P1\" style:family=\"paragraph\" \
         style:parent-style-name=\"Standard\">\
         <style:paragraph-properties fo:text-align=\"center\" fo:margin-left=\"0.5in\" \
         fo:margin-right=\"0.25in\" fo:text-indent=\"-0.25in\"/></style:style>";
    let html = odt(
        "auto",
        &styles(""),
        &content(auto, "<text:p text:style-name=\"P1\">café</text:p>"),
    )
    .html();
    assert!(html.contains("text-align:center"), "{html}");
    assert!(html.contains("margin-left:48px"), "{html}");
    assert!(html.contains("margin-right:24px"), "{html}");
    // ODF spells a hanging indent as a negative `fo:text-indent`, which is
    // already the model's convention — nothing is negated on the way through.
    assert!(html.contains("text-indent:-24px"), "{html}");
}

#[test]
fn the_three_line_height_spellings_reach_the_box() {
    let auto = "<style:style style:name=\"Prop\" style:family=\"paragraph\">\
         <style:paragraph-properties fo:line-height=\"150%\"/></style:style>\
         <style:style style:name=\"Least\" style:family=\"paragraph\">\
         <style:paragraph-properties style:line-height-at-least=\"24pt\"/></style:style>\
         <style:style style:name=\"Lead\" style:family=\"paragraph\">\
         <style:paragraph-properties style:line-spacing=\"6pt\"/></style:style>";
    let html = odt(
        "lines",
        &styles(""),
        &content(
            auto,
            "<text:p text:style-name=\"Prop\">a</text:p>\
             <text:p text:style-name=\"Least\">b</text:p>\
             <text:p text:style-name=\"Lead\">c</text:p>",
        ),
    )
    .html();
    // A proportional height is against the font's line, so 150% of single
    // spacing is 1.8 of the em box — unitless, so a run bigger than the
    // paragraph resolves it against its own size.
    assert!(html.contains("line-height:1.8;"), "{html}");
    // A floor keeps the em fallback in the declaration: which of the two wins
    // depends on the font, so CSS decides it at layout time.
    assert!(html.contains("line-height:max(32px, 1.2em)"), "{html}");
    // Leading is added to a single line rather than being one.
    assert!(html.contains("line-height:27.2px"), "{html}");
}

#[test]
fn a_paragraph_carries_its_own_border_and_shading() {
    let auto = "<style:style style:name=\"Boxed\" style:family=\"paragraph\">\
         <style:paragraph-properties fo:border=\"1pt solid #ff0000\" \
         fo:background-color=\"#00ff00\"/></style:style>";
    let html = odt(
        "boxed",
        &styles(""),
        &content(auto, "<text:p text:style-name=\"Boxed\">café</text:p>"),
    )
    .html();
    assert!(html.contains("background-color:#00ff00"), "{html}");
    assert!(html.contains("solid #ff0000"), "{html}");
}

#[test]
fn contextual_spacing_closes_the_gap_between_neighbours_of_one_style() {
    let auto = "<style:style style:name=\"Tight\" style:family=\"paragraph\">\
         <style:paragraph-properties fo:margin-top=\"12pt\" fo:margin-bottom=\"12pt\" \
         style:contextual-spacing=\"true\"/></style:style>\
         <style:style style:name=\"Loose\" style:family=\"paragraph\">\
         <style:paragraph-properties fo:margin-top=\"12pt\"/></style:style>";
    let two = odt(
        "ctx",
        &styles(""),
        &content(
            auto,
            "<text:p text:style-name=\"Tight\">one</text:p>\
             <text:p text:style-name=\"Tight\">two</text:p>",
        ),
    )
    .html();
    // The first still opens its gap — only the seam between two neighbours of
    // the same style closes, and only on the leading side (the predecessor is
    // already in the buffer).
    assert_eq!(two.matches("margin-top:16px").count(), 1, "{two}");

    let mixed = odt(
        "ctx2",
        &styles(""),
        &content(
            auto,
            "<text:p text:style-name=\"Loose\">one</text:p>\
             <text:p text:style-name=\"Tight\">two</text:p>",
        ),
    )
    .html();
    assert_eq!(mixed.matches("margin-top:16px").count(), 2, "{mixed}");
}

#[test]
fn an_author_page_break_is_drawn_and_the_producers_is_not() {
    let auto = "<style:style style:name=\"Br\" style:family=\"paragraph\">\
         <style:paragraph-properties fo:break-before=\"page\"/></style:style>\
         <style:style style:name=\"Auto\" style:family=\"paragraph\">\
         <style:paragraph-properties fo:break-before=\"auto\"/></style:style>";
    let html = odt(
        "breaks",
        &styles(""),
        &content(
            auto,
            "<text:p>one</text:p><text:soft-page-break/>\
             <text:p text:style-name=\"Br\">two</text:p>\
             <text:p text:style-name=\"Auto\">three</text:p>",
        ),
    )
    .html();
    // One rule: the author's break. `text:soft-page-break` is where the
    // producer's own layout engine broke a page this column does not have, and
    // `auto` is the document cancelling an inherited break.
    assert_eq!(html.matches("class=\"of-pb\"").count(), 1, "{html}");
}

#[test]
fn a_multi_column_section_is_shown_as_one_column_and_says_so() {
    let auto = "<style:style style:name=\"Sect1\" style:family=\"section\">\
         <style:section-properties><style:columns fo:column-count=\"2\"/>\
         </style:section-properties></style:style>";
    let doc = odt(
        "cols",
        &styles(""),
        &content(
            auto,
            "<text:section text:style-name=\"Sect1\"><text:p>café</text:p></text:section>",
        ),
    )
    .doc();
    assert!(doc.html.contains("café"), "a section's content is blocks");
    assert!(
        doc.notes.iter().any(|n| n == NOTE_COLUMNS),
        "{:?}",
        doc.notes
    );
}

// ── lists ───────────────────────────────────────────────────────────────

/// Two numbered levels and a bullet third, the shape every producer writes.
fn list_styles() -> String {
    "<text:list-style style:name=\"L1\">\
     <text:list-level-style-number text:level=\"1\" style:num-format=\"1\" \
     style:num-suffix=\".\"/>\
     <text:list-level-style-number text:level=\"2\" style:num-format=\"a\" \
     style:num-suffix=\")\"/>\
     <text:list-level-style-bullet text:level=\"3\" text:bullet-char=\"•\"/>\
     </text:list-style>"
        .to_string()
}

/// The labels a rendered list drew, in document order.
fn markers(html: &str) -> Vec<String> {
    html.split("class=\"of-bu\"")
        .skip(1)
        .filter_map(|chunk| {
            let rest = chunk.split_once('>')?.1;
            Some(rest.split_once('<')?.0.trim().to_string())
        })
        .collect()
}

#[test]
fn nested_list_labels_follow_their_levels_in_document_order() {
    let html = odt(
        "list",
        &styles(&list_styles()),
        &content(
            "",
            "<text:list text:style-name=\"L1\">\
             <text:list-item><text:p>one</text:p>\
             <text:list><text:list-item><text:p>inner</text:p></text:list-item>\
             <text:list-item><text:p>inner2</text:p></text:list-item></text:list>\
             </text:list-item>\
             <text:list-item><text:p>two</text:p></text:list-item></text:list>",
        ),
    )
    .html();
    // A nested list with no style of its own inherits the enclosing one's, and
    // the level is the nesting depth.
    assert_eq!(markers(&html), vec!["1.", "a)", "b)", "2."], "{html}");
    assert!(html.contains("class=\"of-p of-li\""), "{html}");
}

#[test]
fn a_list_header_draws_no_number_and_an_item_holding_only_a_list_consumes_none() {
    let html = odt(
        "hdr2",
        &styles(&list_styles()),
        &content(
            "",
            "<text:list text:style-name=\"L1\">\
             <text:list-header><text:p>intro</text:p></text:list-header>\
             <text:list-item><text:p>one</text:p></text:list-item>\
             <text:list-item>\
             <text:list><text:list-item><text:p>inner</text:p></text:list-item></text:list>\
             </text:list-item>\
             <text:list-item><text:p>two</text:p></text:list-item></text:list>",
        ),
    )
    .html();
    // The header is indented like an item but takes no number, and neither does
    // the item that draws nothing of its own.
    assert_eq!(markers(&html), vec!["1.", "a)", "2."], "{html}");
    assert!(html.contains("intro"), "the header's text still renders");
}

#[test]
fn a_start_value_restarts_a_list_and_continue_numbering_resumes_one() {
    let html = odt(
        "start",
        &styles(&list_styles()),
        &content(
            "",
            "<text:list text:style-name=\"L1\">\
             <text:list-item><text:p>a</text:p></text:list-item>\
             <text:list-item text:start-value=\"5\"><text:p>b</text:p></text:list-item>\
             </text:list>",
        ),
    )
    .html();
    assert_eq!(markers(&html), vec!["1.", "5."], "{html}");

    let body = |cont: &str| {
        format!(
            "<text:list text:style-name=\"L1\">\
             <text:list-item><text:p>a</text:p></text:list-item></text:list>\
             <text:list text:style-name=\"L1\"{cont}>\
             <text:list-item><text:p>b</text:p></text:list-item></text:list>"
        )
    };
    let resumed = odt(
        "cont",
        &styles(&list_styles()),
        &content("", &body(" text:continue-numbering=\"true\"")),
    )
    .html();
    assert_eq!(markers(&resumed), vec!["1.", "2."], "{resumed}");
    // A new list restarts unless it says otherwise.
    let restarted = odt("cont2", &styles(&list_styles()), &content("", &body(""))).html();
    assert_eq!(markers(&restarted), vec!["1.", "1."], "{restarted}");
}

#[test]
fn a_bullet_level_draws_its_character() {
    let html = odt(
        "bullet",
        &styles(&list_styles()),
        &content(
            "",
            "<text:list text:style-name=\"L1\"><text:list-item>\
             <text:list><text:list-item>\
             <text:list><text:list-item><text:p>deep</text:p></text:list-item></text:list>\
             </text:list-item></text:list></text:list-item></text:list>",
        ),
    )
    .html();
    assert_eq!(markers(&html), vec!["•"], "{html}");
}

// ── runs ────────────────────────────────────────────────────────────────

#[test]
fn tabs_spaces_and_line_breaks_survive_as_themselves() {
    let html = body(
        "runs",
        "<text:p>a<text:tab/>b<text:s text:c=\"3\"/>c<text:s/>d<text:line-break/>e</text:p>",
    )
    .html();
    // A literal U+0009, because only a real tab is subject to `tab-size`.
    assert!(html.contains("a\tb   c d"), "{html}");
    // A line break never takes the page-break class.
    assert!(html.contains("<br>"), "{html}");
    assert!(!html.contains("<br class"), "{html}");
}

#[test]
fn a_hyperlink_is_whitelisted_before_it_reaches_an_attribute() {
    let html = body(
        "links",
        "<text:p><text:a xlink:href=\"https://example.org/?a=1&amp;b=2\">good</text:a>\
         <text:a xlink:href=\"javascript:alert(1)\">bad</text:a></text:p>",
    )
    .html();
    assert!(
        html.contains("href=\"https://example.org/?a=1&amp;b=2\""),
        "{html}"
    );
    // A rejected destination renders its text without an `<a>` rather than
    // falling back to anything.
    assert!(!html.contains("javascript"), "{html}");
    assert!(html.contains("bad"), "{html}");
    assert_eq!(html.matches("<a ").count(), 1, "{html}");
}

#[test]
fn a_bookmark_becomes_an_anchor_the_document_can_be_linked_to() {
    let html = body(
        "marks",
        "<text:p><text:bookmark-start text:name=\"café Widget\"/>x\
         <text:bookmark-end text:name=\"café Widget\"/></text:p>\
         <text:bookmark text:name=\"plain\"/>",
    )
    .html();
    // Folded to what an id may hold — `é` and the space are both replaced —
    // and prefixed so a document's own name cannot collide with an id this
    // renderer generates. The end marker is zero-width and adds nothing.
    assert!(
        html.contains("<span id=\"of-bm-caf--Widget\"></span>"),
        "{html}"
    );
    assert!(html.contains("<span id=\"of-bm-plain\"></span>"), "{html}");
}

#[test]
fn tracked_deletions_and_annotations_are_not_document_text() {
    let html = body(
        "tracked",
        "<text:tracked-changes><text:changed-region>\
         <text:deletion><text:p>gone</text:p></text:deletion>\
         </text:changed-region></text:tracked-changes>\
         <text:p>kept<office:annotation><text:p>comment</text:p></office:annotation>\
         <text:change-start/><text:change-end/></text:p>",
    )
    .html();
    assert!(html.contains("kept"), "{html}");
    // A preview that shows a deletion is showing a document that does not
    // exist, and a comment is an annotation *about* the document.
    assert!(!html.contains("gone"), "{html}");
    assert!(!html.contains("comment"), "{html}");
}

#[test]
fn a_field_and_an_index_keep_their_cached_text() {
    let html = body(
        "fields",
        "<text:p><text:page-number>7</text:page-number> of \
         <text:page-count>9</text:page-count></text:p>\
         <text:table-of-content><text:index-body>\
         <text:p>Chapter one</text:p></text:index-body></text:table-of-content>",
    )
    .html();
    // The producer already resolved both; the cached result is the only text
    // that exists here.
    assert!(html.contains("7 of 9"), "{html}");
    assert!(html.contains("Chapter one"), "{html}");
}

// ── footnotes ───────────────────────────────────────────────────────────

#[test]
fn notes_get_a_marker_in_the_text_and_a_block_at_the_end() {
    let doc = body(
        "notes",
        "<text:p>body<text:note text:note-class=\"footnote\">\
         <text:note-citation>1</text:note-citation>\
         <text:note-body><text:p>the note</text:p></text:note-body></text:note></text:p>",
    )
    .doc();
    let html = &doc.html;
    // The marker links to the note and the note links back.
    assert!(html.contains("id=\"of-fn-ref-1\""), "{html}");
    assert!(html.contains("href=\"#of-fn-1\""), "{html}");
    assert!(html.contains("class=\"of-fnotes\""), "{html}");
    assert!(html.contains("id=\"of-fn-1\""), "{html}");
    assert!(html.contains("href=\"#of-fn-ref-1\""), "{html}");
    assert!(html.contains("the note"), "{html}");
    // A reference is a superscript in every producer's output.
    assert!(html.contains("vertical-align:super"), "{html}");
    // Where the notes sit is visible in the column itself, so it is not a
    // footer line.
    assert!(doc.notes.is_empty(), "{:?}", doc.notes);
}

#[test]
fn endnotes_are_numbered_apart_from_footnotes() {
    let html = body(
        "notes2",
        "<text:p>a<text:note text:note-class=\"footnote\">\
         <text:note-body><text:p>f</text:p></text:note-body></text:note>\
         b<text:note text:note-class=\"endnote\">\
         <text:note-body><text:p>e</text:p></text:note-body></text:note></text:p>",
    )
    .html();
    assert!(html.contains("id=\"of-fn-1\""), "{html}");
    assert!(html.contains("id=\"of-en-1\""), "{html}");
    // No citation of its own: a footnote counts in decimals, an endnote in
    // lower-case roman.
    assert!(html.contains(">i</a>"), "{html}");
}

// ── search terms ────────────────────────────────────────────────────────

#[test]
fn terms_are_marked_in_the_first_paint_and_the_best_one_is_named() {
    let f = body("terms", "<text:p>the runner was running fast</text:p>");
    let doc = f.render(None, &["run".to_string()]).expect("render");
    // Keyed through the same porter stemming FTS5 uses, so `run` marks
    // `running` and not `fast`.
    assert!(doc.html.contains("<mark class=\"preview-hl\""), "{}", doc.html);
    assert!(doc.html.contains("id=\"pm-"), "{}", doc.html);
    let id = doc.best_mark_id.expect("a match names a jump target");
    assert!(doc.html.contains(&format!("id=\"{id}\"")), "{id}");
}

// ── caps ────────────────────────────────────────────────────────────────

/// Renders with a byte cap and an image budget the real entry point would not
/// use, so the refusal paths are reachable without megabytes of fixture.
fn render_capped(f: &Fixture, cap: usize) -> OfficeDoc {
    let mut notes = Notes::new();
    let package = open(f.parts(), &mut notes).expect("open");
    render_with(package, notes, &[], &Pictures::none(), cap).expect("render")
}

#[test]
fn the_byte_cap_truncates_and_still_closes_every_tag() {
    let long: String = (0..400)
        .map(|i| format!("<text:p>paragraph {i} of café</text:p>"))
        .collect();
    let f = body("cap", &long);
    let doc = render_capped(&f, 2_048);
    assert!(doc.truncated, "the cap must be reached");
    // Never unbalanced: the writer closes what it opened, whatever the cap did.
    assert!(doc.html.contains("class=\"of-page\""), "{}", doc.html);
    assert!(doc.html.trim_end().ends_with("</div>"), "{}", doc.html);
    assert_eq!(
        doc.html.matches("<div").count(),
        doc.html.matches("</div>").count(),
        "{}",
        doc.html
    );
    assert_eq!(
        doc.html.matches("<p ").count(),
        doc.html.matches("</p>").count(),
        "{}",
        doc.html
    );
}
