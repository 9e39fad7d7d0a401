//! Frames and pictures in the text.

use odf_preview::document::OfficeDoc;
use odf_preview::media::{Picture, Pictures, Shown, Wanted};
use odf_preview::odf::pkg::{Entries, Part, Parts};
use odf_preview::odf::render;
use odf_preview::values::Values;
use odf_preview::odf::draw::{MAX_GRAPHICS, NOTE_ANCHOR, NOTE_COUNT, NOTE_OBJECT};
use odf_preview::odf::text::NOTE_TXBX;

const NS: &str = "xmlns:office=\"urn:oasis:names:tc:opendocument:xmlns:office:1.0\" \
     xmlns:text=\"urn:oasis:names:tc:opendocument:xmlns:text:1.0\" \
     xmlns:style=\"urn:oasis:names:tc:opendocument:xmlns:style:1.0\" \
     xmlns:fo=\"urn:oasis:names:tc:opendocument:xmlns:xsl-fo-compatible:1.0\" \
     xmlns:table=\"urn:oasis:names:tc:opendocument:xmlns:table:1.0\" \
     xmlns:draw=\"urn:oasis:names:tc:opendocument:xmlns:drawing:1.0\" \
     xmlns:svg=\"urn:oasis:names:tc:opendocument:xmlns:svg-compatible:1.0\" \
     xmlns:xlink=\"http://www.w3.org/1999/xlink\"";

/// A package in memory.
struct Fixture {
    parts: Vec<(String, Vec<u8>)>,
}

impl Fixture {
    fn new(_tag: &str, parts: &[(&str, Vec<u8>)]) -> Fixture {
        Fixture { parts: parts.iter().map(|(n, b)| (n.to_string(), b.clone())).collect() }
    }

    fn part(&self, name: &str) -> Part {
        match self.parts.iter().find(|p| p.0 == name) {
            None => Ok(None),
            Some(p) => String::from_utf8(p.1.clone()).map(Some).map_err(|e| e.to_string()),
        }
    }

    fn parts(&self) -> Parts {
        Parts {
            entries: Entries(self.parts.iter().map(|p| p.0.clone()).collect()),
            manifest: self.part("META-INF/manifest.xml"),
            mimetype: self.part("mimetype"),
            content: self.part("content.xml"),
            styles: self.part("styles.xml"),
            meta: self.part("meta.xml"),
            settings: self.part("settings.xml"),
        }
    }

    /// Renders, hands in the pictures that the document shows, and renders again.
    fn render(&self, section: Option<u32>, terms: &[String]) -> Result<OfficeDoc, String> {
        let first = render(self.parts(), section, terms, &Pictures::none(), &Values::none())?;
        let list = first.wanted.iter().map(picture).collect();
        let pictures = Pictures { list, notes: Vec::new() };
        render(self.parts(), section, terms, &pictures, &Values::none())
    }

    fn doc(&self) -> OfficeDoc {
        self.render(None, &[]).expect("render")
    }

    fn html(&self) -> String {
        self.doc().html
    }

    /// The rendered body without the stylesheet in front of it, which mentions every
    /// class.
    fn body_html(&self) -> String {
        let html = self.html();
        match html.split_once("</style>") {
            Some((_, body)) => body.to_string(),
            None => html,
        }
    }
}

fn picture(w: &Wanted) -> Picture {
    Picture {
        part: w.part.clone(),
        want: w.want,
        shown: Shown::DataUri("data:image/png;base64,AAAA".to_string()),
    }
}

/// `content.xml`: `auto` becomes its automatic styles, `body` its text body.
fn content(auto: &str, body: &str) -> String {
    format!(
        "<office:document-content {NS}>\
         <office:automatic-styles>{auto}</office:automatic-styles>\
         <office:body><office:text>{body}</office:text></office:body>\
         </office:document-content>"
    )
}

/// `styles.xml`: the `Standard` paragraph style every producer writes, a US
/// Letter page with 1in margins (816 × 1056 px, 96px padding), plus whatever
/// `extra` adds to `office:styles` and `master` to the master page.
fn styles_with(extra: &str, master: &str) -> String {
    format!(
        "<office:document-styles {NS}>\
         <office:styles>\
         <style:style style:name=\"Standard\" style:family=\"paragraph\">\
         <style:text-properties fo:font-family=\"Widget Sans\" fo:font-size=\"12pt\"/>\
         </style:style>{extra}</office:styles>\
         <office:automatic-styles>\
         <style:page-layout style:name=\"pm1\"><style:page-layout-properties \
         fo:page-width=\"8.5in\" fo:page-height=\"11in\" fo:margin-top=\"1in\" \
         fo:margin-bottom=\"1in\" fo:margin-left=\"1in\" fo:margin-right=\"1in\"/>\
         </style:page-layout></office:automatic-styles>\
         <office:master-styles>\
         <style:master-page style:name=\"Standard\" style:page-layout-name=\"pm1\">{master}\
         </style:master-page></office:master-styles></office:document-styles>"
    )
}

fn styles(extra: &str) -> String {
    styles_with(extra, "")
}

/// A three-part odt: `mimetype`, `styles.xml`, `content.xml`.
fn odt(tag: &str, styles_xml: &str, content_xml: &str) -> Fixture {
    odt_media(tag, styles_xml, content_xml, &[])
}

fn odt_media(
    tag: &str,
    styles_xml: &str,
    content_xml: &str,
    media: &[(&str, Vec<u8>)],
) -> Fixture {
    let mut parts: Vec<(&str, Vec<u8>)> = vec![
        (
            "mimetype",
            b"application/vnd.oasis.opendocument.text".to_vec(),
        ),
        ("styles.xml", styles_xml.as_bytes().to_vec()),
        ("content.xml", content_xml.as_bytes().to_vec()),
    ];
    parts.extend(media.iter().map(|(n, b)| (*n, b.clone())));
    Fixture::new(tag, &parts)
}

/// A picture's bytes. What they hold is not looked at.
fn png_bytes(w: u32, h: u32) -> Vec<u8> {
    vec![w as u8, h as u8]
}

/// Graphic styles covering the three wraps a frame can degrade through.
fn graphic_styles() -> String {
    "<style:style style:name=\"gr-left\" style:family=\"graphic\">\
     <style:graphic-properties style:wrap=\"right\"/></style:style>\
     <style:style style:name=\"gr-none\" style:family=\"graphic\">\
     <style:graphic-properties style:wrap=\"none\"/></style:style>\
     <style:style style:name=\"gr-run\" style:family=\"graphic\">\
     <style:graphic-properties style:wrap=\"run-through\"/></style:style>"
        .to_string()
}

/// One picture in the package, framed by `frame`.
fn with_picture(tag: &str, frame: &str) -> OfficeDoc {
    odt_media(
        tag,
        &styles(&graphic_styles()),
        &content("", frame),
        &[("Pictures/1000.png", png_bytes(24, 12))],
    )
    .doc()
}

fn frame(attrs: &str, inner: &str) -> String {
    format!("<text:p><draw:frame {attrs}>{inner}</draw:frame></text:p>")
}

const IMAGE: &str = "<draw:image xlink:href=\"Pictures/1000.png\"/>";

#[test]
fn a_picture_is_decoded_into_the_page_at_its_own_box() {
    let doc = with_picture(
        "pic",
        &frame(
            "svg:width=\"1in\" svg:height=\"0.5in\" text:anchor-type=\"as-char\"",
            IMAGE,
        ),
    );
    let html = &doc.html;
    // Re-encoded for the box it will occupy rather than carried at full
    // resolution; opaque, so what comes back is a JPEG.
    assert!(html.contains("<img class=\"of-img\" src=\"data:image/"), "{html}");
    assert!(html.contains("width:96px;height:48px;"), "{html}");
    // Inline: it shares the line with the text around it, which is where the
    // document put it, so there is nothing to note.
    assert!(!html.contains("float"), "{html}");
    assert!(doc.notes.is_empty(), "{:?}", doc.notes);
}

#[test]
fn an_href_the_package_does_not_hold_leaves_a_labelled_box() {
    for href in [
        "../../etc/passwd",
        "/Pictures/1000.png",
        "Pictures/%2e%2e/1000.png",
        "https://example.org/1000.png",
        "Pictures/absent.png",
    ] {
        let doc = with_picture(
            "reject",
            &frame(
                "svg:width=\"1in\" svg:height=\"1in\"",
                &format!("<draw:image xlink:href=\"{href}\"/>"),
            ),
        );
        // No `src`, and no attempt to reach the filesystem or the network for
        // the bytes: the box the document laid out is what stays.
        assert!(!doc.html.contains("data:image/"), "{href}: {}", doc.html);
        assert!(!doc.html.contains(href), "{href} must not reach an attribute");
        assert!(doc.html.contains("class=\"of-gph\""), "{href}: {}", doc.html);
        assert!(
            doc.html.contains("image unavailable"),
            "{href}: {}",
            doc.html
        );
    }
}

#[test]
fn the_authors_own_description_labels_a_box_it_can() {
    let doc = with_picture(
        "label",
        &frame(
            "svg:width=\"1in\" svg:height=\"1in\" draw:name=\"Picture 2\"",
            "<svg:desc>a naïve café</svg:desc>\
             <draw:image xlink:href=\"Pictures/absent.png\"/>",
        ),
    );
    // `svg:desc` outranks the producer's own `draw:name`.
    assert!(doc.html.contains("a naïve café"), "{}", doc.html);
    assert!(!doc.html.contains("Picture 2"), "{}", doc.html);
}

#[test]
fn an_embedded_object_is_a_placeholder_and_the_footer_says_why() {
    let doc = with_picture(
        "object",
        &frame(
            "svg:width=\"2in\" svg:height=\"1in\"",
            "<draw:object xlink:href=\"./Object 1\"/>",
        ),
    );
    assert!(doc.html.contains("embedded object"), "{}", doc.html);
    assert!(doc.notes.iter().any(|n| n == NOTE_OBJECT), "{:?}", doc.notes);
    // A sub-document is never rendered recursively.
    assert!(!doc.html.contains("data:image/"), "{}", doc.html);
}

#[test]
fn an_objects_replacement_image_is_drawn_when_the_package_holds_one() {
    let doc = odt_media(
        "objrepl",
        &styles(&graphic_styles()),
        &content(
            "",
            &frame(
                "svg:width=\"1in\" svg:height=\"1in\"",
                "<draw:object xlink:href=\"./Object 1\"/>\
                 <draw:image xlink:href=\"./ObjectReplacements/Object 1\"/>",
            ),
        ),
        &[("ObjectReplacements/Object 1", png_bytes(16, 16))],
    )
    .doc();
    // A resolvable image is the best of a frame's children whatever its
    // position, so the chart's own rendering wins over the placeholder.
    assert!(doc.html.contains("data:image/"), "{}", doc.html);
}

#[test]
fn a_frame_wider_than_the_column_is_scaled_rather_than_clipped() {
    let doc = with_picture(
        "wide",
        &frame("svg:width=\"20in\" svg:height=\"10in\"", IMAGE),
    );
    // The column is 8.5in less two 1in margins = 624px, and the aspect is kept:
    // clamping one axis alone would stretch the picture.
    assert!(doc.html.contains("width:624px;height:312px;"), "{}", doc.html);
}

#[test]
fn a_frame_that_states_no_size_still_leaves_a_box() {
    let doc = with_picture("nosize", &frame("", IMAGE));
    // Something the reader can see and scroll past, rather than a zero-height
    // nothing.
    let box_px = "width:96px;height:96px;";
    assert!(doc.html.contains(&box_px), "{}", doc.html);

    // Half a stated box is not a size: both axes or neither.
    let doc = with_picture("halfsize", &frame("svg:width=\"3in\"", IMAGE));
    assert!(doc.html.contains(&box_px), "{}", doc.html);
}

#[test]
fn an_anchored_frame_keeps_the_side_it_hugs_and_notes_what_it_cannot_keep() {
    // `style:wrap="right"` says the text runs down the frame's right, so the
    // frame is on the left.
    let doc = with_picture(
        "float",
        &frame(
            "svg:width=\"1in\" svg:height=\"1in\" text:anchor-type=\"paragraph\" \
             draw:style-name=\"gr-left\"",
            IMAGE,
        ),
    );
    assert!(doc.html.contains("float:left"), "{}", doc.html);

    // No text beside it at all: a line of its own is exactly that.
    let doc = with_picture(
        "ownline",
        &frame(
            "svg:width=\"1in\" svg:height=\"1in\" text:anchor-type=\"page\" \
             draw:style-name=\"gr-none\"",
            IMAGE,
        ),
    );
    assert_eq!(doc.html.matches("<br>").count(), 2, "{}", doc.html);

    // Behind or in front of the text: the overlap falls on different words at
    // every width, so it lands in the flow and the footer says so.
    let doc = with_picture(
        "through",
        &frame(
            "svg:width=\"1in\" svg:height=\"1in\" text:anchor-type=\"paragraph\" \
             draw:style-name=\"gr-run\"",
            IMAGE,
        ),
    );
    assert!(doc.notes.iter().any(|n| n == NOTE_ANCHOR), "{:?}", doc.notes);
}

#[test]
fn a_text_frame_is_hoisted_after_the_paragraph_that_anchored_it() {
    let f = odt(
        "txbx",
        &styles(&graphic_styles()),
        &content(
            "",
            "<text:p>café<draw:frame svg:width=\"2in\" svg:height=\"1in\">\
             <draw:text-box><text:p>naïve</text:p></draw:text-box>\
             </draw:frame></text:p><text:p>Widget</text:p>",
        ),
    );
    let html = f.body_html();
    let notes = f.doc().notes;
    // Block content cannot live inside a `<p>`: an HTML parser would close the
    // paragraph before it and tear the anchor in two.
    assert!(html.contains("class=\"of-txbx\""), "{html}");
    let anchor = html.find("café").expect("the anchoring paragraph");
    let box_at = html.find("of-txbx").expect("the frame");
    let next = html.find("Widget").expect("the next paragraph");
    assert!(anchor < box_at && box_at < next, "{html}");
    assert!(notes.iter().any(|n| n == NOTE_TXBX), "{notes:?}");
}

#[test]
fn an_empty_text_frame_is_not_hoisted_at_all() {
    let f = odt(
        "emptybox",
        &styles(&graphic_styles()),
        &content(
            "",
            "<text:p>x<draw:frame svg:width=\"2in\" svg:height=\"1in\">\
             <draw:text-box/></draw:frame></text:p>",
        ),
    );
    // A frame nobody typed in: hoisting it would put an empty bordered box in
    // the middle of the page.
    let html = f.body_html();
    assert!(!html.contains("of-txbx"), "{html}");
    assert!(f.doc().notes.is_empty(), "{:?}", f.doc().notes);
}

#[test]
fn a_frame_between_blocks_gets_a_paragraph_of_its_own() {
    let doc = odt_media(
        "blockframe",
        &styles(&graphic_styles()),
        &content(
            "",
            &format!(
                "<text:p>text</text:p><draw:frame svg:width=\"1in\" svg:height=\"1in\" \
                 text:anchor-type=\"page\">{IMAGE}</draw:frame>"
            ),
        ),
        &[("Pictures/1000.png", png_bytes(8, 8))],
    )
    .doc();
    // A page-anchored picture has no paragraph to join, so it is still
    // somewhere in the flow rather than nowhere.
    assert!(doc.html.contains("data:image/"), "{}", doc.html);
    assert_eq!(doc.html.matches("<p ").count(), 2, "{}", doc.html);
}

#[test]
fn the_graphic_count_is_capped_and_says_so() {
    let one = frame("svg:width=\"0.2in\" svg:height=\"0.2in\"", IMAGE);
    let body: String = one.repeat(MAX_GRAPHICS + 5);
    let f = odt_media(
        "gcap",
        &styles(&graphic_styles()),
        &content("", &body),
        &[("Pictures/1000.png", png_bytes(8, 8))],
    );
    // Each graphic is a `data:` URI WebKit has to parse and hold, so the byte
    // cap alone would let a thousand tiny ones through.
    let html = f.body_html();
    let drawn = html.matches("<img ").count() + html.matches("class=\"of-gph\"").count();
    assert_eq!(drawn, MAX_GRAPHICS, "{drawn}");
    let notes = f.doc().notes;
    assert!(notes.iter().any(|n| n == NOTE_COUNT), "{notes:?}");
}

#[test]
fn a_picture_encodes_once_however_often_it_is_framed() {
    let one = frame("svg:width=\"1in\" svg:height=\"1in\"", IMAGE);
    let f: Fixture = odt_media(
        "reuse",
        &styles(&graphic_styles()),
        &content("", &format!("{one}{one}{one}")),
        &[("Pictures/1000.png", png_bytes(32, 32))],
    );
    let html = f.html();
    // Three frames, one picture: the same part in the same box is shown alike.
    assert_eq!(html.matches("data:image/").count(), 3, "{html}");
    let first = html
        .split("src=\"")
        .nth(1)
        .and_then(|s| s.split('"').next())
        .expect("a data uri");
    assert_eq!(html.matches(first).count(), 3, "identical bytes");
}
