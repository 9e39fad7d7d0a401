//! Tables in the text.

use odf_preview::document::OfficeDoc;
use odf_preview::media::{Picture, Pictures, Shown, Wanted};
use odf_preview::odf::pkg::{Entries, Part, Parts};
use odf_preview::odf::render;
use odf_preview::values::Values;
use odf_preview::odf::table::plan::{MAX_COLS, MAX_ROWS};
use odf_preview::odf::table::{NOTE_CLIPPED, NOTE_NESTED};
use odf_preview::odf::text::MAX_NEST;

const NS: &str = "xmlns:office=\"urn:oasis:names:tc:opendocument:xmlns:office:1.0\" \
     xmlns:text=\"urn:oasis:names:tc:opendocument:xmlns:text:1.0\" \
     xmlns:style=\"urn:oasis:names:tc:opendocument:xmlns:style:1.0\" \
     xmlns:fo=\"urn:oasis:names:tc:opendocument:xmlns:xsl-fo-compatible:1.0\" \
     xmlns:table=\"urn:oasis:names:tc:opendocument:xmlns:table:1.0\" \
     xmlns:draw=\"urn:oasis:names:tc:opendocument:xmlns:drawing:1.0\" \
     xmlns:svg=\"urn:oasis:names:tc:opendocument:xmlns:svg-compatible:1.0\" \
     xmlns:xlink=\"http://www.w3.org/1999/xlink\"";

/// A package in memory.
struct Fixture {
    parts: Vec<(String, Vec<u8>)>,
}

impl Fixture {
    fn new(_tag: &str, parts: &[(&str, Vec<u8>)]) -> Fixture {
        Fixture { parts: parts.iter().map(|(n, b)| (n.to_string(), b.clone())).collect() }
    }

    fn part(&self, name: &str) -> Part {
        match self.parts.iter().find(|p| p.0 == name) {
            None => Ok(None),
            Some(p) => String::from_utf8(p.1.clone()).map(Some).map_err(|e| e.to_string()),
        }
    }

    fn parts(&self) -> Parts {
        Parts {
            entries: Entries(self.parts.iter().map(|p| p.0.clone()).collect()),
            manifest: self.part("META-INF/manifest.xml"),
            mimetype: self.part("mimetype"),
            content: self.part("content.xml"),
            styles: self.part("styles.xml"),
            meta: self.part("meta.xml"),
            settings: self.part("settings.xml"),
        }
    }

    /// Renders, hands in the pictures that the document shows, and renders again.
    fn render(&self, section: Option<u32>, terms: &[String]) -> Result<OfficeDoc, String> {
        let first = render(self.parts(), section, terms, &Pictures::none(), &Values::none())?;
        let list = first.wanted.iter().map(picture).collect();
        let pictures = Pictures { list, notes: Vec::new() };
        render(self.parts(), section, terms, &pictures, &Values::none())
    }

    fn doc(&self) -> OfficeDoc {
        self.render(None, &[]).expect("render")
    }

    fn html(&self) -> String {
        self.doc().html
    }

    /// The rendered body without the stylesheet in front of it, which mentions every
    /// class.
    fn body_html(&self) -> String {
        let html = self.html();
        match html.split_once("</style>") {
            Some((_, body)) => body.to_string(),
            None => html,
        }
    }
}

fn picture(w: &Wanted) -> Picture {
    Picture {
        part: w.part.clone(),
        want: w.want,
        shown: Shown::DataUri("data:image/png;base64,AAAA".to_string()),
    }
}

/// `content.xml`: `auto` becomes its automatic styles, `body` its text body.
fn content(auto: &str, body: &str) -> String {
    format!(
        "<office:document-content {NS}>\
         <office:automatic-styles>{auto}</office:automatic-styles>\
         <office:body><office:text>{body}</office:text></office:body>\
         </office:document-content>"
    )
}

/// `styles.xml`: the `Standard` paragraph style every producer writes, a US
/// Letter page with 1in margins (816 × 1056 px, 96px padding), plus whatever
/// `extra` adds to `office:styles` and `master` to the master page.
fn styles_with(extra: &str, master: &str) -> String {
    format!(
        "<office:document-styles {NS}>\
         <office:styles>\
         <style:style style:name=\"Standard\" style:family=\"paragraph\">\
         <style:text-properties fo:font-family=\"Widget Sans\" fo:font-size=\"12pt\"/>\
         </style:style>{extra}</office:styles>\
         <office:automatic-styles>\
         <style:page-layout style:name=\"pm1\"><style:page-layout-properties \
         fo:page-width=\"8.5in\" fo:page-height=\"11in\" fo:margin-top=\"1in\" \
         fo:margin-bottom=\"1in\" fo:margin-left=\"1in\" fo:margin-right=\"1in\"/>\
         </style:page-layout></office:automatic-styles>\
         <office:master-styles>\
         <style:master-page style:name=\"Standard\" style:page-layout-name=\"pm1\">{master}\
         </style:master-page></office:master-styles></office:document-styles>"
    )
}

fn styles(extra: &str) -> String {
    styles_with(extra, "")
}

/// A three-part odt: `mimetype`, `styles.xml`, `content.xml`.
fn odt(tag: &str, styles_xml: &str, content_xml: &str) -> Fixture {
    odt_media(tag, styles_xml, content_xml, &[])
}

fn odt_media(
    tag: &str,
    styles_xml: &str,
    content_xml: &str,
    media: &[(&str, Vec<u8>)],
) -> Fixture {
    let mut parts: Vec<(&str, Vec<u8>)> = vec![
        (
            "mimetype",
            b"application/vnd.oasis.opendocument.text".to_vec(),
        ),
        ("styles.xml", styles_xml.as_bytes().to_vec()),
        ("content.xml", content_xml.as_bytes().to_vec()),
    ];
    parts.extend(media.iter().map(|(n, b)| (*n, b.clone())));
    Fixture::new(tag, &parts)
}

/// The common case: default styles, one body, no automatic styles.
fn body(tag: &str, body: &str) -> Fixture {
    odt(tag, &styles(""), &content("", body))
}

/// A `table-column` style of `w` inches and a `table-cell` style that paints,
/// which between them cover every per-axis lookup a table makes.
fn table_styles() -> String {
    "<style:style style:name=\"co1\" style:family=\"table-column\">\
     <style:table-column-properties style:column-width=\"1in\"/></style:style>\
     <style:style style:name=\"co2\" style:family=\"table-column\">\
     <style:table-column-properties style:column-width=\"2in\"/></style:style>\
     <style:style style:name=\"ro1\" style:family=\"table-row\">\
     <style:table-row-properties style:row-height=\"0.5in\"/></style:style>\
     <style:style style:name=\"ce1\" style:family=\"table-cell\">\
     <style:table-cell-properties fo:border=\"0.5pt solid #808080\" \
     fo:background-color=\"#eeeeee\" fo:padding-left=\"6pt\" \
     style:vertical-align=\"middle\"/></style:style>\
     <style:style style:name=\"ta1\" style:family=\"table\">\
     <style:table-properties table:align=\"margins\"/></style:style>"
        .to_string()
}

fn table(tag: &str, tbl: &str) -> String {
    odt(tag, &styles(&table_styles()), &content("", tbl)).html()
}

#[test]
fn the_column_geometry_comes_from_the_documents_own_widths() {
    let html = table(
        "cols",
        "<table:table>\
         <table:table-column table:style-name=\"co1\"/>\
         <table:table-column table:style-name=\"co2\"/>\
         <table:table-row><table:table-cell><text:p>a</text:p></table:table-cell>\
         <table:table-cell><text:p>b</text:p></table:table-cell></table:table-row>\
         </table:table>",
    );
    assert!(html.contains("<colgroup>"), "{html}");
    assert!(html.contains("<col style=\"width:96px;\">"), "{html}");
    assert!(html.contains("<col style=\"width:192px;\">"), "{html}");
    // Nothing measures text, so the table is as wide as its columns say.
    assert!(html.contains("width:288px"), "{html}");
    assert!(html.contains("class=\"of-tbl\""), "{html}");
}

#[test]
fn a_table_with_no_stated_widths_lays_itself_out() {
    let html = table(
        "auto",
        "<table:table><table:table-column/>\
         <table:table-row><table:table-cell><text:p>a</text:p></table:table-cell>\
         </table:table-row></table:table>",
    );
    // A fixed layout with no widths splits the table into equal columns, which
    // is a geometry no document asked for.
    assert!(html.contains("class=\"of-tbl of-tbl-auto\""), "{html}");
    assert!(!html.contains("<colgroup>"), "{html}");
}

#[test]
fn spans_become_colspan_and_rowspan_and_covered_slots_are_dropped() {
    let html = table(
        "spans",
        "<table:table>\
         <table:table-column table:style-name=\"co1\"/>\
         <table:table-column table:style-name=\"co1\"/>\
         <table:table-row>\
         <table:table-cell table:number-columns-spanned=\"2\" \
         table:number-rows-spanned=\"2\"><text:p>wide</text:p></table:table-cell>\
         <table:covered-table-cell/></table:table-row>\
         <table:table-row><table:covered-table-cell/><table:covered-table-cell/>\
         </table:table-row></table:table>",
    );
    assert!(html.contains("colspan=\"2\""), "{html}");
    assert!(html.contains("rowspan=\"2\""), "{html}");
    // A covered slot is described by the span that covers it: an extra `<td>`
    // beside a `rowspan` would push the row one column right.
    assert_eq!(html.matches("<td").count(), 1, "{html}");
    // The second row still exists, holding nothing.
    assert_eq!(html.matches("<tr").count(), 2, "{html}");
}

#[test]
fn a_run_of_header_rows_is_one_thead_and_the_body_follows_it() {
    let html = table(
        "thead2",
        "<table:table><table:table-column table:style-name=\"co1\"/>\
         <table:table-header-rows>\
         <table:table-row><table:table-cell><text:p>h1</text:p></table:table-cell>\
         </table:table-row>\
         <table:table-row><table:table-cell><text:p>h2</text:p></table:table-cell>\
         </table:table-row></table:table-header-rows>\
         <table:table-row><table:table-cell><text:p>naïve</text:p></table:table-cell>\
         </table:table-row></table:table>",
    );
    // One `<thead>` for the whole run of header rows, not one each.
    assert_eq!(html.matches("<thead>").count(), 1, "{html}");
    assert_eq!(html.matches("</thead>").count(), 1, "{html}");
    assert_eq!(html.matches("<tr").count(), 3, "{html}");
    // The header run closes before the ordinary row opens.
    let head_end = html.find("</thead>").expect("a thead");
    assert!(html.find("naïve").expect("the last row") > head_end, "{html}");
}

#[test]
fn repetition_is_expanded_under_a_cap() {
    let html = table(
        "repeat",
        "<table:table>\
         <table:table-column table:style-name=\"co1\" table:number-columns-repeated=\"3\"/>\
         <table:table-row table:number-rows-repeated=\"2\">\
         <table:table-cell table:number-columns-repeated=\"3\"><text:p>x</text:p>\
         </table:table-cell></table:table-row></table:table>",
    );
    assert_eq!(html.matches("<col ").count(), 3, "{html}");
    assert_eq!(html.matches("<tr").count(), 2, "{html}");
    assert_eq!(html.matches("<td").count(), 6, "{html}");

    // An ODS-sized repeat is the format's way of spelling "to the end of the
    // sheet", and it must not become 16k cells.
    let wide = table(
        "repeat2",
        "<table:table>\
         <table:table-column table:style-name=\"co1\" \
         table:number-columns-repeated=\"16368\"/>\
         <table:table-row><table:table-cell table:number-columns-repeated=\"16368\">\
         <text:p>x</text:p></table:table-cell></table:table-row></table:table>",
    );
    assert_eq!(wide.matches("<col ").count(), MAX_COLS, "capped");
    assert_eq!(wide.matches("<td").count(), MAX_COLS, "capped");
}

#[test]
fn a_cell_carries_its_own_paint_and_the_common_one_carries_none() {
    let html = table(
        "cells",
        "<table:table><table:table-column table:style-name=\"co1\"/>\
         <table:table-row table:style-name=\"ro1\">\
         <table:table-cell table:style-name=\"ce1\"><text:p>painted</text:p>\
         </table:table-cell></table:table-row>\
         <table:table-row><table:table-cell><text:p>plain</text:p></table:table-cell>\
         </table:table-row></table:table>",
    );
    assert!(html.contains("background-color:#eeeeee"), "{html}");
    assert!(html.contains("solid #808080"), "{html}");
    // Longhands, so an unstated side keeps the stylesheet's padding instead of
    // being reset by a shorthand.
    assert!(html.contains("padding-left:8px"), "{html}");
    assert!(html.contains("vertical-align:middle"), "{html}");
    assert!(html.contains("height:48px"), "{html}");
    // The common cell carries the class and no `style` attribute at all: its
    // padding and borders are the stylesheet's.
    assert!(html.contains("<td class=\"of-tc\"><p"), "{html}");
}

#[test]
fn a_table_the_document_hides_is_not_drawn_at_all() {
    let extra = "<style:style style:name=\"hidden\" style:family=\"table\">\
         <style:table-properties table:display=\"false\"/></style:style>";
    let html = odt(
        "hidden",
        &styles(&format!("{}{extra}", table_styles())),
        &content(
            "",
            "<table:table table:style-name=\"hidden\">\
             <table:table-row><table:table-cell><text:p>secret</text:p>\
             </table:table-cell></table:table-row></table:table>",
        ),
    )
    .html();
    // Not an empty `<table>`: it would still take the stylesheet's borders.
    assert!(!html.contains("<table"), "{html}");
    assert!(!html.contains("secret"), "{html}");
}

#[test]
fn a_table_stretched_to_the_margins_fills_the_column() {
    let html = table(
        "margins",
        "<table:table table:style-name=\"ta1\">\
         <table:table-column table:style-name=\"co1\"/>\
         <table:table-row><table:table-cell><text:p>a</text:p></table:table-cell>\
         </table:table-row></table:table>",
    );
    assert!(html.contains("width:100%"), "{html}");
}

#[test]
fn a_cell_holds_blocks_rather_than_a_string() {
    let list = "<text:list-style style:name=\"L1\">\
         <text:list-level-style-number text:level=\"1\" style:num-format=\"1\" \
         style:num-suffix=\".\"/></text:list-style>";
    let html = odt(
        "cellblocks",
        &styles(&format!("{}{list}", table_styles())),
        &content(
            "",
            "<table:table><table:table-column table:style-name=\"co1\"/>\
             <table:table-row><table:table-cell>\
             <text:h text:outline-level=\"2\">head</text:h>\
             <text:list text:style-name=\"L1\"><text:list-item><text:p>item</text:p>\
             </text:list-item></text:list>\
             <table:table><table:table-column table:style-name=\"co1\"/>\
             <table:table-row><table:table-cell><text:p>nested</text:p>\
             </table:table-cell></table:table-row></table:table>\
             </table:table-cell></table:table-row></table:table>",
        ),
    )
    .html();
    // Paragraphs, headings, lists and tables — the same walk the page runs.
    assert!(html.contains("<h2 "), "{html}");
    assert!(html.contains("class=\"of-bu\""), "{html}");
    assert_eq!(html.matches("<table").count(), 2, "{html}");
    assert!(html.contains("nested"), "{html}");
}

#[test]
fn tables_nested_past_the_cap_are_refused_with_a_note() {
    // Four deep: the outer three draw, the innermost does not.
    let inner = "<table:table><table:table-row><table:table-cell><text:p>deepest</text:p>\
         </table:table-cell></table:table-row></table:table>";
    let mut tbl = inner.to_string();
    for _ in 0..3 {
        tbl = format!(
            "<table:table><table:table-row><table:table-cell>{tbl}</table:table-cell>\
             </table:table-row></table:table>"
        );
    }
    let doc = odt("nest", &styles(&table_styles()), &content("", &tbl)).doc();
    assert_eq!(doc.html.matches("<table").count(), MAX_NEST, "{}", doc.html);
    assert!(!doc.html.contains("deepest"), "{}", doc.html);
    assert!(
        doc.notes.iter().any(|n| n == "Deeply nested table not shown"),
        "{:?}",
        doc.notes
    );
}

#[test]
fn a_table_past_the_row_cap_is_cut_short_and_says_so() {
    let rows: String = (0..MAX_ROWS + 10)
        .map(|i| {
            format!(
                "<table:table-row><table:table-cell><text:p>r{i}</text:p>\
                 </table:table-cell></table:table-row>"
            )
        })
        .collect();
    let doc = body(
        "rowcap",
        &format!("<table:table><table:table-column/>{rows}</table:table>"),
    )
    .doc();
    assert_eq!(doc.html.matches("<tr").count(), MAX_ROWS, "{:?}", doc.notes);
    assert!(
        doc.notes.iter().any(|n| n == NOTE_CLIPPED),
        "{:?}",
        doc.notes
    );
}
