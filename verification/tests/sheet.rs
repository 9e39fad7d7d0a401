//! Spreadsheets, from package to grid.

use odf_preview::numfmt::dates::{round_unit, Clock, Finest, MAX_SERIAL, OVERFLOW};
use odf_preview::numfmt::digits::{round_half_up, too_long_for_general, trim_zeros};
use odf_preview::numfmt::numbers::{
    max_denominator, sci_exponent, sci_string, Digits, Ratio, MAX_SCALINGS,
};
use odf_preview::numfmt::sections::{FracSpec, Kind, NumSpec, Section};
use odf_preview::numfmt::{Amount, Format, Sign};
use odf_preview::document::{OfficeDoc, Shape};
use odf_preview::media::Pictures;
use odf_preview::odf::pkg::{Entries, Part, Parts};
use odf_preview::odf::render;
use odf_preview::odf::sheet::grid::MAX_CELL_CHARS;
use odf_preview::odf::sheet::rows::{Rows, MAX_ROWS};
use odf_preview::odf::sheet::{NOTE_NO_VALUE, NOTE_SHAPES};
use odf_preview::values::{Answer, Asked, Values};

fn px(v: f64) -> i64 {
    (v * 381_000_000.0).round() as i64
}

const NS: &str = "xmlns:office=\"urn:oasis:names:tc:opendocument:xmlns:office:1.0\" \
     xmlns:text=\"urn:oasis:names:tc:opendocument:xmlns:text:1.0\" \
     xmlns:style=\"urn:oasis:names:tc:opendocument:xmlns:style:1.0\" \
     xmlns:fo=\"urn:oasis:names:tc:opendocument:xmlns:xsl-fo-compatible:1.0\" \
     xmlns:table=\"urn:oasis:names:tc:opendocument:xmlns:table:1.0\" \
     xmlns:draw=\"urn:oasis:names:tc:opendocument:xmlns:drawing:1.0\" \
     xmlns:svg=\"urn:oasis:names:tc:opendocument:xmlns:svg-compatible:1.0\" \
     xmlns:xlink=\"http://www.w3.org/1999/xlink\"";

/// A package in memory.
struct Fixture {
    parts: Vec<(String, Vec<u8>)>,
}

impl Fixture {
    fn new(_tag: &str, parts: &[(&str, Vec<u8>)]) -> Fixture {
        Fixture { parts: parts.iter().map(|(n, b)| (n.to_string(), b.clone())).collect() }
    }

    fn part(&self, name: &str) -> Part {
        match self.parts.iter().find(|p| p.0 == name) {
            None => Ok(None),
            Some(p) => String::from_utf8(p.1.clone()).map(Some).map_err(|e| e.to_string()),
        }
    }

    fn parts(&self) -> Parts {
        Parts {
            entries: Entries(self.parts.iter().map(|p| p.0.clone()).collect()),
            manifest: self.part("META-INF/manifest.xml"),
            mimetype: self.part("mimetype"),
            content: self.part("content.xml"),
            styles: self.part("styles.xml"),
            meta: self.part("meta.xml"),
            settings: self.part("settings.xml"),
        }
    }

    /// Renders, answers the values that the sheet asks for, and renders again.
    fn render(&self, section: Option<u32>, terms: &[String]) -> Result<OfficeDoc, String> {
        let first = render(self.parts(), section, terms, &Pictures::none(), &Values::none())?;
        let list = first.asked.into_iter().map(answer).collect();
        render(self.parts(), section, terms, &Pictures::none(), &Values { list })
    }

    fn doc(&self) -> OfficeDoc {
        self.render(None, &[]).expect("render")
    }

    fn html(&self) -> String {
        self.doc().html
    }

    /// The rendered body without the stylesheet in front of it, which mentions every
    /// class.
    fn body_html(&self) -> String {
        let html = self.html();
        match html.split_once("</style>") {
            Some((_, body)) => body.to_string(),
            None => html,
        }
    }
}

fn answer(asked: Asked) -> Answer {
    let text = asked.raw.parse::<f64>().ok().map(|v| match &asked.code {
        Some(code) => apply(&Format::parse(code), v),
        None => plain(v),
    });
    Answer { asked, text }
}

/// Significant digits that are kept before a value is rounded for display. 2.675 is
/// really 2.67499999999999982; in this many digits it reads as 2.675 again.
const DISPLAY_SIG: i32 = 15;

/// Decimal places beyond this many are not asked for.
const MAX_PLACES: usize = 17;

fn sign_of(value: f64) -> Sign {
    if value < 0.0 {
        Sign::Negative
    } else if value == 0.0 {
        Sign::Zero
    } else {
        Sign::Positive
    }
}

/// What `format` shows for a cell's value.
fn apply(format: &Format, value: f64) -> String {
    apply_with(format, value, format.date1904())
}

/// What `format` shows for a cell's value, in the date system asked for.
fn apply_with(format: &Format, value: f64, date1904: bool) -> String {
    let sign = sign_of(value);
    let amount = amount_for(format.select(sign), value);
    format.apply_with(sign, &amount, date1904)
}

/// The value in the form that the section asks for: floating point.
fn amount_for(section: &Section, value: f64) -> Amount {
    match section.kind {
        Kind::General => Amount::General(general(value.abs())),
        Kind::Date => Amount::Date(clock(section, value)),
        Kind::Fraction => Amount::Fraction(ratio(&section.frac, value)),
        Kind::Number => Amount::Number(digits(&section.num, value)),
    }
}

/// The shortest text that reads back as the value, in scientific notation outside the
/// window that General shows: floating point.
fn general(value: f64) -> String {
    if !value.is_finite() {
        return OVERFLOW.to_string();
    }
    if value == 0.0 {
        return "0".to_string();
    }
    let mag = value.abs();
    if mag >= 1e11 || mag < 1e-4 {
        return scientific(value, 5);
    }
    let s = format!("{}", value);
    if too_long_for_general(&s) {
        let places = 10 - mag.log10().floor() as i32;
        return trim_zeros(&format!("{:.*}", places.clamp(0, 15) as usize, value));
    }
    s
}

/// A mantissa of one integer digit and the power of ten: floating point.
fn scientific(value: f64, decimals: usize) -> String {
    let mag = value.abs();
    let mut exp = mag.log10().floor() as i32;
    let mut mant = mag / 10f64.powi(exp);
    // The logarithm of a power of ten can land just below it.
    let round_up = 10.0 - 0.5 * 10f64.powi(-(decimals as i32));
    if mant >= round_up {
        mant /= 10.0;
        exp += 1;
    } else if mant < 1.0 {
        mant *= 10.0;
        exp -= 1;
    }
    sci_string(value < 0.0, &format!("{:.*}", decimals, mant), exp, true, 2)
}

/// The digits of a magnitude on both sides of the point: floating point.
fn split_digits(mag: f64, dec: usize) -> (String, String) {
    let dec = dec.min(MAX_PLACES);
    if !mag.is_finite() {
        return ("0".to_string(), "0".repeat(dec));
    }
    let exp = if mag == 0.0 { 0 } else { mag.log10().floor() as i32 };
    let guard = (DISPLAY_SIG - 1 - exp).clamp(0, 25) as usize;
    round_half_up(&format!("{:.*}", guard, mag), dec)
}

/// A number's magnitude as the section scales it: floating point.
fn digits(spec: &NumSpec, value: f64) -> Option<Digits> {
    if !value.is_finite() {
        return None;
    }
    let mut v = value.abs();
    for _ in 0..spec.percent.min(MAX_SCALINGS) {
        v *= 100.0;
    }
    for _ in 0..spec.scale.min(MAX_SCALINGS) {
        v /= 1000.0;
    }
    let mut exp = 0;
    if spec.sci {
        exp = if v == 0.0 { 0 } else { sci_exponent(spec, v.log10().floor() as i32) };
        v = if v == 0.0 { 0.0 } else { v / 10f64.powi(exp) };
    }
    let (ints, decs) = split_digits(v, spec.dec_places);
    Some(Digits { ints, decs, exp, general: general(value) })
}

/// The best approximation of a value in [0, 1) with a denominator up to `most`:
/// floating point.
fn best_fraction(v: f64, most: u32) -> (u64, u32) {
    let mut best = (0u64, 1u32);
    let mut best_err = f64::INFINITY;
    for d in 1..=most.max(1) {
        let n = (v * d as f64).round();
        let err = (v - n / d as f64).abs();
        if err < best_err - 1e-12 {
            best_err = err;
            best = (n.max(0.0) as u64, d);
            if err == 0.0 {
                break;
            }
        }
    }
    best
}

fn ratio(spec: &FracSpec, value: f64) -> Option<Ratio> {
    if !value.is_finite() {
        return None;
    }
    let mag = value.abs();
    let (whole, rem) = if spec.has_whole { (mag.floor(), mag - mag.floor()) } else { (0.0, mag) };
    let (num, den) = match spec.den_fixed {
        Some(d) => ((rem * d as f64).round().max(0.0) as u64, d),
        None => best_fraction(rem, max_denominator(spec)),
    };
    if den == 0 {
        return None;
    }
    Some(Ratio { whole: whole as u64, num, den })
}

/// A serial date rounded to the finest field that the section shows: floating point.
fn clock(section: &Section, value: f64) -> Option<Clock> {
    if !value.is_finite() || value.abs() > MAX_SERIAL as f64 {
        return None;
    }
    let unit = match round_unit(&section.toks) {
        Finest::SubSecond(n) => 1.0 / (86400.0 * 10f64.powi(n as i32)),
        Finest::Second => 1.0 / 86400.0,
        Finest::Minute => 1.0 / 1440.0,
        Finest::Hour => 1.0 / 24.0,
        Finest::Day => 0.0,
    };
    let serial = value.abs() + unit / 2.0;
    let days = serial.floor();
    let seconds = (serial - days) * 86400.0;
    let whole = seconds.floor();
    let rest = seconds - whole;
    let sub = (1..=9).map(|n| (rest * 10f64.powi(n)).floor().max(0.0) as u64).collect();
    Some(Clock {
        days: days as i64,
        secs: whole as i64,
        sub,
        total: (serial * 86400.0).floor().max(0.0) as u64,
        negative: value < 0.0,
    })
}

/// A value that no format applies to: whole numbers without a point, others as short as
/// they read back: floating point.
fn plain(value: f64) -> String {
    if value == value.trunc() && value.abs() < 1e15 {
        return format!("{}", value as i64);
    }
    let mut s = format!("{value}");
    s.truncate(24);
    s
}

/// A spreadsheet package. `named` goes into `styles.xml`'s `office:styles`,
/// `auto` into `content.xml`'s automatic styles, `tables` into the body.
fn book(tag: &str, named: &str, auto: &str, tables: &str) -> Fixture {
    let styles = format!(
        "<office:document-styles {NS} \
         xmlns:number=\"urn:oasis:names:tc:opendocument:xmlns:datastyle:1.0\">\
         <office:styles>{named}</office:styles></office:document-styles>"
    );
    let content = format!(
        "<office:document-content {NS} \
         xmlns:number=\"urn:oasis:names:tc:opendocument:xmlns:datastyle:1.0\">\
         <office:automatic-styles>{auto}</office:automatic-styles>\
         <office:body><office:spreadsheet>{tables}\
         </office:spreadsheet></office:body></office:document-content>"
    );
    Fixture::new(
        tag,
        &[
            (
                "mimetype",
                b"application/vnd.oasis.opendocument.spreadsheet".to_vec(),
            ),
            ("styles.xml", styles.into_bytes()),
            ("content.xml", content.into_bytes()),
        ],
    )
}

/// A sheet with `cols` column elements and `rows` markup.
fn sheet(name: &str, cols: &str, rows: &str) -> String {
    format!("<table:table table:name=\"{name}\">{cols}{rows}</table:table>")
}

/// A row of plain string cells.
fn text_row(cells: &[&str]) -> String {
    let body: String = cells
        .iter()
        .map(|c| {
            format!(
                "<table:table-cell office:value-type=\"string\"><text:p>{c}</text:p>\
                 </table:table-cell>"
            )
        })
        .collect();
    format!("<table:table-row>{body}</table:table-row>")
}

/// The `<td>` elements of the rendered grid, in document order.
fn cells(html: &str) -> Vec<String> {
    let body = html.split_once("</style>").map(|(_, b)| b).unwrap_or(html);
    body.split("<td")
        .skip(1)
        .map(|chunk| {
            let inner = chunk.splitn(2, '>').nth(1).unwrap_or("");
            inner
                .split("</td>")
                .next()
                .unwrap_or("")
                .replace("<span class=\"xr\">", "")
                .replace("</span>", "")
        })
        .collect()
}

#[test]
fn a_workbook_renders_one_sheet_and_lists_them_all() {
    let f = book(
        "book",
        "",
        "",
        &format!(
            "{}{}",
            sheet("Alap", "<table:table-column/>", &text_row(&["café"])),
            sheet("Widget", "<table:table-column/>", &text_row(&["naïve"])),
        ),
    );
    let doc = f.doc();
    assert_eq!(doc.shape, Shape::Sheet);
    assert_eq!(doc.sections, vec!["Alap".to_string(), "Widget".to_string()]);
    assert_eq!(doc.section, 0);
    assert!(doc.natural.is_none() && doc.page.is_none());
    assert_eq!(cells(&doc.html), vec!["café".to_string()]);
    // The grid's own scaffolding.
    assert!(doc.html.contains("class=\"xl-doc\""), "{}", doc.html);
    assert!(doc.html.contains("class=\"xl-sheet"), "{}", doc.html);
}

#[test]
fn a_section_past_the_end_clamps_and_an_unnamed_sheet_gets_a_number() {
    let f = book(
        "clamp",
        "",
        "",
        &format!(
            "{}<table:table>{}</table:table>",
            sheet("First", "<table:table-column/>", &text_row(&["a"])),
            text_row(&["b"])
        ),
    );
    let doc = f.render(Some(42), &[]).expect("render");
    assert_eq!(doc.section, 1);
    assert_eq!(doc.sections[1], "Sheet 2");
    assert_eq!(cells(&doc.html), vec!["b".to_string()]);
}

#[test]
fn the_stored_display_text_is_what_the_grid_shows() {
    let rows = "<table:table-row>\
         <table:table-cell office:value-type=\"float\" office:value=\"433.5234\">\
         <text:p>433.52 km</text:p></table:table-cell>\
         <table:table-cell office:value-type=\"float\" office:value=\"1752\">\
         <text:p>1,752 m</text:p></table:table-cell>\
         </table:table-row>";
    let html = book("display", "", "", &sheet("S", "<table:table-column/>", rows)).html();
    // The producer already formatted these, which is what the author saw: no
    // number format is evaluated to get them, so the grouping and the unit
    // survive.
    assert_eq!(
        cells(&html),
        vec!["433.52 km".to_string(), "1,752 m".to_string()]
    );
    // A value aligns right whatever its text says.
    assert!(html.contains("xl-num"), "{html}");
}

#[test]
fn a_value_with_no_display_text_falls_back_to_its_number_style() {
    let named = "<number:number-style style:name=\"N2\">\
         <number:number number:decimal-places=\"2\" number:min-integer-digits=\"1\" \
         number:grouping=\"true\"/></number:number-style>\
         <style:style style:name=\"ce1\" style:family=\"table-cell\" \
         style:data-style-name=\"N2\"/>";
    let rows = "<table:table-row>\
         <table:table-cell table:style-name=\"ce1\" office:value-type=\"float\" \
         office:value=\"1234.567\"/>\
         <table:table-cell office:value-type=\"float\" office:value=\"42\"/>\
         </table:table-row>";
    let html = book("numfmt", named, "", &sheet("S", "<table:table-column/>", rows)).html();
    // Its own `style:data-style-name`, as a format code.
    assert_eq!(
        cells(&html),
        vec!["1,234.57".to_string(), "42".to_string()]
    );
}

#[test]
fn a_formula_with_no_cached_value_is_empty_and_says_why() {
    let rows = "<table:table-row>\
         <table:table-cell table:formula=\"of:=SUM([.A1:.A9])\"/>\
         <table:table-cell office:value-type=\"string\"><text:p>café</text:p>\
         </table:table-cell></table:table-row>";
    let doc = book("nocache", "", "", &sheet("S", "<table:table-column/>", rows)).doc();
    assert_eq!(cells(&doc.html), vec!["".to_string(), "café".to_string()]);
    // Reported once: an empty cell where a total should be looks like a broken
    // preview rather than a workbook saved without its results.
    assert!(
        doc.notes.iter().any(|n| n == NOTE_NO_VALUE),
        "{:?}",
        doc.notes
    );
}

#[test]
fn repetition_is_expanded_without_being_materialized() {
    // How ODS spells "and the rest of the row": a styled empty cell, repeated
    // to the end of the sheet.
    let rows = "<table:table-row>\
         <table:table-cell office:value-type=\"string\"><text:p>café</text:p>\
         </table:table-cell>\
         <table:table-cell table:style-name=\"ce1\" table:number-columns-repeated=\"16368\"/>\
         </table:table-row>\
         <table:table-row table:number-rows-repeated=\"3\">\
         <table:table-cell office:value-type=\"float\" office:value=\"1\">\
         <text:p>1</text:p></table:table-cell></table:table-row>\
         <table:table-row table:number-rows-repeated=\"1048576\"/>";
    let doc = book(
        "repeat",
        "<style:style style:name=\"ce1\" style:family=\"table-cell\"/>",
        "",
        &sheet("S", "<table:table-column table:number-columns-repeated=\"4\"/>", rows),
    )
    .doc();
    // The used range is where the *data* is: a styled empty cell is padding, so
    // one column of content stays one column.
    assert_eq!(cells(&doc.html), vec!["café", "1", "1", "1"]);
    // Four rows plus the header, not a million: the trailing empty run is the
    // format's way of spelling the end of the sheet.
    assert_eq!(doc.html.matches("<tr").count(), 5, "{}", doc.html);
    assert!(!doc.truncated);
}

#[test]
fn a_span_becomes_rowspan_and_colspan_with_the_covered_slots_dropped() {
    let rows = "<table:table-row>\
         <table:table-cell table:number-columns-spanned=\"2\" \
         table:number-rows-spanned=\"2\" office:value-type=\"string\">\
         <text:p>wide</text:p></table:table-cell>\
         <table:covered-table-cell/></table:table-row>\
         <table:table-row><table:covered-table-cell/>\
         <table:covered-table-cell/></table:table-row>";
    let html = book(
        "spans",
        "",
        "",
        &sheet("S", "<table:table-column table:number-columns-repeated=\"2\"/>", rows),
    )
    .html();
    assert!(html.contains("rowspan=\"2\""), "{html}");
    assert!(html.contains("colspan=\"2\""), "{html}");
    assert_eq!(cells(&html), vec!["wide".to_string()]);
}

#[test]
fn a_cell_style_becomes_one_rule_the_cells_share() {
    let named = "<style:style style:name=\"ce1\" style:family=\"table-cell\">\
         <style:table-cell-properties fo:background-color=\"#eeeeee\" \
         fo:border=\"0.5pt solid #808080\" style:vertical-align=\"middle\" \
         fo:padding-left=\"6pt\"/>\
         <style:text-properties fo:font-weight=\"bold\" fo:color=\"#ff0000\" \
         fo:font-size=\"14pt\"/></style:style>";
    let rows = format!(
        "<table:table-row>\
         <table:table-cell table:style-name=\"ce1\" office:value-type=\"string\">\
         <text:p>a</text:p></table:table-cell>\
         <table:table-cell table:style-name=\"ce1\" office:value-type=\"string\">\
         <text:p>b</text:p></table:table-cell>\
         <table:table-cell office:value-type=\"string\"><text:p>c</text:p>\
         </table:table-cell></table:table-row>"
    );
    let html = book(
        "cellstyle",
        named,
        "",
        &sheet("S", "<table:table-column table:number-columns-repeated=\"3\"/>", &rows),
    )
    .html();
    // One rule for the style, referenced by class — not the same declarations
    // inlined onto every cell that shares it.
    assert_eq!(html.matches("td.xf0{").count(), 1, "{html}");
    assert_eq!(html.matches("class=\"xf0").count(), 2, "{html}");
    assert!(html.contains("background-color:#eeeeee"), "{html}");
    assert!(html.contains("solid #808080"), "{html}");
    assert!(html.contains("font-weight:700"), "{html}");
    assert!(html.contains("color:#ff0000"), "{html}");
    // 14pt is 18.67px: the size is the document's, unrounded.
    assert!(html.contains("font-size:18.67px"), "{html}");
    assert!(html.contains("padding-left:8px"), "{html}");
    assert!(html.contains("vertical-align:middle"), "{html}");
    // The unstyled cell carries no style class at all.
    assert!(html.contains("<td class=\"xl-t\">c</td>"), "{html}");
}

#[test]
fn column_widths_and_row_heights_come_from_their_styles() {
    let auto = "<style:style style:name=\"co1\" style:family=\"table-column\">\
         <style:table-column-properties style:column-width=\"1.5in\"/></style:style>\
         <style:style style:name=\"ro1\" style:family=\"table-row\">\
         <style:table-row-properties style:row-height=\"0.5in\"/></style:style>";
    let rows = "<table:table-row table:style-name=\"ro1\">\
         <table:table-cell office:value-type=\"string\"><text:p>a</text:p>\
         </table:table-cell></table:table-row>";
    let html = book(
        "tracks",
        "",
        auto,
        &sheet("S", "<table:table-column table:style-name=\"co1\"/>", rows),
    )
    .html();
    assert!(html.contains("width:144px"), "{html}");
    assert!(html.contains("height:48px"), "{html}");
}

#[test]
fn a_hidden_column_or_row_is_absent_from_the_grid() {
    let auto = "<style:style style:name=\"co1\" style:family=\"table-column\">\
         <style:table-column-properties style:column-width=\"1in\"/></style:style>";
    let cols = "<table:table-column table:style-name=\"co1\"/>\
         <table:table-column table:style-name=\"co1\" table:visibility=\"collapse\"/>\
         <table:table-column table:style-name=\"co1\"/>";
    let rows = format!(
        "{}<table:table-row table:visibility=\"filter\">{}</table:table-row>{}",
        text_row(&["a", "hidden-col", "c"]),
        "<table:table-cell office:value-type=\"string\"><text:p>gone</text:p>\
         </table:table-cell>",
        text_row(&["d", "x", "f"]),
    );
    let doc = book("hidden", "", auto, &sheet("S", cols, &rows)).doc();
    // Both kinds of ODF hidden render as absent: `collapse` is the author's,
    // `filter` is a filter's.
    assert_eq!(cells(&doc.html), vec!["a", "c", "d", "f"]);
    assert!(!doc.html.contains("gone"), "{}", doc.html);
    assert!(!doc.html.contains("hidden-col"), "{}", doc.html);
}

#[test]
fn a_sheet_of_only_a_chart_says_so_rather_than_looking_broken() {
    let rows = "<table:table-row><table:table-cell>\
         <draw:frame svg:width=\"4in\" svg:height=\"3in\">\
         <draw:object xlink:href=\"./Object 1\"/></draw:frame></table:table-cell>\
         </table:table-row>";
    let doc = book("chart", "", "", &sheet("Diagram", "<table:table-column/>", rows)).doc();
    assert!(doc.html.contains("This sheet holds no cell data"), "{}", doc.html);
    assert!(
        doc.notes.iter().any(|n| n == NOTE_SHAPES),
        "{:?}",
        doc.notes
    );
    // The tab strip still works, so the reader can reach a sheet that has data.
    assert_eq!(doc.sections, vec!["Diagram".to_string()]);
}

#[test]
fn the_row_window_is_the_same_one_the_xlsx_path_shows() {
    let rows: String = (0..MAX_ROWS + 20)
        .map(|i| text_row(&[&format!("r{i}")]))
        .collect();
    let doc = book("window", "", "", &sheet("S", "<table:table-column/>", &rows)).doc();
    assert_eq!(doc.html.matches("<tr").count(), MAX_ROWS as usize + 1, "with the header");
    assert!(doc.truncated);
    assert!(
        doc.notes.iter().any(|n| n == "First 200 rows only"),
        "{:?}",
        doc.notes
    );
}

#[test]
fn multi_paragraph_cells_keep_their_lines_and_long_ones_are_clipped() {
    let long = "x".repeat(MAX_CELL_CHARS + 50);
    let rows = format!(
        "<table:table-row>\
         <table:table-cell office:value-type=\"string\"><text:p>café</text:p>\
         <text:p>naïve</text:p></table:table-cell>\
         <table:table-cell office:value-type=\"string\"><text:p>{long}</text:p>\
         </table:table-cell></table:table-row>"
    );
    let cells = cells(
        &book(
            "multi",
            "",
            "",
            &sheet("S", "<table:table-column table:number-columns-repeated=\"2\"/>", &rows),
        )
        .html(),
    );
    assert_eq!(cells[0], "café\nnaïve");
    assert!(cells[1].chars().count() <= MAX_CELL_CHARS + 1, "{}", cells[1]);
    assert!(cells[1].ends_with('…'));
}

#[test]
fn terms_are_marked_and_the_best_one_is_named() {
    let f = book(
        "terms",
        "",
        "",
        &sheet("S", "<table:table-column/>", &text_row(&["the runner was running"])),
    );
    let doc = f.render(None, &["run".to_string()]).expect("render");
    assert!(doc.html.contains("<mark class=\"preview-hl\""), "{}", doc.html);
    assert!(doc.best_mark_id.is_some());
}

#[test]
fn a_workbook_with_no_tables_is_an_error() {
    let f = book("notables", "", "", "");
    assert!(f.render(None, &[]).is_err());
}

#[test]
fn the_track_vector_matches_the_emitters_one_based_indexing() {
    // Rows are indexed by their number, which starts at one, and there is a closing
    // edge past the last row, so the vector is `nrows + 2` long.
    let rows = Rows {
        at: Vec::new(),
        nrows: 3,
        ncols: 1,
        px: vec![px(10.0), px(20.0), px(30.0)],
        hidden: vec![false, true, false],
        shapes: false,
    };
    let t = rows.tracks(3);
    assert_eq!(t.len(), 5);
    assert_eq!(t[1].px, px(10.0));
    assert_eq!(t[3].px, px(30.0));
    assert!(t[2].hidden);
}

#[test]
fn a_column_styles_the_cells_that_state_no_style() {
    let auto = "<style:style style:name=\"ce1\" style:family=\"table-cell\">\
         <style:table-cell-properties fo:background-color=\"#ff0000\"/></style:style>\
         <style:style style:name=\"ce2\" style:family=\"table-cell\">\
         <style:table-cell-properties fo:background-color=\"#00ff00\"/></style:style>";
    let cols = "<table:table-column/>\
         <table:table-column table:number-columns-repeated=\"2\" \
         table:default-cell-style-name=\"ce1\"/>";
    let rows = "<table:table-row>\
         <table:table-cell office:value-type=\"string\"><text:p>a</text:p></table:table-cell>\
         <table:table-cell office:value-type=\"string\"><text:p>b</text:p></table:table-cell>\
         <table:table-cell table:style-name=\"ce2\" office:value-type=\"string\">\
         <text:p>c</text:p></table:table-cell>\
         <table:table-cell office:value-type=\"string\"><text:p>d</text:p></table:table-cell>\
         </table:table-row>";
    let html = book("coldefault", "", auto, &sheet("S", cols, rows)).html();
    assert!(html.contains("td.xf0{background-color:#ff0000;}"), "{html}");
    assert!(html.contains("td.xf1{background-color:#00ff00;}"), "{html}");
    assert!(html.contains("<td class=\"xl-t\">a</td>"), "{html}");
    assert!(html.contains("<td class=\"xf0 xl-t\">b</td>"), "{html}");
    assert!(html.contains("<td class=\"xf1 xl-t\">c</td>"), "{html}");
    assert!(html.contains("<td class=\"xl-t\">d</td>"), "{html}");
}
