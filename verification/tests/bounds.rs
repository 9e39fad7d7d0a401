//! Limits that count what a reader sees, and numbers in every spelling.

use odf_preview::cellstyle::Rotation;
use odf_preview::chars::chars_of;
use odf_preview::highlight::{Marker, Terms};
use odf_preview::html::Writer;
use odf_preview::media::Pictures;
use odf_preview::model::{emit_paras, HtmlStyle, Para, Run, TextRun};
use odf_preview::numfmt::calendar::{civil_from_days, weekday_from_days};
use odf_preview::numfmt::numbers::Digits;
use odf_preview::numfmt::{Amount, Format, Sign};
use odf_preview::odf::length::{parse_border, parse_len, parse_percent};
use odf_preview::odf::list::{ListStart, Lists, MAX_DEPTH};
use odf_preview::odf::number::{parse_number, Number};
use odf_preview::odf::numstyle::{bracket_color, Body, Numbers, MAX_BODY, MAX_STYLE_CODE};
use odf_preview::odf::pkg::{Entries, Parts};
use odf_preview::odf::render;
use odf_preview::odf::sheet::rows::{Rows, MAX_SCAN_ROWS};
use odf_preview::odf::slide::place::place;
use odf_preview::odf::style::store::Styles;
use odf_preview::odf::style::{parse_cell_props, parse_text_props, Position};
use odf_preview::odf::table::plan::{plan, MAX_COLS};
use odf_preview::names::Names;
use odf_preview::values::Values;
use odf_preview::xml::{parse, Element};

fn xml(s: &str) -> Element {
    parse(s).expect("the text parses")
}

// ── lists ────────────────────────────────────────────────────────────────────

/// Ten levels in decimals, under the name `L`.
fn decimal_lists() -> Lists {
    let mut levels = String::new();
    for n in 1..=10 {
        levels.push_str(&format!("<list-level-style-number level=\"{n}\" num-format=\"1\"/>"));
    }
    let style = format!("<list-style name=\"L\">{levels}</list-style>");
    Lists::parse(None, &format!("<d><automatic-styles>{style}</automatic-styles></d>"))
}

fn list<'a>() -> ListStart<'a> {
    ListStart { style: Some("L"), ..ListStart::plain() }
}

fn label(l: &mut Lists) -> Option<String> {
    l.item(&Styles::empty(), 0).map(|m| m.label.map(|t| t.label).unwrap_or_default())
}

#[test]
fn a_list_past_the_deepest_has_no_markers_and_moves_no_counter() {
    let mut l = decimal_lists();
    for _ in 0..MAX_DEPTH {
        l.enter(list());
    }
    assert_eq!(label(&mut l).as_deref(), Some("1"));
    l.enter(list());
    assert_eq!(l.depth(), MAX_DEPTH + 1);
    assert_eq!(label(&mut l), None);
    // Its text is still indented, as in the innermost list that is kept.
    let header = l.header();
    assert!(header.is_some());
    l.leave();
    // That one goes on where it was.
    assert_eq!(l.header(), header);
    assert_eq!(label(&mut l).as_deref(), Some("2"));
    // A number that is set past the deepest is for the next item that has a marker.
    l.enter(list());
    l.restart_at(40);
    assert_eq!(label(&mut l), None);
    l.leave();
    assert_eq!(label(&mut l).as_deref(), Some("40"));
}

#[test]
fn a_continued_list_without_an_item_is_continued_by_its_name_alone() {
    let mut l = decimal_lists();
    l.enter(ListStart { id: Some("a"), ..list() });
    label(&mut l);
    l.leave();
    l.enter(list());
    label(&mut l);
    label(&mut l);
    label(&mut l);
    l.leave();
    // This one takes over the counter of `a`, and has no item of its own.
    l.enter(ListStart { id: Some("b"), continue_list: Some("a"), ..list() });
    l.leave();
    l.enter(ListStart { continue_numbering: true, ..list() });
    assert_eq!(label(&mut l).as_deref(), Some("4"));
    l.leave();
    // By its name it is continued where the counter that it took over stood.
    l.enter(ListStart { continue_list: Some("b"), ..list() });
    assert_eq!(label(&mut l).as_deref(), Some("2"));
}

// ── tables ───────────────────────────────────────────────────────────────────

fn row(cells: &str) -> Element {
    xml(&format!("<table><table-row>{cells}</table-row></table>"))
}

#[test]
fn a_covered_slot_takes_no_column_beside_its_span() {
    let pair = "<table-cell number-columns-spanned=\"2\"/><covered-table-cell/>";
    for n in [30, 32] {
        let t = row(&pair.repeat(n));
        let p = plan(&t, 8000);
        assert_eq!(p.rows.len(), 1);
        assert_eq!(p.rows[0].cells.len(), n);
        assert!(p.rows[0].cells.iter().all(|c| c.span == 2));
        assert_eq!(8000 - p.left, n);
        assert!(!p.clipped, "{n} pairs are {} columns", 2 * n);
    }
    // One more pair is past the last column.
    assert!(plan(&row(&pair.repeat(MAX_COLS / 2 + 1)), 8000).clipped);
    // What a cell of the row above covers takes columns of its own.
    let below = format!("<covered-table-cell number-columns-repeated=\"{MAX_COLS}\"/><table-cell/>");
    let t = row(&below);
    let p = plan(&t, 8000);
    assert!(p.clipped && p.rows[0].cells.is_empty());
}

// ── sheets ───────────────────────────────────────────────────────────────────

#[test]
fn every_row_that_a_repeated_row_covers_refers_to_it() {
    let cell = "<table-cell value-type=\"string\"><p>x</p></table-cell>";
    let many = format!("<table-row number-rows-repeated=\"300\">{cell}</table-row>");
    let t = xml(&format!("<table name=\"S\">{many}<table-row>{cell}</table-row></table>"));
    let rows = Rows::plan(&Styles::empty(), &t);
    assert_eq!((rows.at.len(), rows.px.len(), rows.hidden.len()), (301, 301, 301));
    assert!(rows.at[..300].iter().all(|e| e.attr_local("number-rows-repeated").is_some()));
    let endless = format!("<table-row number-rows-repeated=\"1048576\">{cell}</table-row>");
    let t = xml(&format!("<table>{endless}</table>"));
    assert_eq!(Rows::plan(&Styles::empty(), &t).at.len(), MAX_SCAN_ROWS);
    // The window is told of, though only the repetition reaches past it.
    let body = format!("<d><body><spreadsheet><table>{many}</table></spreadsheet></body></d>");
    let parts = Parts {
        entries: Entries(Vec::new()),
        manifest: Ok(None),
        mimetype: Ok(None),
        content: Ok(Some(body)),
        styles: Ok(None),
        meta: Ok(None),
        settings: Ok(None),
    };
    let d = render(parts, None, &[], &Pictures::none(), &Values::none()).expect("renders");
    assert!(d.truncated);
    assert!(d.notes.iter().any(|n| n == "First 200 rows only"), "{:?}", d.notes);
}

// ── days ─────────────────────────────────────────────────────────────────────

#[test]
fn the_farthest_days_have_a_date_and_a_weekday() {
    for z in [i64::MIN, i64::MIN + 1, -7, -1, 0, 6, i64::MAX - 1, i64::MAX] {
        let want = (z as i128 + 4).rem_euclid(7) as u32;
        assert_eq!(weekday_from_days(z), want);
        let (_, m, d) = civil_from_days(z);
        assert!((1..=12).contains(&m) && (1..=31).contains(&d));
    }
    // 400 years are 146097 days.
    assert_eq!(civil_from_days(146_097 * 1_000_000_000), (400_000_001_970, 1, 1));
}

// ── numbers ──────────────────────────────────────────────────────────────────

fn finite(negative: bool, whole: u128, parts: u64) -> Option<Number> {
    Some(Number::Finite { negative, whole, parts })
}

#[test]
fn a_number_that_is_not_zero_is_not_read_as_zero() {
    assert_eq!(parse_percent("0.0000001%"), Some(1));
    assert_eq!(parse_percent("-0.0000001%"), Some(-1));
    assert_eq!(parse_percent("0.0000000%"), Some(0));
    assert!(parse_len("0.00000001in").is_some_and(|v| v > 0));
    let position = |v: &str| {
        let e = xml(&format!("<p text-position=\"{v}\"/>"));
        parse_text_props(&e, &Names::new()).position
    };
    assert_eq!(position("0.0000001% 58%"), Some(Position::Super));
    assert_eq!(position("-0.0000001% 58%"), Some(Position::Sub));
    assert_eq!(position("0% 100%"), Some(Position::Baseline));
    // Half of the least number of single precision is between these two.
    let zeros = "0".repeat(45);
    assert_eq!(position(&format!("0.{zeros}7007% 58%")), Some(Position::Super));
    assert_eq!(position(&format!("0.{zeros}7006% 58%")), Some(Position::Baseline));
    let number = |s: &str| parse_number(&chars_of(s));
    assert_eq!(number("1e-16"), finite(false, 0, 1));
    assert_eq!(number("7.007e-46"), finite(false, 0, 1));
    assert_eq!(number("0.00007007e-41"), finite(false, 0, 1));
    assert_eq!(number("7.006e-46"), finite(false, 0, 0));
    assert_eq!(number("1e-99999999999999999999999999999999999999"), finite(false, 0, 0));
}

#[test]
fn a_number_is_read_in_every_spelling() {
    let read = |s: &str| parse_number(&chars_of(s));
    for (s, whole, parts) in [
        ("90", 90, 0),
        ("+90.", 90, 0),
        (".5", 0, 500_000_000_000_000),
        ("9e1", 90, 0),
        ("9E+1", 90, 0),
        ("900e-1", 90, 0),
        ("1.2345678", 1, 234_567_800_000_000),
        ("12345.678e-4", 1, 234_567_800_000_000),
        ("1.2345678901234567", 1, 234_567_890_123_456),
        ("0e999999999999999999999999999999999999", 0, 0),
        ("5e-999999999999999999999999999999999999", 0, 0),
        ("1e30", 1_000_000_000_000_000_000_000_000_000_000, 0),
    ] {
        assert_eq!(read(s), finite(false, whole, parts), "{s}");
    }
    assert_eq!(read("-1.5e0"), finite(true, 1, 500_000_000_000_000));
    for s in ["1e39", "340282356779733661637539395458142568448", "inf", "+Infinity"] {
        assert_eq!(read(s), Some(Number::Infinite { negative: false }), "{s}");
    }
    assert_eq!(read("-1e99999999999999999999"), Some(Number::Infinite { negative: true }));
    assert_eq!(read("NaN"), Some(Number::Nothing));
    for s in ["", "-", ".", "e1", "1e", "1e+", "1e1.5", "1.2.3", "1 ", "0x1", "infin"] {
        assert_eq!(read(s), None, "{s:?}");
    }
}

#[test]
fn weights_and_turns_take_every_spelling_of_a_number() {
    let bold = |v: &str| {
        let e = xml(&format!("<text-properties font-weight=\"{v}\"/>"));
        parse_text_props(&e, &Names::new()).bold
    };
    for (v, want) in [
        ("600", Some(true)),
        ("7e2", Some(true)),
        ("599.9", Some(false)),
        // The next number below 600 is 599.99993896484375 in single precision.
        ("599.999969482421874", Some(false)),
        ("599.999969482421875", Some(true)),
        ("599.9999999", Some(true)),
        ("-700", Some(false)),
        ("inf", Some(true)),
        ("-inf", Some(false)),
        ("nan", Some(false)),
        ("heavy", None),
    ] {
        assert_eq!(bold(v), want, "{v}");
    }
    let turn = |v: &str| {
        parse_cell_props(&xml(&format!("<table-cell-properties rotation-angle=\"{v}\"/>"))).rotation
    };
    for (v, want) in [
        ("2000090", 290_000_000),
        ("9e1", 90_000_000),
        ("-90", 270_000_000),
        ("-360", 0),
        ("360.25", 250_000),
        ("3600000000000000000000000000000000090", 90_000_000),
    ] {
        assert_eq!(turn(v), Some(Rotation::Ccw(want)), "{v}");
    }
    assert_eq!(turn("inf"), None);
    assert_eq!(turn("1e39"), None);
    let shape = |v: &str| {
        xml(&format!("<rect width=\"1in\" height=\"1in\" transform=\"rotate ({v})\"/>"))
    };
    let spelled = place(&shape("5e-1"), (1 << 40, 1 << 40)).expect("placed").0.turn;
    assert_eq!(spelled, place(&shape("0.5"), (1 << 40, 1 << 40)).expect("placed").0.turn);
    assert_eq!(spelled, Some(Rotation::Ccw(28_647_890)));
    // The least turn is one, though it shows as none.
    let least = place(&shape("1e-9"), (1 << 40, 1 << 40)).expect("placed").0.turn;
    assert_eq!(least, Some(Rotation::Ccw(0)));
    assert_eq!(place(&shape("0e9"), (1 << 40, 1 << 40)).expect("placed").0.turn, None);
}

// ── borders ──────────────────────────────────────────────────────────────────

#[test]
fn the_words_of_a_border_come_in_any_order() {
    let want = parse_border("2px dashed #ff0000");
    assert!(want.is_some());
    for s in ["2px #ff0000 dashed", "dashed 2px #ff0000", "#ff0000 dashed 2px", "#ff0000 2px dashed"] {
        assert_eq!(parse_border(s), want, "{s}");
    }
    assert_eq!(parse_border("2px none"), None);
    assert_eq!(parse_border("none 2px"), None);
}

// ── number styles ────────────────────────────────────────────────────────────

fn code_of(text: &str) -> String {
    let mut b = Body::new();
    b.text(&chars_of(text), false);
    b.finish()
}

#[test]
fn document_text_shows_as_itself() {
    for raw in ["km", "0;#", "[Red]", "50%", "a\"b", "\"", "\\\"\\", "yyyy-mm-dd", "_*@E+0"] {
        let f = Format::parse(&code_of(raw));
        let digits = Digits {
            ints: "7".to_string(),
            decs: String::new(),
            exp: 0,
            general: "7".to_string(),
        };
        let amount = Amount::Number(Some(digits));
        assert_eq!(f.apply(Sign::Positive, &amount), raw);
        assert_eq!(f.apply(Sign::Negative, &amount), format!("-{raw}"));
    }
}

#[test]
fn document_text_leaves_no_quote_open_however_long_it_is() {
    for n in 0..200 {
        for unit in ["x", "\"", "x\"", "é\"%"] {
            let code = code_of(&unit.repeat(n));
            assert!(code.len() <= MAX_BODY);
            let mut open = false;
            let mut chars = code.chars();
            while let Some(c) = chars.next() {
                if c == '"' {
                    open = !open;
                } else if c == '\\' && !open {
                    assert_eq!(chars.next(), Some('"'));
                }
            }
            assert!(!open, "{code}");
        }
    }
}

#[test]
fn a_color_has_a_bracket_where_it_has_a_name() {
    for (hex, name) in [
        ("#000000", "[Black]"),
        (" #0000FF ", "[Blue]"),
        ("#00ffff", "[Cyan]"),
        ("#008000", "[Green]"),
        ("#ff00ff", "[Magenta]"),
        ("#Ff0000", "[Red]"),
        ("#ffffff", "[White]"),
        ("#ffff00", "[Yellow]"),
    ] {
        assert_eq!(bracket_color(hex), Some(name));
    }
    for hex in ["#ff0001", "#00ff00", "ff0000", "#f00", "red", ""] {
        assert_eq!(bracket_color(hex), None, "{hex}");
    }
}

#[test]
fn a_styles_code_is_within_its_bound_and_its_color_reads_back() {
    let long = "x".repeat(400);
    let style = |name: &str, rest: &str| {
        format!(
            "<number-style name=\"{name}\"><text-properties color=\" #FF0000 \"/>\
             <number min-integer-digits=\"1\"/><text>{long}</text>{rest}</number-style>"
        )
    };
    let map = "<map condition=\"value()=0\" apply-style-name=\"Z\"/>";
    let content = format!(
        "<d><automatic-styles>{}{}</automatic-styles></d>",
        style("N", map),
        style("Z", "")
    );
    let n = Numbers::parse(None, &content);
    let code = n.code("N").expect("defined");
    assert!(code.len() > 300 && code.len() <= MAX_STYLE_CODE, "{}", code.len());
    assert_eq!(n.code("M"), None);
    let f = n.format("N").expect("defined");
    assert_eq!(f.color(Sign::Positive), Some("#ff0000"));
    assert_eq!(f.color(Sign::Zero), Some("#ff0000"));
}

#[test]
fn the_builtin_dates_are_those_of_the_table() {
    for id in 0..=60 {
        let Some(f) = Format::builtin(id) else { continue };
        assert_eq!(f.is_date(), (14..=22).contains(&id) || (45..=47).contains(&id), "{id}");
    }
}

// ── headings ─────────────────────────────────────────────────────────────────

#[test]
fn a_heading_is_its_paragraph_in_another_element() {
    let st = HtmlStyle {
        para_class: "p",
        list_class: "p li",
        marker_class: "bu",
        text_class: "tx",
        break_class: "",
        img_class: "",
        graphic_class: "",
        scalable: false,
    };
    let html = |heading: Option<u8>| {
        let runs = vec![
            Run::Text(TextRun { text: "one".to_string(), bold: true, ..Default::default() }),
            Run::Tab,
            Run::Anchor("here".to_string()),
        ];
        let mut w = Writer::new(1 << 16);
        let p = Para { runs, heading, ..Default::default() };
        emit_paras(&mut w, &[p], &st, &mut Marker::new(), &Terms::new(&["one".to_string()]));
        w.finish()
    };
    let plain = html(None);
    let inside = plain.strip_prefix("<p ").and_then(|s| s.strip_suffix("</p>")).expect("a p");
    for k in 1..=6 {
        assert_eq!(html(Some(k)), format!("<h{k} {inside}</h{k}>"));
    }
    for k in [0, 7, 255] {
        assert_eq!(html(Some(k)), plain);
    }
}
