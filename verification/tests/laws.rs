//! The laws of the library on chosen values, its errors, and what it hands to others.

use odf_preview::cellstyle::Rotation;
use odf_preview::chars::{bytes_in, chars_of, parse_u32, push_u64, trim};
use odf_preview::color::Color;
use odf_preview::fonts::css_font_stack;
use odf_preview::highlight::{Marker, Terms};
use odf_preview::html::{push_escaped, Writer};
use odf_preview::link::{bookmark_id, sanitize_href};
use odf_preview::listnum::{alpha, roman};
use odf_preview::media::{Picture, Pictures, Shown, Wanted};
use odf_preview::names::Names;
use odf_preview::notes::Notes;
use odf_preview::numfmt::calendar::{civil_from_days, weekday_from_days};
use odf_preview::numfmt::digits::{group_thousands, round_half_up, trim_zeros};
use odf_preview::odf::draw::{fit, want, MAX_BOX_PX, NOT_LOADED};
use odf_preview::odf::length::{parse_border, parse_len, PX};
use odf_preview::odf::list::{ListStart, Lists};
use odf_preview::odf::numstyle::Numbers;
use odf_preview::odf::pkg::{
    open, Entries, Part, Parts, BUDGET_EXCEEDED, ENCRYPTED, MALFORMED, MISSING, UNRECOGNIZED,
};
use odf_preview::odf::sheet::rows::Rows;
use odf_preview::odf::sheet::styles::SheetStyles;
use odf_preview::odf::slide::place::place;
use odf_preview::odf::style::store::Styles;
use odf_preview::odf::style::{merge, Family};
use odf_preview::odf::table::plan::{plan, MAX_COLS};
use odf_preview::odf::{fatal, render, sheet, slide, text, LOCKED, TOO_LARGE};
use odf_preview::values::{Answer, Asked, Values};
use odf_preview::xml::{parse, Element};

fn px(v: f64) -> i64 {
    (v * 381_000_000.0).round() as i64
}

fn text_of(v: &[char]) -> String {
    v.iter().collect()
}

fn xml(s: &str) -> Element {
    parse(s).expect("the text parses")
}

fn no_parts() -> Parts {
    Parts {
        entries: Entries(Vec::new()),
        manifest: Ok(None),
        mimetype: Ok(None),
        content: Ok(None),
        styles: Ok(None),
        meta: Ok(None),
        settings: Ok(None),
    }
}

fn some(s: &str) -> Part {
    Ok(Some(s.to_string()))
}

fn body(child: &str) -> Part {
    some(&format!("<d><body>{child}</body></d>"))
}

fn shown(parts: Parts) -> Result<String, String> {
    render(parts, None, &[], &Pictures::none(), &Values::none()).map(|d| d.html)
}

/// Every tag of some HTML is closed in it, innermost first.
fn balanced(html: &str) -> bool {
    let mut open: Vec<String> = Vec::new();
    let mut rest = html;
    while let Some(i) = rest.find('<') {
        let end = match rest[i..].find('>') {
            Some(n) => i + n,
            None => return false,
        };
        let tag = &rest[i + 1..end];
        if let Some(name) = tag.strip_prefix('/') {
            if open.pop().as_deref() != Some(name) {
                return false;
            }
        } else {
            let name = tag.split(' ').next().unwrap_or("");
            if !["br", "img", "col"].contains(&name) {
                open.push(name.to_string());
            }
        }
        rest = &rest[end + 1..];
    }
    open.is_empty()
}

// ── errors ───────────────────────────────────────────────────────────────────

#[test]
fn every_reason_not_to_open_a_package_is_told() {
    let mut notes = Notes::new();
    let err = |p: Parts, notes: &mut Notes| open(p, notes).err().expect("does not open");
    assert_eq!(err(no_parts(), &mut notes), MISSING);
    let broken = Parts { content: some("<d>"), ..no_parts() };
    assert_eq!(err(broken, &mut notes), MALFORMED);
    let drawing = Parts { content: body("<drawing/>"), ..no_parts() };
    assert_eq!(err(drawing, &mut notes), UNRECOGNIZED);
    let unreadable = Parts { content: Err("disk".to_string()), ..no_parts() };
    assert_eq!(err(unreadable, &mut notes), "disk");
    // A package that does not open is noted nowhere.
    assert!(notes.into_vec().is_empty());
}

#[test]
fn an_encrypted_package_is_refused_whatever_its_body_holds() {
    let manifest = "<m><file-entry full-path=\"content.xml\"><encryption-data/></file-entry></m>";
    for content in [Ok(None), some("<d>"), body("<text/>"), Err("disk".to_string())] {
        let locked = Parts { manifest: some(manifest), content: content.clone(), ..no_parts() };
        assert_eq!(open(locked, &mut Notes::new()).err().as_deref(), Some(ENCRYPTED));
        let locked = Parts { manifest: some(manifest), content, ..no_parts() };
        assert_eq!(shown(locked), Err(LOCKED.to_string()));
    }
}

#[test]
fn a_package_past_the_read_budget_is_too_large() {
    let spent = |styles: Part| Parts {
        content: Err(BUDGET_EXCEEDED.to_string()),
        styles,
        ..no_parts()
    };
    let over = spent(Ok(None));
    assert_eq!(open(over, &mut Notes::new()).err().as_deref(), Some(BUDGET_EXCEEDED));
    for styles in [Ok(None), some("<d/>"), Err("disk".to_string())] {
        assert_eq!(shown(spent(styles)), Err(TOO_LARGE.to_string()));
    }
    // Any other error is told as it is.
    assert_eq!(fatal("disk".to_string()), "disk");
}

#[test]
fn a_body_without_its_sections_is_an_error_and_one_without_text_a_note() {
    let sheets = Parts { content: body("<spreadsheet/>"), ..no_parts() };
    assert_eq!(shown(sheets), Err(sheet::NOTE_BODY.to_string()));
    let slides = Parts { content: body("<presentation/>"), ..no_parts() };
    assert_eq!(shown(slides), Err(slide::NOTE_BODY.to_string()));
    // The mimetype says text, and the body holds none.
    let bare = Parts {
        content: some("<d/>"),
        mimetype: some("application/vnd.oasis.opendocument.text"),
        ..no_parts()
    };
    let d = render(bare, None, &[], &Pictures::none(), &Values::none()).expect("renders");
    assert!(d.notes.iter().any(|n| n == text::NOTE_BODY), "{:?}", d.notes);
}

// ── what others hand in ──────────────────────────────────────────────────────

#[test]
fn a_parsed_text_is_a_tree_of_local_names() {
    let e = xml("<a:r xmlns:a=\"u\" a:k=\"v &amp; w\">one<a:c/>two</a:r>");
    assert_eq!((e.name.as_str(), e.attr_local("k")), ("r", Some("v & w")));
    assert_eq!(e.elems().len(), 1);
    assert_eq!(text_of(&e.inner_text()), "onetwo");
    assert!(parse("<r>").is_none());
    assert!(parse("").is_none());
    // A text may nest as deep as it likes.
    let deep = |n: usize| format!("{}x{}", "<r>".repeat(n), "</r>".repeat(n));
    for n in [1, 128, 129, 1000] {
        assert_eq!(parse(&deep(n)).map(|e| text_of(&e.inner_text())).as_deref(), Some("x"));
    }
    // A name that is bound to nothing is no name, and declarations are not read.
    assert!(parse("<a:r/>").is_none());
    assert!(parse("<!DOCTYPE r [<!ENTITY e \"x\">]><r>&e;</r>").is_none());
}

#[test]
fn escapes_in_references_are_bytes_of_a_text() {
    let e = Entries(vec!["Pictures/é.png".to_string()]);
    assert_eq!(e.resolve_href("Pictures/%C3%A9.png"), Some("Pictures/é.png"));
    // Half a character is no text.
    assert_eq!(e.resolve_href("Pictures/%C3.png"), None);
    assert_eq!(e.resolve_href("Pictures/%FF.png"), None);
}

#[test]
fn a_picture_is_asked_for_once_per_box_and_shown_when_handed_in() {
    let frame = "<frame width=\"1in\" height=\"1in\"><image href=\"p.png\"/></frame>";
    let parts = || Parts {
        entries: Entries(vec!["p.png".to_string()]),
        content: body(&format!("<text><p>{frame}</p></text>")),
        ..no_parts()
    };
    let none = Pictures::none();
    let d = render(parts(), None, &[], &none, &Values::none()).expect("renders");
    assert_eq!(d.wanted, vec![Wanted { part: "p.png".to_string(), want: want(px(96.0), MAX_BOX_PX) }]);
    assert!(d.html.contains(NOT_LOADED), "{}", d.html);
    let handed = |shown| Pictures {
        list: vec![Picture { part: "p.png".to_string(), want: want(px(96.0), MAX_BOX_PX), shown }],
        notes: vec!["Small pictures".to_string()],
    };
    let uri = handed(Shown::DataUri("data:,x".to_string()));
    let d = render(parts(), None, &[], &uri, &Values::none()).expect("renders");
    assert!(d.html.contains("src=\"data:,x\"") && d.wanted.is_empty(), "{}", d.html);
    assert!(d.notes.iter().any(|n| n == "Small pictures"));
    let reason = handed(Shown::Placeholder("too large".to_string()));
    let d = render(parts(), None, &[], &reason, &Values::none()).expect("renders");
    assert!(d.html.contains("too large"), "{}", d.html);
}

#[test]
fn a_value_is_asked_for_with_its_format_and_shown_when_answered() {
    let style = "<styles><number-style name=\"N\"><number decimal-places=\"1\"/></number-style>\
         <style name=\"c\" family=\"table-cell\" data-style-name=\"N\"/></styles>";
    let cell = "<table-cell style-name=\"c\" value-type=\"float\" value=\"2.25\"/>";
    let table = format!("<table name=\"S\"><table-column/><table-row>{cell}</table-row></table>");
    let parts = || Parts {
        content: some(&format!(
            "<d>{style}<body><spreadsheet>{table}</spreadsheet></body></d>"
        )),
        ..no_parts()
    };
    let show = |v: &Values| render(parts(), None, &[], &Pictures::none(), v).expect("renders");
    let d = show(&Values::none());
    let asked = Asked { raw: "2.25".to_string(), code: Some("0.0".to_string()) };
    assert_eq!((d.asked[0].raw.as_str(), d.asked[0].code.as_deref()), ("2.25", Some("0.0")));
    let list = vec![Answer { asked, text: Some("2.3".to_string()) }];
    let d = show(&Values { list });
    assert!(d.asked.is_empty() && d.html.contains(">2.3</td>"), "{}", d.html);
}

// ── laws ─────────────────────────────────────────────────────────────────────

#[test]
fn whatever_a_document_holds_its_preview_closes_what_it_opens() {
    let frame = "<frame><text-box><p>in <span>a</span> box &lt;b&gt;</p>\
         <table><table-row><table-cell><p>cell</p></table-cell></table-row></table>\
         </text-box></frame>";
    let content = format!(
        "<text><h outline-level=\"2\">&lt;/div&gt;</h><p>one {frame} two<line-break/></p>\
         <list><list-item><p>item</p><list><list-item><p>inner</p></list-item></list>\
         </list-item></list><p>run<note><note-citation>1</note-citation><note-body><p>note</p>\
         </note-body></note></p></text>"
    );
    for cap in [0, 40, 100, 200, 400, 800, 100_000] {
        let mut notes = Notes::new();
        let parts = Parts { content: body(&content), ..no_parts() };
        let package = open(parts, &mut notes).expect("opens");
        let terms = ["run".to_string(), "box".to_string()];
        let d = text::render_with(package, notes, &terms, &Pictures::none(), cap)
            .expect("renders");
        let html = d.html.split_once("</style>").expect("a stylesheet").1;
        assert!(balanced(html), "{cap}: {html}");
        assert_eq!(d.truncated, cap < 100_000, "{cap}: {html}");
    }
}

#[test]
fn a_sheet_and_a_slide_close_what_they_open_in_any_room() {
    let grid = "<spreadsheet><table><table-row><table-cell value-type=\"string\"><p>one</p>\
         </table-cell></table-row></table></spreadsheet>";
    let deck = "<presentation><page><rect width=\"1in\" height=\"1in\"><p>one</p></rect></page>\
         </presentation>";
    let opened = |content: &str| {
        let mut notes = Notes::new();
        let parts = Parts { content: body(content), ..no_parts() };
        (open(parts, &mut notes).expect("opens"), notes)
    };
    for cap in [0, 40, 100, 200, 100_000] {
        let (package, notes) = opened(grid);
        let sheet = sheet::render_with(package, notes, None, &[], &Values::none(), cap);
        let (package, notes) = opened(deck);
        let slide = slide::render_with(package, notes, None, &[], &Pictures::none(), cap);
        for d in [sheet.expect("renders"), slide.expect("renders")] {
            let html = d.html.split_once("</style>").expect("a stylesheet").1;
            assert!(balanced(html), "{cap}: {html}");
            assert_eq!(d.truncated, cap < 100_000, "{cap}: {html}");
            assert_eq!(html.contains("one"), cap == 100_000, "{cap}: {html}");
        }
    }
}

#[test]
fn a_full_writer_writes_nothing_but_closing_tags() {
    let mut w = Writer::new(5);
    w.open("p", &Vec::new());
    w.text("<");
    assert!(w.is_full());
    w.text("a");
    w.open("a", &Vec::new());
    w.close();
    w.close();
    assert_eq!(w.len(), 3);
    assert_eq!(w.finish(), "<p></p>");
}

#[test]
fn escaped_text_holds_no_bracket_and_no_quote() {
    let mut v = Vec::new();
    push_escaped(&mut v, &chars_of("<a href=\"x\">&"), true);
    assert_eq!(text_of(&v), "&lt;a href=&quot;x&quot;&gt;&amp;");
}

#[test]
fn marks_are_numbered_and_stand_around_whole_words() {
    let mut m = Marker::new();
    let terms = Terms::new(&["Run".to_string(), "  ".to_string()]);
    let html = m.mark("a <runner> ran, RUN", &terms);
    assert_eq!(
        text_of(&html),
        "a &lt;<mark class=\"preview-hl\" id=\"pm-0\">runner</mark>&gt; ran, \
         <mark class=\"preview-hl\" id=\"pm-1\">RUN</mark>"
    );
    assert_eq!(m.best_mark_id().as_deref(), Some("pm-0"));
    // Without terms nothing is marked.
    let mut m = Marker::new();
    assert_eq!(text_of(&m.mark("run", &Terms::new(&[]))), "run");
    assert_eq!(m.best_mark_id(), None);
}

#[test]
fn notes_are_held_once_and_names_give_back_what_was_stored() {
    let mut n = Notes::new();
    n.add("a");
    n.add("b");
    n.add("a");
    assert!(n.has("a") && !n.has("c"));
    assert_eq!(n.into_vec(), ["a", "b"]);
    let mut t: Names<u32> = Names::new();
    t.put("x".to_string(), 1);
    t.put("y".to_string(), 2);
    t.put("x".to_string(), 3);
    assert_eq!((t.get("x"), t.get("y"), t.get("z"), t.len()), (Some(&3), Some(&2), None, 2));
}

#[test]
fn numerals_read_back_as_the_number_they_were_written_for() {
    for n in [0, 9, 10, 4_294_967_295u64] {
        let mut v = Vec::new();
        push_u64(&mut v, n);
        assert_eq!(text_of(&v), n.to_string());
        assert_eq!(parse_u32(&v), Some(n as u32));
    }
    assert_eq!(parse_u32(&chars_of("4294967296")), None);
    for (n, want) in [(1, "a"), (26, "z"), (27, "aa"), (52, "az"), (703, "aaa")] {
        assert_eq!(text_of(&alpha(n, false)), want);
    }
    for (n, want) in [(4, "IV"), (9, "IX"), (1994, "MCMXCIV"), (3999, "MMMCMXCIX")] {
        assert_eq!(text_of(&roman(n, true)), want);
    }
}

#[test]
fn texts_are_trimmed_and_measured_in_bytes() {
    assert_eq!(text_of(&trim(&chars_of(" \t a b \n"))), "a b");
    assert_eq!(text_of(&trim(&chars_of("   "))), "");
    assert_eq!(bytes_in("aé€😀"), 10);
}

#[test]
fn every_day_has_one_date_and_weekdays_follow_each_other() {
    assert_eq!(civil_from_days(0), (1970, 1, 1));
    assert_eq!(weekday_from_days(0), 4);
    assert_eq!(civil_from_days(-1), (1969, 12, 31));
    assert_eq!(civil_from_days(11_016), (2000, 2, 29));
    assert_eq!(civil_from_days(11_017), (2000, 3, 1));
    for z in -800..800 {
        assert_eq!(weekday_from_days(z + 1), (weekday_from_days(z) + 1) % 7);
        assert!(civil_from_days(z) < civil_from_days(z + 1));
    }
}

#[test]
fn rounding_carries_and_grouping_keeps_the_digits() {
    let halves = |s: &str, n| {
        let (a, b) = round_half_up(s, n);
        format!("{a}.{b}")
    };
    assert_eq!(halves("9.995", 2), "10.00");
    assert_eq!(halves("0.4999", 0), "0.");
    assert_eq!(halves("2.5", 3), "2.500");
    let grouped = group_thousands(&chars_of("1234567"));
    assert_eq!(text_of(&grouped), "1,234,567");
    assert_eq!(text_of(&grouped).replace(',', ""), "1234567");
    assert_eq!((trim_zeros("1.500"), trim_zeros("10")), ("1.5".to_string(), "10".to_string()));
}

#[test]
fn lengths_are_bounded_and_borders_can_be_seen() {
    assert_eq!(parse_len("10000in"), Some(960_000 * PX));
    assert_eq!(parse_len("1000001px"), None);
    assert_eq!(parse_border("0.001mm solid").map(|b| b.width_px), Some(PX));
    assert_eq!(Color::from_rgb(0x0a_ff_00).css(), "#0aff00");
}

#[test]
fn a_reference_never_leaves_the_package() {
    let names = ["a.png", "d/a.png", "../a.png", "/a.png", "c:a.png", "d\\a.png"];
    let e = Entries(names.iter().map(|n| n.to_string()).collect());
    assert_eq!(e.resolve_href("./d/a.png"), Some("d/a.png"));
    for href in ["../a.png", "/a.png", "c:a.png", "d\\a.png", "d/../a.png", "%2e%2e/a.png"] {
        assert_eq!(e.resolve_href(href), None, "{href}");
    }
}

#[test]
fn links_lead_to_the_web_to_an_address_or_into_the_document() {
    for (href, want) in [
        (" https://example.org/a ", Some("https://example.org/a")),
        ("MAILTO:a@example.org", Some("MAILTO:a@example.org")),
        ("javascript:alert(1)", None),
        ("file:///etc/passwd", None),
        ("", None),
    ] {
        assert_eq!(sanitize_href(href).as_deref(), want, "{href}");
    }
    let inside = sanitize_href("#Widget").expect("a bookmark");
    assert_eq!(inside, format!("#{}", bookmark_id("Widget").expect("an id")));
}

#[test]
fn a_font_stack_stays_in_its_declaration() {
    assert_eq!(css_font_stack("Widget Sans"), "\"Widget Sans\", sans-serif");
    let odd = css_font_stack("a\";}</style><b>{;");
    assert!(!odd.contains(';') && !odd.contains('<'), "{odd}");
}

#[test]
fn a_style_merged_over_nothing_and_nothing_merged_over_it_are_itself() {
    let s = Styles::parse(
        Some(
            "<d><styles><style name=\"A\" family=\"paragraph\"><paragraph-properties \
             text-align=\"center\"/><text-properties font-size=\"10pt\"/></style></styles></d>",
        ),
        "<d/>",
    );
    let show = |r: &odf_preview::odf::style::Resolved| format!("{r:?}");
    let a = s.resolve(Family::Paragraph, "A");
    let mut over = Styles::empty().resolve(Family::Paragraph, "A");
    merge(&mut over, &a);
    assert_eq!(show(&over), show(&a));
    let mut under = s.resolve(Family::Paragraph, "A");
    merge(&mut under, &Styles::empty().resolve(Family::Paragraph, "A"));
    assert_eq!(show(&under), show(&a));
}

#[test]
fn margins_leave_a_column_and_a_frame_is_fitted_to_it() {
    assert_eq!(fit(px(1000.0), px(500.0), px(500.0)), (px(500.0), px(250.0)));
    assert_eq!(fit(px(100.0), px(50.0), px(500.0)), (px(100.0), px(50.0)));
    let s = Styles::parse(
        Some(
            "<d><automatic-styles><page-layout name=\"L\"><page-layout-properties \
             page-width=\"5in\" page-height=\"5in\" margin=\"9in\"/></page-layout>\
             </automatic-styles><master-styles><master-page name=\"M\" page-layout-name=\"L\"/>\
             </master-styles></d>",
        ),
        "<d/>",
    );
    let page = s.page_setup(None).page;
    assert_eq!(page.width - page.left - page.right, px(96.0));
}

#[test]
fn lists_pair_and_a_continued_one_goes_on() {
    let style = "<d><styles><list-style name=\"L\"><list-level-style-number level=\"1\" \
         num-format=\"1\"/></list-style></styles></d>";
    let mut l = Lists::parse(None, style);
    let s = Styles::empty();
    let plain = || ListStart { style: Some("L"), ..ListStart::plain() };
    let label = |l: &mut Lists| l.item(&s, 0).and_then(|m| m.label).map(|m| m.label);
    l.enter(plain());
    assert_eq!(label(&mut l).as_deref(), Some("1"));
    l.enter(ListStart::plain());
    l.leave();
    assert_eq!((l.depth(), label(&mut l).as_deref()), (1, Some("2")));
    l.leave();
    l.enter(ListStart { continue_numbering: true, ..plain() });
    assert_eq!(label(&mut l).as_deref(), Some("3"));
    l.leave();
    l.leave();
    assert_eq!(l.depth(), 0);
}

#[test]
fn a_plan_spends_its_budget_on_cells() {
    let row = "<table-row><table-cell number-columns-repeated=\"3\"/></table-row>";
    let t = xml(&format!("<table>{row}{row}{row}</table>"));
    let p = plan(&t, 8);
    let cells: usize = p.rows.iter().map(|r| r.cells.len()).sum();
    assert_eq!((cells, p.left), (8, 0));
    let p = plan(&t, 20);
    let cells: usize = p.rows.iter().map(|r| r.cells.len()).sum();
    assert_eq!((cells, p.left, p.clipped), (9, 11, false));
    assert!(plan(&t, 6).clipped);
    let wide = xml("<table><table-row><table-cell number-columns-spanned=\"999\"/></table-row></table>");
    assert_eq!(plan(&wide, 9).rows[0].cells[0].span, MAX_COLS);
}

#[test]
fn a_sheet_ends_with_its_data_and_merges_stay_inside() {
    let t = xml(
        "<table><table-row><table-cell value-type=\"float\" number-columns-spanned=\"99\" \
         number-rows-spanned=\"99\"><p>1</p></table-cell></table-row>\
         <table-row number-rows-repeated=\"5\"><table-cell/></table-row></table>",
    );
    let rows = Rows::plan(&Styles::empty(), &t);
    assert_eq!(rows.nrows, 1);
    let m = rows.merges(1, 4);
    assert_eq!((m[0].r0, m[0].r1, m[0].c0, m[0].c1), (1, 1, 0, 3));
}

#[test]
fn a_cell_style_keeps_its_number() {
    let s = Styles::parse(
        Some(
            "<d><styles><style name=\"a\" family=\"table-cell\"><table-cell-properties \
             background-color=\"#111111\"/></style><style name=\"b\" family=\"table-cell\">\
             <table-cell-properties background-color=\"#222222\"/></style></styles></d>",
        ),
        "<d/>",
    );
    let (a, b) = (s.resolve(Family::TableCell, "a"), s.resolve(Family::TableCell, "b"));
    let mut t = SheetStyles::new();
    assert_eq!((t.intern("a", &a), t.intern("b", &b), t.intern("a", &a)), (Some(0), Some(1), Some(0)));
    assert_eq!(
        text_of(&t.css_block()),
        "td.xf0{background-color:#111111;}\ntd.xf1{background-color:#222222;}\n"
    );
}

#[test]
fn a_shape_stays_on_a_bounded_canvas() {
    let far = xml("<rect x=\"9000in\" y=\"-9000in\" width=\"1in\" height=\"9000in\"/>");
    let (b, odd) = place(&far, (px(960.0), px(720.0))).expect("placed");
    assert!(!odd && b.turn.is_none());
    assert_eq!((b.x, b.y), (px(16384.0), px(-16384.0)));
    assert_eq!((b.w, b.h), (px(96.0), px(4.0 * 720.0)));
    let turned = xml("<rect transform=\"rotate (1)\" width=\"1in\" height=\"1in\"/>");
    let (b, _) = place(&turned, (px(960.0), px(720.0))).expect("placed");
    assert!(matches!(b.turn, Some(Rotation::Ccw(v)) if (v as f64 / 1e6 - 57.29578).abs() < 1e-3));
}

#[test]
fn document_text_in_a_format_reads_back() {
    let n = Numbers::parse(
        None,
        "<d><styles><number-style name=\"N\"><text>[;\"]</text>\
         <number min-integer-digits=\"1\"/></number-style></styles></d>",
    );
    assert_eq!(n.code("N").as_deref(), Some("\"[;\"\\\"\"]\"0"));
}
