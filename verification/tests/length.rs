//! Lengths, percentages, colours and borders.

use odf_preview::color::Color;
use odf_preview::odf::length::{
    clamp_px, parse_border, parse_color, parse_len, parse_measure, parse_percent, Border,
    BorderStyle, Measure, PERCENT, PX,
};

fn px(v: f64) -> i64 {
    (v * 381_000_000.0).round() as i64
}

fn pt(v: f64) -> i64 {
    (v * 508_000_000.0).round() as i64
}

fn len(s: &str) -> Option<i64> {
    parse_len(s)
}

fn near(a: i64, want: f64) -> bool {
    (a as f64 / PX as f64 - want).abs() < 0.001
}

fn close(a: Option<i64>, want: f64) -> bool {
    matches!(a, Some(v) if near(v, want))
}

fn css(b: &Border) -> String {
    b.css().iter().collect()
}

#[test]
fn every_unit_converts_to_px_at_96dpi() {
    assert!(close(len("1in"), 96.0));
    assert!(close(len("2.54cm"), 96.0));
    assert!(close(len("25.4mm"), 96.0));
    assert!(close(len("72pt"), 96.0));
    assert!(close(len("6pc"), 96.0));
    assert!(close(len("96px"), 96.0));
    // A bare number is px.
    assert!(close(len("96"), 96.0));
    // A spot check on the two commonest units.
    assert!(close(len("0.5pt"), 0.6667));
    assert!(close(len("0.6cm"), 22.6772));
}

#[test]
fn pt_conversion_matches_the_shared_converter() {
    // One definition of the point, not two.
    assert_eq!(len("12pt"), Some(pt(12.0)));
    assert_eq!(len("0.74pt"), Some(pt(0.74)));
}

#[test]
fn signs_fractions_and_whitespace_are_accepted() {
    assert!(close(len("-0.25in"), -24.0));
    assert!(close(len("-0.1252in"), -12.0192));
    assert!(close(len("+1in"), 96.0));
    assert!(close(len("  1in  "), 96.0));
    assert!(close(len("1 in"), 96.0));
    assert!(close(len(".5in"), 48.0));
    assert!(close(len("-.5in"), -48.0));
    assert!(close(len("0in"), 0.0));
    assert!(close(len("-0.231cm"), -8.7307));
}

#[test]
fn garbage_degrades_to_none() {
    for s in [
        "", "   ", "abc", "in", "%", "-", "+", ".", "-.", "cm12", "NaN", "nan", "inf",
        "infinity", "-inf", "12,5cm", "1e5cm", "1_000in", "#000000", "1in 1in", "1zz",
        "1 cm cm",
    ] {
        assert_eq!(parse_measure(s), None, "{s:?} must not parse");
    }
}

#[test]
fn absurd_magnitudes_degrade_to_none() {
    // Finite but nonsensical: refused rather than clamped, because a value
    // this far out is a corrupt attribute, not a wide page.
    assert_eq!(len("100000in"), None);
    assert_eq!(len("-100000in"), None);
    // Overflows f32 inside the parse itself.
    let huge: String = "9".repeat(60);
    assert_eq!(len(&format!("{huge}in")), None);
    assert_eq!(len(&huge), None);
    // The largest accepted value is still finite px.
    assert!(len("10000in").is_some());
}

#[test]
fn percentages_are_distinguishable_from_lengths() {
    assert_eq!(parse_measure("45%"), Some(Measure::Percent(45 * PERCENT)));
    assert_eq!(parse_percent("45%"), Some(45 * PERCENT));
    assert_eq!(parse_percent("-10%"), Some(-10 * PERCENT));
    assert_eq!(parse_percent("100%"), Some(100 * PERCENT));
    // Each accessor rejects the other spelling.
    assert_eq!(parse_len("45%"), None);
    assert_eq!(parse_percent("12pt"), None);
    assert_eq!(parse_percent("12"), None);
    // Bounded the way a length is.
    assert_eq!(parse_percent("1000000%"), None);
    // `fo:font-size` takes both spellings through one call.
    assert!(matches!(parse_measure("20pt"), Some(Measure::Px(_))));
    assert!(matches!(parse_measure("75%"), Some(Measure::Percent(_))));
}

#[test]
fn clamp_keeps_geometry_inside_its_bounds() {
    assert_eq!(clamp_px(px(500.0), px(96.0), px(4096.0)), px(500.0));
    assert_eq!(clamp_px(px(10.0), px(96.0), px(4096.0)), px(96.0));
    assert_eq!(clamp_px(px(99999.0), px(96.0), px(4096.0)), px(4096.0));
    // An inverted range does not panic.
    assert_eq!(clamp_px(px(500.0), px(4096.0), px(96.0)), px(4096.0));
}

#[test]
fn colours_parse_hex_and_the_transparent_keyword() {
    assert_eq!(parse_color("#191b0e"), Some(Color::from_rgb(0x19_1b_0e)));
    assert_eq!(parse_color("#FFFFFF"), Some(Color::from_rgb(0xff_ff_ff)));
    assert_eq!(parse_color("  #2f5496 "), Some(Color::from_rgb(0x2f_5496)));

    // Transparent is a stated value, not an absent one, so it has to be
    // representable — which is why this returns `Color` and not a bare rgb
    // integer.
    let t = parse_color("transparent").expect("keyword parses");
    assert_eq!(t.alpha, 0);
    assert_eq!(t.css(), "rgba(0, 0, 0, 0)");
    assert_eq!(parse_color("TRANSPARENT").map(|c| c.alpha), Some(0));

    for s in ["", "#fff", "#12345g", "#1234567", "red", "rgb(0,0,0)", "000000", "#"] {
        assert_eq!(parse_color(s), None, "{s:?} must not parse");
    }
}

#[test]
fn border_shorthand_yields_width_style_and_colour() {
    let b = parse_border("0.5pt solid #000000").expect("corpus border parses");
    assert_eq!(b.width_px, px(1.0));
    assert_eq!(b.style, BorderStyle::Solid);
    assert_eq!(b.color, Some(Color::from_rgb(0)));
    assert_eq!(css(&b), "1px solid #000000");

    let b = parse_border("1.76pt solid #000000").expect("thicker border parses");
    assert!(near(b.width_px, 2.3467), "{b:?}");
    assert_eq!(css(&b), "2.35px solid #000000");

    // A hairline the display cannot draw still draws, as do an explicit zero
    // and a nonsensical negative.
    assert_eq!(parse_border("0.06pt solid #000000").map(|b| b.width_px), Some(px(1.0)));
    assert_eq!(parse_border("0pt solid #000000").map(|b| b.width_px), Some(px(1.0)));
    assert_eq!(parse_border("-2pt solid #000000").map(|b| b.width_px), Some(px(1.0)));

    // Order-independent.
    let b = parse_border("#ff0000 dashed 2pt").expect("reordered border parses");
    assert_eq!(b.style, BorderStyle::Dashed);
    assert_eq!(b.color, Some(Color::from_rgb(0xff_00_00)));
    assert!(near(b.width_px, 2.6667), "{b:?}");

    // Every CSS style keyword ODF can name survives to the output.
    for k in ["double", "dotted", "dashed", "groove", "ridge", "inset", "outset"] {
        assert_eq!(
            parse_border(&format!("1pt {k} #000000")).map(|b| b.style.css()),
            Some(k)
        );
    }

    // Missing pieces take CSS's own defaults, and a token that is none of the
    // three (`#000` is not an ODF colour) contributes nothing.
    let b = parse_border("solid").expect("style alone parses");
    assert_eq!((b.width_px, b.style, b.color), (px(1.0), BorderStyle::Solid, None));
    assert_eq!(css(&b), "1px solid");
    assert_eq!(parse_border("2pt #000000").map(|b| b.style), Some(BorderStyle::Solid));
    assert_eq!(parse_border("1pt solid #000").map(|b| b.color), Some(None));
}

#[test]
fn border_none_and_garbage_yield_no_border() {
    assert_eq!(parse_border("none"), None);
    assert_eq!(parse_border("hidden"), None);
    // The keyword wins over the leftover width and colour beside it.
    assert_eq!(parse_border("0.5pt none #000000"), None);
    assert_eq!(parse_border(""), None);
    assert_eq!(parse_border("   "), None);
    assert_eq!(parse_border("café naïve"), None);
}
