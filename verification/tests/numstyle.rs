//! Number styles, from their elements to what they show.

use odf_preview::numfmt::dates::{round_unit, Clock, Finest, MAX_SERIAL, OVERFLOW};
use odf_preview::numfmt::digits::{round_half_up, too_long_for_general, trim_zeros};
use odf_preview::numfmt::numbers::{
    max_denominator, sci_exponent, sci_string, Digits, Ratio, MAX_SCALINGS,
};
use odf_preview::numfmt::sections::{FracSpec, Kind, NumSpec, Section};
use odf_preview::numfmt::{Amount, Format, Sign};
use odf_preview::odf::numstyle::{Numbers, MAX_BODY, MAX_DIGITS};

/// Significant digits that are kept before a value is rounded for display. 2.675 is
/// really 2.67499999999999982; in this many digits it reads as 2.675 again.
const DISPLAY_SIG: i32 = 15;

/// Decimal places beyond this many are not asked for.
const MAX_PLACES: usize = 17;

fn sign_of(value: f64) -> Sign {
    if value < 0.0 {
        Sign::Negative
    } else if value == 0.0 {
        Sign::Zero
    } else {
        Sign::Positive
    }
}

/// What `format` shows for a cell's value.
fn apply(format: &Format, value: f64) -> String {
    apply_with(format, value, format.date1904())
}

/// What `format` shows for a cell's value, in the date system asked for.
fn apply_with(format: &Format, value: f64, date1904: bool) -> String {
    let sign = sign_of(value);
    let amount = amount_for(format.select(sign), value);
    format.apply_with(sign, &amount, date1904)
}

/// The colour that `format` gives to a cell's value.
fn color(format: &Format, value: f64) -> Option<&'static str> {
    format.color(sign_of(value))
}

/// The value in the form that the section asks for: floating point.
fn amount_for(section: &Section, value: f64) -> Amount {
    match section.kind {
        Kind::General => Amount::General(general(value.abs())),
        Kind::Date => Amount::Date(clock(section, value)),
        Kind::Fraction => Amount::Fraction(ratio(&section.frac, value)),
        Kind::Number => Amount::Number(digits(&section.num, value)),
    }
}

/// The shortest text that reads back as the value, in scientific notation outside the
/// window that General shows: floating point.
fn general(value: f64) -> String {
    if !value.is_finite() {
        return OVERFLOW.to_string();
    }
    if value == 0.0 {
        return "0".to_string();
    }
    let mag = value.abs();
    if mag >= 1e11 || mag < 1e-4 {
        return scientific(value, 5);
    }
    let s = format!("{}", value);
    if too_long_for_general(&s) {
        let places = 10 - mag.log10().floor() as i32;
        return trim_zeros(&format!("{:.*}", places.clamp(0, 15) as usize, value));
    }
    s
}

/// A mantissa of one integer digit and the power of ten: floating point.
fn scientific(value: f64, decimals: usize) -> String {
    let mag = value.abs();
    let mut exp = mag.log10().floor() as i32;
    let mut mant = mag / 10f64.powi(exp);
    // The logarithm of a power of ten can land just below it.
    let round_up = 10.0 - 0.5 * 10f64.powi(-(decimals as i32));
    if mant >= round_up {
        mant /= 10.0;
        exp += 1;
    } else if mant < 1.0 {
        mant *= 10.0;
        exp -= 1;
    }
    sci_string(value < 0.0, &format!("{:.*}", decimals, mant), exp, true, 2)
}

/// The digits of a magnitude on both sides of the point: floating point.
fn split_digits(mag: f64, dec: usize) -> (String, String) {
    let dec = dec.min(MAX_PLACES);
    if !mag.is_finite() {
        return ("0".to_string(), "0".repeat(dec));
    }
    let exp = if mag == 0.0 { 0 } else { mag.log10().floor() as i32 };
    let guard = (DISPLAY_SIG - 1 - exp).clamp(0, 25) as usize;
    round_half_up(&format!("{:.*}", guard, mag), dec)
}

/// A number's magnitude as the section scales it: floating point.
fn digits(spec: &NumSpec, value: f64) -> Option<Digits> {
    if !value.is_finite() {
        return None;
    }
    let mut v = value.abs();
    for _ in 0..spec.percent.min(MAX_SCALINGS) {
        v *= 100.0;
    }
    for _ in 0..spec.scale.min(MAX_SCALINGS) {
        v /= 1000.0;
    }
    let mut exp = 0;
    if spec.sci {
        exp = if v == 0.0 { 0 } else { sci_exponent(spec, v.log10().floor() as i32) };
        v = if v == 0.0 { 0.0 } else { v / 10f64.powi(exp) };
    }
    let (ints, decs) = split_digits(v, spec.dec_places);
    Some(Digits { ints, decs, exp, general: general(value) })
}

/// The best approximation of a value in [0, 1) with a denominator up to `most`:
/// floating point.
fn best_fraction(v: f64, most: u32) -> (u64, u32) {
    let mut best = (0u64, 1u32);
    let mut best_err = f64::INFINITY;
    for d in 1..=most.max(1) {
        let n = (v * d as f64).round();
        let err = (v - n / d as f64).abs();
        if err < best_err - 1e-12 {
            best_err = err;
            best = (n.max(0.0) as u64, d);
            if err == 0.0 {
                break;
            }
        }
    }
    best
}

fn ratio(spec: &FracSpec, value: f64) -> Option<Ratio> {
    if !value.is_finite() {
        return None;
    }
    let mag = value.abs();
    let (whole, rem) = if spec.has_whole { (mag.floor(), mag - mag.floor()) } else { (0.0, mag) };
    let (num, den) = match spec.den_fixed {
        Some(d) => ((rem * d as f64).round().max(0.0) as u64, d),
        None => best_fraction(rem, max_denominator(spec)),
    };
    if den == 0 {
        return None;
    }
    Some(Ratio { whole: whole as u64, num, den })
}

/// A serial date rounded to the finest field that the section shows: floating point.
fn clock(section: &Section, value: f64) -> Option<Clock> {
    if !value.is_finite() || value.abs() > MAX_SERIAL as f64 {
        return None;
    }
    let unit = match round_unit(&section.toks) {
        Finest::SubSecond(n) => 1.0 / (86400.0 * 10f64.powi(n as i32)),
        Finest::Second => 1.0 / 86400.0,
        Finest::Minute => 1.0 / 1440.0,
        Finest::Hour => 1.0 / 24.0,
        Finest::Day => 0.0,
    };
    let serial = value.abs() + unit / 2.0;
    let days = serial.floor();
    let seconds = (serial - days) * 86400.0;
    let whole = seconds.floor();
    let rest = seconds - whole;
    let sub = (1..=9).map(|n| (rest * 10f64.powi(n)).floor().max(0.0) as u64).collect();
    Some(Clock {
        days: days as i64,
        secs: whole as i64,
        sub,
        total: (serial * 86400.0).floor().max(0.0) as u64,
        negative: value < 0.0,
    })
}

const NS: &str = " xmlns:office=\"urn:oasis:names:tc:opendocument:xmlns:office:1.0\" \
    xmlns:style=\"urn:oasis:names:tc:opendocument:xmlns:style:1.0\" \
    xmlns:number=\"urn:oasis:names:tc:opendocument:xmlns:datastyle:1.0\" \
    xmlns:fo=\"urn:oasis:names:tc:opendocument:xmlns:xsl-fo-compatible:1.0\"";

fn numbers(body: &str) -> Numbers {
    Numbers::parse(
        None,
        &format!(
            "<office:document-content{NS}><office:automatic-styles>{body}\
             </office:automatic-styles></office:document-content>"
        ),
    )
}

/// `(code, format)` for the one style a fixture defines.
fn one(body: &str) -> (String, Format) {
    let n = numbers(body);
    let code = n.code("N1").expect("style N1 is defined");
    (code, n.format("N1").expect("style N1 is defined"))
}

/// 2025-01-21.
const DAY: f64 = 45678.0;

#[test]
fn an_integer_states_its_minimum_width_and_its_grouping() {
    let (code, f) = one(
        r#"<number:number-style style:name="N1">
             <number:number number:decimal-places="0" number:min-integer-digits="3"
                number:grouping="true"/>
           </number:number-style>"#,
    );
    assert_eq!(code, "#,##000");
    assert_eq!(apply(&f, 42.0), "042");
    assert_eq!(apply(&f, 1234567.0), "1,234,567");
    assert!(!f.is_date());

    // `min-integer-digits="0"` forces no leading digit at all.
    let (code, f) = one(
        r#"<number:number-style style:name="N1">
             <number:number number:decimal-places="2" number:min-integer-digits="0"/>
           </number:number-style>"#,
    );
    assert_eq!(code, "#.00");
    assert_eq!(apply(&f, 0.5), ".50");
}

#[test]
fn decimals_round_and_pad() {
    let (code, f) = one(
        r#"<number:number-style style:name="N1">
             <number:number number:decimal-places="2" number:min-integer-digits="1"/>
           </number:number-style>"#,
    );
    assert_eq!(code, "0.00");
    assert_eq!(apply(&f, 3.14159), "3.14");
    assert_eq!(apply(&f, 0.5), "0.50");
    assert_eq!(apply(&f, -7.0), "-7.00");
}

#[test]
fn a_percentage_scales_by_a_hundred() {
    let (code, f) = one(
        r#"<number:percentage-style style:name="N1">
             <number:number number:decimal-places="1" number:min-integer-digits="1"/>
             <number:text>%</number:text>
           </number:percentage-style>"#,
    );
    // The `%` is the live token, not a quoted literal: ODF stores the value
    // as a fraction and the ×100 rides the sign.
    assert_eq!(code, "0.0%");
    assert_eq!(apply(&f, 0.156), "15.6%");
    assert_eq!(apply(&f, 1.0), "100.0%");

    // A `%` inside a *number* style is a literal and scales nothing.
    let (code, f) = one(
        r#"<number:number-style style:name="N1">
             <number:number number:min-integer-digits="1"/>
             <number:text> %</number:text>
           </number:number-style>"#,
    );
    assert_eq!(code, "0\" %\"");
    assert_eq!(apply(&f, 15.0), "15 %");
}

#[test]
fn a_currency_symbol_goes_where_the_document_puts_it() {
    let (code, f) = one(
        r#"<number:currency-style style:name="N1">
             <number:currency-symbol>€</number:currency-symbol>
             <number:number number:decimal-places="2" number:min-integer-digits="1"
                number:grouping="true"/>
           </number:currency-style>"#,
    );
    assert_eq!(code, "\"€\"#,##0.00");
    assert_eq!(apply(&f, 1234.5), "€1,234.50");

    let (code, f) = one(
        r#"<number:currency-style style:name="N1">
             <number:number number:decimal-places="2" number:min-integer-digits="1"
                number:grouping="true"/>
             <number:text> </number:text>
             <number:currency-symbol>kr</number:currency-symbol>
           </number:currency-style>"#,
    );
    assert_eq!(code, "#,##0.00\" \"\"kr\"");
    assert_eq!(apply(&f, 1234.5), "1,234.50 kr");

    // An empty symbol names a locale glyph this module cannot know.
    let (code, f) = one(
        r#"<number:currency-style style:name="N1">
             <number:currency-symbol number:language="en" number:country="US"/>
             <number:number number:decimal-places="2" number:min-integer-digits="1"/>
           </number:currency-style>"#,
    );
    assert_eq!(code, "0.00");
    assert_eq!(apply(&f, 2.5), "2.50");
}

#[test]
fn long_and_short_dates_render_their_serial() {
    let (code, f) = one(
        r#"<number:date-style style:name="N1">
             <number:year number:style="long"/><number:text>-</number:text>
             <number:month number:style="long"/><number:text>-</number:text>
             <number:day number:style="long"/>
           </number:date-style>"#,
    );
    assert_eq!(code, "yyyy\"-\"mm\"-\"dd");
    assert!(f.is_date());
    assert_eq!(apply(&f, DAY), "2025-01-21");

    let (code, f) = one(
        r#"<number:date-style style:name="N1">
             <number:day number:style="short"/><number:text>.</number:text>
             <number:month number:style="short"/><number:text>.</number:text>
             <number:year number:style="short"/>
           </number:date-style>"#,
    );
    assert_eq!(code, "d\".\"m\".\"yy");
    assert_eq!(apply(&f, DAY), "21.1.25");
}

#[test]
fn a_textual_month_and_a_weekday_name_keep_their_widths() {
    let (code, f) = one(
        r#"<number:date-style style:name="N1">
             <number:day-of-week number:style="long"/><number:text>, </number:text>
             <number:month number:textual="true" number:style="long"/>
             <number:text> </number:text>
             <number:day number:style="short"/>
           </number:date-style>"#,
    );
    assert_eq!(code, "dddd\", \"mmmm\" \"d");
    assert_eq!(apply(&f, DAY), "Tuesday, January 21");

    let (code, f) = one(
        r#"<number:date-style style:name="N1">
             <number:day-of-week number:style="short"/><number:text> </number:text>
             <number:month number:textual="true" number:style="short"/>
           </number:date-style>"#,
    );
    assert_eq!(code, "ddd\" \"mmm");
    assert_eq!(apply(&f, DAY), "Tue Jan");
}

#[test]
fn a_time_with_am_pm_reads_its_minutes_as_minutes() {
    let (code, f) = one(
        r#"<number:time-style style:name="N1">
             <number:hours number:style="short"/><number:text>:</number:text>
             <number:minutes number:style="long"/><number:text> </number:text>
             <number:am-pm/>
           </number:time-style>"#,
    );
    assert_eq!(code, "h\":\"mm\" \"AM/PM");
    // 18:00 as a fraction of a day, and `mm` beside an hour is minutes and
    // not the month of the serial.
    assert_eq!(apply(&f, 0.75), "6:00 PM");
    assert_eq!(apply(&f, 0.0), "12:00 AM");

    // Seconds carry their own fractional run.
    let (code, f) = one(
        r#"<number:time-style style:name="N1">
             <number:minutes number:style="long"/><number:text>:</number:text>
             <number:seconds number:style="long" number:decimal-places="2"/>
           </number:time-style>"#,
    );
    assert_eq!(code, "mm\":\"ss.00");
    assert_eq!(apply(&f, 0.5 + 1.0 / 24.0 / 60.0), "01:00.00");
}

#[test]
fn literal_text_cannot_open_a_section_or_a_bracket() {
    let (code, f) = one(
        r#"<number:number-style style:name="N1">
             <number:number number:min-integer-digits="1"/>
             <number:text> [naïve;"café"] </number:text>
           </number:number-style>"#,
    );
    // The quote is backslash-escaped out of the quoted run and back into it;
    // the `;` and the `[` ride inside it untouched.
    assert_eq!(code, "0\" [naïve;\"\\\"\"café\"\\\"\"] \"");
    // The round trip is the real assertion: one section, and every character
    // of the document's text still in it.
    assert_eq!(apply(&f, 7.0), "7 [naïve;\"café\"] ");
    assert_eq!(apply(&f, -7.0), "-7 [naïve;\"café\"] ");
}

#[test]
fn a_style_map_pair_becomes_the_positive_and_negative_sections() {
    // LibreOffice's own shape: the style a cell names is the negative one,
    // and its `value()>=0` map points at the positive.
    let n = numbers(
        r##"<number:number-style style:name="N1P0" style:volatile="true">
              <number:number number:decimal-places="2" number:min-integer-digits="1"
                 number:grouping="true"/>
            </number:number-style>
            <number:number-style style:name="N1">
              <style:text-properties fo:color="#ff0000"/>
              <number:text>-</number:text>
              <number:number number:decimal-places="2" number:min-integer-digits="1"
                 number:grouping="true"/>
              <style:map style:condition="value()&gt;=0"
                 style:apply-style-name="N1P0"/>
            </number:number-style>"##,
    );
    assert_eq!(
        n.code("N1").as_deref(),
        Some("#,##0.00;[Red]\"-\"#,##0.00")
    );
    let f = n.format("N1").expect("N1");
    assert_eq!(apply(&f, 1234.5), "1,234.50");
    assert_eq!(apply(&f, -1234.5), "-1,234.50");
    assert_eq!(color(&f, -1.0), Some("#ff0000"));
    assert_eq!(color(&f, 1.0), None);

    // A zero map with no negative one still needs Excel's third slot, so the
    // negative section is the positive body behind a minus.
    let n = numbers(
        r#"<number:text-style style:name="N1Z"><number:text>–</number:text>
           </number:text-style>
           <number:number-style style:name="N1">
             <number:number number:min-integer-digits="1"/>
             <number:text> kg</number:text>
             <style:map style:condition="value()=0" style:apply-style-name="N1Z"/>
           </number:number-style>"#,
    );
    // The map's target is a *text* style, which is not a value section: the
    // slot stays unfilled rather than borrowing a section from the wrong
    // family.
    assert_eq!(n.code("N1").as_deref(), Some("0\" kg\""));

    let n = numbers(
        r#"<number:number-style style:name="N1Z"><number:text>–</number:text>
           </number:number-style>
           <number:number-style style:name="N1">
             <number:number number:min-integer-digits="1"/>
             <number:text> kg</number:text>
             <style:map style:condition="value()=0" style:apply-style-name="N1Z"/>
           </number:number-style>"#,
    );
    assert_eq!(n.code("N1").as_deref(), Some("0\" kg\";-0\" kg\";\"–\""));
    let f = n.format("N1").expect("N1");
    assert_eq!(apply(&f, 5.0), "5 kg");
    assert_eq!(apply(&f, -5.0), "-5 kg");
    assert_eq!(apply(&f, 0.0), "–");

    // A condition Excel has no section for is dropped, leaving the base.
    let n = numbers(
        r#"<number:number-style style:name="N1P0">
             <number:number number:min-integer-digits="1"/>
           </number:number-style>
           <number:number-style style:name="N1">
             <number:number number:decimal-places="1" number:min-integer-digits="1"/>
             <style:map style:condition="value()&gt;100" style:apply-style-name="N1P0"/>
           </number:number-style>"#,
    );
    assert_eq!(n.code("N1").as_deref(), Some("0.0"));

    // A map to a style the document never defines does the same.
    let n = numbers(
        r#"<number:number-style style:name="N1">
             <number:number number:min-integer-digits="1"/>
             <style:map style:condition="value()&lt;0" style:apply-style-name="café"/>
           </number:number-style>"#,
    );
    assert_eq!(n.code("N1").as_deref(), Some("0"));
}

#[test]
fn a_boolean_style_spells_true_and_false() {
    let (code, f) = one(
        r#"<number:boolean-style style:name="N1"><number:boolean/>
           </number:boolean-style>"#,
    );
    // Excel has no boolean token, but it does have a zero section, and an ODF
    // boolean is exactly 0 or 1.
    assert_eq!(code, "\"TRUE\";\"TRUE\";\"FALSE\"");
    assert_eq!(apply(&f, 1.0), "TRUE");
    assert_eq!(apply(&f, 0.0), "FALSE");
}

#[test]
fn a_text_style_lands_in_the_only_section_text_reads() {
    let (code, f) = one(
        r#"<number:text-style style:name="N1">
             <number:text>« </number:text><number:text-content/>
             <number:text> »</number:text>
           </number:text-style>"#,
    );
    assert_eq!(code, "General;General;General;\"« \"@\" »\"");
    assert_eq!(f.apply_text("café"), "« café »");
    // Handed a number instead, it renders as an unformatted cell would.
    assert_eq!(apply(&f, 5.0), "5");
}

#[test]
fn scientific_and_fraction_forms_round_trip() {
    let (code, f) = one(
        r#"<number:number-style style:name="N1">
             <number:scientific-number number:decimal-places="2"
                number:min-integer-digits="1" number:min-exponent-digits="2"/>
           </number:number-style>"#,
    );
    assert_eq!(code, "0.00E+00");
    assert_eq!(apply(&f, 12345.0), "1.23E+04");

    let (code, f) = one(
        r#"<number:number-style style:name="N1">
             <number:fraction number:min-integer-digits="1"
                number:min-numerator-digits="1" number:min-denominator-digits="1"/>
           </number:number-style>"#,
    );
    assert_eq!(code, "0 ?/?");
    assert_eq!(apply(&f, 2.5), "2 1/2");

    // A fixed denominator is quoted so a trailing zero stays a literal.
    let (code, f) = one(
        r#"<number:number-style style:name="N1">
             <number:fraction number:min-integer-digits="1"
                number:denominator-value="10"/>
           </number:number-style>"#,
    );
    assert_eq!(code, "0 ?/\"10\"");
    assert_eq!(apply(&f, 2.3), "2 3/10");
}

#[test]
fn constructs_with_no_format_code_contribute_nothing() {
    let (code, f) = one(
        r#"<number:date-style style:name="N1">
             <number:era number:style="long"/><number:quarter/>
             <number:week-of-year/>
             <number:year number:style="long"/>
           </number:date-style>"#,
    );
    assert_eq!(code, "yyyy");
    assert_eq!(apply(&f, DAY), "2025");

    // A colour the eight Excel names do not cover is dropped, not snapped.
    let n = numbers(
        r##"<number:number-style style:name="N1">
              <style:text-properties fo:color="#2f5496"/>
              <number:number number:min-integer-digits="1"/>
            </number:number-style>"##,
    );
    assert_eq!(n.code("N1").as_deref(), Some("0"));
    assert_eq!(color(&n.format("N1").expect("N1"), 1.0), None);
}

#[test]
fn missing_and_empty_styles_degrade_to_none() {
    assert!(numbers("").format("N1").is_none());
    assert!(Numbers::empty().code("N1").is_none());
    assert!(!Numbers::empty().has("N1"));
    // Unparseable parts cost the document its formats and nothing else.
    assert!(Numbers::parse(Some("<office:document-styles>"), "<not xml")
        .code("N1")
        .is_none());
    // An unnamed style is not addressable and is skipped.
    assert!(numbers(r#"<number:number-style><number:number/></number:number-style>"#)
        .code("N1")
        .is_none());
    // An element that is not a number style at all.
    assert!(numbers(r#"<style:style style:name="N1" style:family="text"/>"#)
        .code("N1")
        .is_none());
    // A style with no children is an empty section, which is a defined style
    // that happens to render as General.
    let (code, f) = one(r#"<number:number-style style:name="N1"/>"#);
    assert_eq!(code, "");
    assert_eq!(apply(&f, 5.0), "5");
}

#[test]
fn numstyle_document_controlled_sizes_are_capped() {
    let long = "café ".repeat(200);
    let (code, f) = one(&format!(
        r#"<number:number-style style:name="N1">
             <number:number number:decimal-places="999" number:min-integer-digits="999"/>
             <number:text>{long}</number:text>
           </number:number-style>"#
    ));
    assert!(code.len() <= MAX_BODY, "{} bytes", code.len());
    // Truncation lands on a token boundary: the quoted run is still closed,
    // so the code parses as one section rather than swallowing the rest.
    assert_eq!(code.matches('"').count() % 2, 0, "{code}");
    assert!(apply(&f, 1.0).starts_with(&"0".repeat(MAX_DIGITS as usize - 1)));

    // Four capped sections still fit inside what is read of a code, which
    // is what keeps a long format from silently becoming General.
    let n = numbers(&format!(
        r#"<number:number-style style:name="N1P0">
             <number:number number:min-integer-digits="1"/><number:text>{long}</number:text>
           </number:number-style>
           <number:number-style style:name="N1Z">
             <number:number number:min-integer-digits="1"/><number:text>{long}</number:text>
           </number:number-style>
           <number:number-style style:name="N1">
             <number:number number:min-integer-digits="1"/><number:text>{long}</number:text>
             <style:map style:condition="value()&gt;=0" style:apply-style-name="N1P0"/>
             <style:map style:condition="value()=0" style:apply-style-name="N1Z"/>
           </number:number-style>"#
    ));
    let code = n.code("N1").expect("N1");
    assert!(code.len() <= 512, "{} bytes", code.len());
    assert!(apply(&n.format("N1").expect("N1"), 1.0).starts_with('1'));
}
