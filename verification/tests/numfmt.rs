//! Number formats, from a cell's value to what is shown.

use odf_preview::numfmt::dates::{round_unit, Clock, Finest, MAX_SERIAL, OVERFLOW};
use odf_preview::numfmt::digits::{round_half_up, too_long_for_general, trim_zeros};
use odf_preview::numfmt::numbers::{
    max_denominator, sci_exponent, sci_string, Digits, Ratio, MAX_SCALINGS,
};
use odf_preview::numfmt::sections::{FracSpec, Kind, NumSpec, Section, MAX_CODE, MAX_TOKENS};
use odf_preview::numfmt::{Amount, Format, Sign};

/// Significant digits that are kept before a value is rounded for display. 2.675 is
/// really 2.67499999999999982; in this many digits it reads as 2.675 again.
const DISPLAY_SIG: i32 = 15;

/// Decimal places beyond this many are not asked for.
const MAX_PLACES: usize = 17;

fn sign_of(value: f64) -> Sign {
    if value < 0.0 {
        Sign::Negative
    } else if value == 0.0 {
        Sign::Zero
    } else {
        Sign::Positive
    }
}

/// What `format` shows for a cell's value.
fn apply(format: &Format, value: f64) -> String {
    apply_with(format, value, format.date1904())
}

/// What `format` shows for a cell's value, in the date system asked for.
fn apply_with(format: &Format, value: f64, date1904: bool) -> String {
    let sign = sign_of(value);
    let amount = amount_for(format.select(sign), value);
    format.apply_with(sign, &amount, date1904)
}

/// The colour that `format` gives to a cell's value.
fn color(format: &Format, value: f64) -> Option<&'static str> {
    format.color(sign_of(value))
}

/// The value in the form that the section asks for: floating point.
fn amount_for(section: &Section, value: f64) -> Amount {
    match section.kind {
        Kind::General => Amount::General(general(value.abs())),
        Kind::Date => Amount::Date(clock(section, value)),
        Kind::Fraction => Amount::Fraction(ratio(&section.frac, value)),
        Kind::Number => Amount::Number(digits(&section.num, value)),
    }
}

/// The shortest text that reads back as the value, in scientific notation outside the
/// window that General shows: floating point.
fn general(value: f64) -> String {
    if !value.is_finite() {
        return OVERFLOW.to_string();
    }
    if value == 0.0 {
        return "0".to_string();
    }
    let mag = value.abs();
    if mag >= 1e11 || mag < 1e-4 {
        return scientific(value, 5);
    }
    let s = format!("{}", value);
    if too_long_for_general(&s) {
        let places = 10 - mag.log10().floor() as i32;
        return trim_zeros(&format!("{:.*}", places.clamp(0, 15) as usize, value));
    }
    s
}

/// A mantissa of one integer digit and the power of ten: floating point.
fn scientific(value: f64, decimals: usize) -> String {
    let mag = value.abs();
    let mut exp = mag.log10().floor() as i32;
    let mut mant = mag / 10f64.powi(exp);
    // The logarithm of a power of ten can land just below it.
    let round_up = 10.0 - 0.5 * 10f64.powi(-(decimals as i32));
    if mant >= round_up {
        mant /= 10.0;
        exp += 1;
    } else if mant < 1.0 {
        mant *= 10.0;
        exp -= 1;
    }
    sci_string(value < 0.0, &format!("{:.*}", decimals, mant), exp, true, 2)
}

/// The digits of a magnitude on both sides of the point: floating point.
fn split_digits(mag: f64, dec: usize) -> (String, String) {
    let dec = dec.min(MAX_PLACES);
    if !mag.is_finite() {
        return ("0".to_string(), "0".repeat(dec));
    }
    let exp = if mag == 0.0 { 0 } else { mag.log10().floor() as i32 };
    let guard = (DISPLAY_SIG - 1 - exp).clamp(0, 25) as usize;
    round_half_up(&format!("{:.*}", guard, mag), dec)
}

/// A number's magnitude as the section scales it: floating point.
fn digits(spec: &NumSpec, value: f64) -> Option<Digits> {
    if !value.is_finite() {
        return None;
    }
    let mut v = value.abs();
    for _ in 0..spec.percent.min(MAX_SCALINGS) {
        v *= 100.0;
    }
    for _ in 0..spec.scale.min(MAX_SCALINGS) {
        v /= 1000.0;
    }
    let mut exp = 0;
    if spec.sci {
        exp = if v == 0.0 { 0 } else { sci_exponent(spec, v.log10().floor() as i32) };
        v = if v == 0.0 { 0.0 } else { v / 10f64.powi(exp) };
    }
    let (ints, decs) = split_digits(v, spec.dec_places);
    Some(Digits { ints, decs, exp, general: general(value) })
}

/// The best approximation of a value in [0, 1) with a denominator up to `most`:
/// floating point.
fn best_fraction(v: f64, most: u32) -> (u64, u32) {
    let mut best = (0u64, 1u32);
    let mut best_err = f64::INFINITY;
    for d in 1..=most.max(1) {
        let n = (v * d as f64).round();
        let err = (v - n / d as f64).abs();
        if err < best_err - 1e-12 {
            best_err = err;
            best = (n.max(0.0) as u64, d);
            if err == 0.0 {
                break;
            }
        }
    }
    best
}

fn ratio(spec: &FracSpec, value: f64) -> Option<Ratio> {
    if !value.is_finite() {
        return None;
    }
    let mag = value.abs();
    let (whole, rem) = if spec.has_whole { (mag.floor(), mag - mag.floor()) } else { (0.0, mag) };
    let (num, den) = match spec.den_fixed {
        Some(d) => ((rem * d as f64).round().max(0.0) as u64, d),
        None => best_fraction(rem, max_denominator(spec)),
    };
    if den == 0 {
        return None;
    }
    Some(Ratio { whole: whole as u64, num, den })
}

/// A serial date rounded to the finest field that the section shows: floating point.
fn clock(section: &Section, value: f64) -> Option<Clock> {
    if !value.is_finite() || value.abs() > MAX_SERIAL as f64 {
        return None;
    }
    let unit = match round_unit(&section.toks) {
        Finest::SubSecond(n) => 1.0 / (86400.0 * 10f64.powi(n as i32)),
        Finest::Second => 1.0 / 86400.0,
        Finest::Minute => 1.0 / 1440.0,
        Finest::Hour => 1.0 / 24.0,
        Finest::Day => 0.0,
    };
    let serial = value.abs() + unit / 2.0;
    let days = serial.floor();
    let seconds = (serial - days) * 86400.0;
    let whole = seconds.floor();
    let rest = seconds - whole;
    let sub = (1..=9).map(|n| (rest * 10f64.powi(n)).floor().max(0.0) as u64).collect();
    Some(Clock {
        days: days as i64,
        secs: whole as i64,
        sub,
        total: (serial * 86400.0).floor().max(0.0) as u64,
        negative: value < 0.0,
    })
}


fn f(code: &str, v: f64) -> String {
    apply(&Format::parse(code), v)
}

fn f1904(code: &str, v: f64) -> String {
    apply(&Format::parse(code).with_date1904(true), v)
}

// ── serial dates ─────────────────────────────────────────────────────────

#[test]
fn serial_converts_to_the_calendar_date() {
    // 2025-01-01 is serial 45658 (a widely published anchor), so 45678 is 20
    // days later. This is the headline bug: without the format code a date
    // cell renders as this integer.
    assert_eq!(f("yyyy-mm-dd", 45678.0), "2025-01-21");
    assert_eq!(f("yyyy-mm-dd", 45658.0), "2025-01-01");
    assert_eq!(f("yyyy-mm-dd", 1.0), "1900-01-01");
    assert_eq!(f("yyyy-mm-dd", 2.0), "1900-01-02");
    // Time of day is truncated, not rounded, by a date-only format.
    assert_eq!(f("yyyy-mm-dd", 45678.99), "2025-01-21");
}

#[test]
fn nineteen_hundred_leap_year_bug_is_reproduced() {
    // Excel believes 1900-02-29 existed. Serials at or below 59 therefore
    // need a different epoch offset than those from 61 up, and serial 60 is
    // the fictional day itself.
    assert_eq!(f("yyyy-mm-dd", 59.0), "1900-02-28");
    assert_eq!(f("yyyy-mm-dd", 60.0), "1900-02-29");
    assert_eq!(f("yyyy-mm-dd", 61.0), "1900-03-01");
    // Both sides of the discontinuity must still agree with real calendars:
    // 1900-03-01 through 1900-03-31 is 30 days later.
    assert_eq!(f("yyyy-mm-dd", 91.0), "1900-03-31");
}

#[test]
fn date1904_shifts_the_epoch() {
    assert_eq!(f1904("yyyy-mm-dd", 0.0), "1904-01-01");
    // 1904 is a leap year and 1905-07 are not: 366 + 3*365 = 1461 days.
    assert_eq!(f1904("yyyy-mm-dd", 1461.0), "1908-01-01");
    // The 1904 system has no phantom day, so serial 60 is a real date.
    assert_eq!(f1904("yyyy-mm-dd", 60.0), "1904-03-01");
    // The same serial is 1462 days apart between the two systems.
    assert_eq!(f1904("yyyy-mm-dd", 45678.0 - 1462.0), "2025-01-21");
}

#[test]
fn negative_and_absurd_serials_degrade_instead_of_wrapping() {
    assert_eq!(f("yyyy-mm-dd", -1.0), OVERFLOW);
    assert_eq!(f("yyyy-mm-dd", 1e300), OVERFLOW);
    assert_eq!(f("yyyy-mm-dd", f64::NAN), OVERFLOW);
    assert_eq!(f("0.00", f64::INFINITY), OVERFLOW);
}

// ── date/time tokens ─────────────────────────────────────────────────────

#[test]
fn time_of_day_comes_from_the_fraction() {
    assert_eq!(f("h:mm:ss", 0.5), "12:00:00");
    assert_eq!(f("h:mm:ss", 45678.75), "18:00:00");
    assert_eq!(f("hh:mm:ss", 0.25), "06:00:00");
    // 13:45:30 = 13/24 + 45/1440 + 30/86400
    let t = 13.0 / 24.0 + 45.0 / 1440.0 + 30.0 / 86400.0;
    assert_eq!(f("h:mm:ss", t), "13:45:30");
    // Excel rounds to the finest field it prints, so a displayed minute
    // absorbs the 30 seconds rather than truncating them.
    assert_eq!(f("hh:mm", t), "13:46");
}

#[test]
fn twelve_hour_tokens_switch_the_hour_field() {
    let afternoon = 13.0 / 24.0 + 45.0 / 1440.0;
    assert_eq!(f("h:mm AM/PM", afternoon), "1:45 PM");
    assert_eq!(f("h:mm A/P", afternoon), "1:45 P");
    assert_eq!(f("h:mm AM/PM", 1.0 / 24.0), "1:00 AM");
    // Midnight is 12 AM, not 0 AM.
    assert_eq!(f("h:mm AM/PM", 0.0), "12:00 AM");
    assert_eq!(f("h:mm AM/PM", 0.5), "12:00 PM");
    // Without AM/PM the same value stays on the 24-hour clock.
    assert_eq!(f("h:mm", afternoon), "13:45");
}

#[test]
fn month_and_day_name_widths() {
    // 2025-01-21 was a Tuesday.
    assert_eq!(f("dddd", 45678.0), "Tuesday");
    assert_eq!(f("ddd", 45678.0), "Tue");
    assert_eq!(f("mmmm d, yyyy", 45678.0), "January 21, 2025");
    assert_eq!(f("d-mmm-yy", 45678.0), "21-Jan-25");
    assert_eq!(f("mmmmm", 45678.0), "J");
    assert_eq!(f("m/d/yy", 45678.0), "1/21/25");
    assert_eq!(f("dd", 45678.0), "21");
}

#[test]
fn fractional_seconds_and_case_insensitivity() {
    let t = 13.0 / 24.0 + 45.0 / 1440.0 + 30.25 / 86400.0;
    assert_eq!(f("h:mm:ss.0", t), "13:45:30.2");
    assert_eq!(f("h:mm:ss.00", t), "13:45:30.25");
    assert_eq!(f("HH:MM:SS", t), "13:45:30");
    assert_eq!(f("YYYY-MM-DD", 45678.0), "2025-01-21");
}

#[test]
fn seconds_round_and_carry_into_the_date() {
    // 23:59:59.6 with second-precision rounds to the next day's 00:00:00.
    let t = 45678.0 + (23.0 * 3600.0 + 59.0 * 60.0 + 59.6) / 86400.0;
    assert_eq!(f("yyyy-mm-dd h:mm:ss", t), "2025-01-22 0:00:00");
    // Minute precision rounds at the half minute.
    let t2 = 1.0 / 24.0 + 30.6 / 86400.0 * 60.0;
    assert_eq!(f("h:mm", t2), "1:31");
}

#[test]
fn elapsed_tokens_pass_twenty_four_hours() {
    assert_eq!(f("[h]:mm", 1.5), "36:00");
    assert_eq!(f("[h]:mm", 0.5), "12:00");
    assert_eq!(f("[m]", 1.5), "2160");
    assert_eq!(f("[m]:ss", 1.0 / 24.0), "60:00");
    assert_eq!(f("[s]", 1.0 / 24.0), "3600");
    // Elapsed time reads a negative duration as a magnitude rather than
    // refusing it the way a calendar date does.
    assert_eq!(f("[h]:mm", -1.5), "36:00");
}

// ── the m ambiguity ──────────────────────────────────────────────────────

#[test]
fn m_is_minutes_next_to_an_hour_or_second_token() {
    let t = 13.0 / 24.0 + 45.0 / 1440.0 + 30.0 / 86400.0;
    // No seconds field, so the minute rounds; the point of the assertion is
    // that `m` became a minute at all (a month would print 12 or 1).
    assert_eq!(f("h:m", t), "13:46");
    assert_eq!(f("h:mm:ss", t), "13:45:30");
    // Builtin 45 is mm:ss, where the leading mm has no hour before it and
    // must still be minutes because seconds follow.
    assert_eq!(f("mm:ss", t), "45:30");
    // Elapsed hours count as an hour token for the adjacency rule. A single
    // `m` is unpadded, so the zero minute is one digit.
    assert_eq!(f("[h]:m", 1.5), "36:0");
    assert_eq!(f("[h]:mm", 1.5), "36:00");
}

#[test]
fn m_is_months_next_to_date_tokens() {
    assert_eq!(f("m/d", 45678.0), "1/21");
    assert_eq!(f("yyyy-m-d", 45678.0), "2025-1-21");
    assert_eq!(f("mm-dd-yy", 45678.0), "01-21-25");
    // Both meanings in one code: month before the time, minute after it.
    assert_eq!(f("m/d/yy h:mm", 45678.5), "1/21/25 12:00");
    // Three or more m's are always the month name, adjacency regardless.
    assert_eq!(f("h:mmm", 45678.0 + 13.0 / 24.0), "13:Jan");
}

// ── numeric tokens ───────────────────────────────────────────────────────

#[test]
fn thousands_and_decimals() {
    assert_eq!(f("#,##0.00", 1234.5), "1,234.50");
    assert_eq!(f("#,##0.00", 0.0), "0.00");
    assert_eq!(f("#,##0", 1234567.0), "1,234,567");
    assert_eq!(f("0", 42.4), "42");
    assert_eq!(f("0", 42.6), "43");
    assert_eq!(f("0.000", 1.5), "1.500");
    // `#` releases trailing zeros, `0` forces them.
    assert_eq!(f("0.0#", 1.5), "1.5");
    assert_eq!(f("0.0#", 1.56), "1.56");
    assert_eq!(f("#", 0.0), "");
    assert_eq!(f(".00", 0.5), ".50");
    // `?` holds the width with a space.
    assert_eq!(f("0.0?", 1.5), "1.5 ");
    assert_eq!(f("???0", 5.0), "   5");
}

#[test]
fn percent_multiplies_by_a_hundred() {
    assert_eq!(f("0.00%", 0.1234), "12.34%");
    assert_eq!(f("0%", 0.5), "50%");
    assert_eq!(f("0.0%", 1.0), "100.0%");
}

#[test]
fn trailing_comma_scales_by_a_thousand() {
    assert_eq!(f("#,##0,", 1234567.0), "1,235");
    assert_eq!(f("0.0,,", 2_500_000.0), "2.5");
    // A comma between placeholders groups instead of scaling.
    assert_eq!(f("#,##0", 1234.0), "1,234");
}

#[test]
fn scientific_notation() {
    assert_eq!(f("0.00E+00", 12345.0), "1.23E+04");
    assert_eq!(f("0.00E+00", 0.00012), "1.20E-04");
    assert_eq!(f("0.00E-00", 12345.0), "1.23E04");
    // Engineering notation: `##0` asks for up to three mantissa digits, so
    // the exponent steps in threes.
    assert_eq!(f("##0.0E+0", 12345.0), "12.3E+3");
}

#[test]
fn rounding_at_the_decimal_boundary() {
    // Rounds on the decimal representation, the direction Excel displays.
    assert_eq!(f("0.00", 0.005), "0.01");
    assert_eq!(f("0.00", 2.675), "2.68");
    assert_eq!(f("0", 0.5), "1");
    assert_eq!(f("0", 1.5), "2");
    // Rounding that carries into a new integer digit must still group.
    assert_eq!(f("#,##0", 999.5), "1,000");
    assert_eq!(f("#,##0.0", 999.99), "1,000.0");
}

// ── sections ─────────────────────────────────────────────────────────────

#[test]
fn one_section_signs_negatives_itself() {
    assert_eq!(f("0.00", -5.0), "-5.00");
    assert_eq!(f("#,##0", -1234.0), "-1,234");
}

#[test]
fn two_sections_give_the_negative_its_own_rendering() {
    // The negative section formats the absolute value and supplies its own
    // sign, so it can use parentheses instead.
    assert_eq!(f("0.00;(0.00)", -5.0), "(5.00)");
    assert_eq!(f("0.00;(0.00)", 5.0), "5.00");
    // A negative section without a sign shows an unsigned number, which is
    // Excel's behaviour and not a bug here.
    assert_eq!(f("0.00;0.00", -5.0), "5.00");
    assert_eq!(f("0.00;-0.00", -5.0), "-5.00");
}

#[test]
fn four_sections_split_positive_negative_zero_and_text() {
    let fm = Format::parse("#,##0.00;(#,##0.00);\"nil\";\"café \"@");
    assert_eq!(apply(&fm, 1234.5), "1,234.50");
    assert_eq!(apply(&fm, -1234.5), "(1,234.50)");
    assert_eq!(apply(&fm, 0.0), "nil");
    assert_eq!(fm.apply_text("naïve"), "café naïve");
    // Three sections: zero gets its own, text falls through untouched.
    let fm3 = Format::parse("0.00;-0.00;\"zero\"");
    assert_eq!(apply(&fm3, 0.0), "zero");
    assert_eq!(fm3.apply_text("example.org"), "example.org");
}

#[test]
fn an_empty_section_hides_the_value() {
    assert_eq!(f("0.00;", -5.0), "");
    assert_eq!(f("0.00;", 5.0), "5.00");
    assert_eq!(f("0.00;-0.00;", 0.0), "");
    assert_eq!(f("0.00;-0.00;", 1.0), "1.00");
}

// ── literals, escapes, colours ───────────────────────────────────────────

#[test]
fn literals_escapes_and_bracket_prefixes() {
    assert_eq!(f("\"café \"0", 3.0), "café 3");
    // Digits are dealt across placeholders separated by a literal, which
    // is what makes `000-0000` work as a phone-number format.
    assert_eq!(f("0\\-0", 42.0), "4-2");
    assert_eq!(f("000-0000", 5551234.0), "555-1234");
    assert_eq!(f("000-0000", 12.0), "000-0012");
    // Locale and currency brackets are skipped, never printed.
    assert_eq!(f("[$-409]yyyy-mm-dd", 45678.0), "2025-01-21");
    assert_eq!(f("[$€-407]#,##0.00", 1234.5), "1,234.50");
    // `_x` reserves a width (rendered as a space); `*x` fills nothing.
    assert_eq!(f("0_)", 5.0), "5 ");
    assert_eq!(f("*-0", 5.0), "5");
    // An unterminated quote run ends at the code's end instead of panicking.
    assert_eq!(f("\"café", 5.0), "café");
}

#[test]
fn colors_come_from_the_selected_section() {
    let fm = Format::parse("#,##0;[Red]-#,##0");
    assert_eq!(color(&fm, 5.0), None);
    assert_eq!(color(&fm, -5.0), Some("#ff0000"));
    assert_eq!(apply(&fm, -5.0), "-5");
    assert_eq!(color(&Format::parse("[Blue]0"), 1.0), Some("#0000ff"));
    assert_eq!(color(&Format::parse("[Color 3]0"), 1.0), Some("#ff0000"));
    // An unmapped palette index falls back to no colour rather than a wrong
    // one, and the format still renders.
    let fm = Format::parse("[Color 42]0.0");
    assert_eq!(color(&fm, 1.0), None);
    assert_eq!(apply(&fm, 1.25), "1.3");
}

// ── fractions ────────────────────────────────────────────────────────────

#[test]
fn fractions_render_as_fractions() {
    assert_eq!(f("# ?/?", 2.5), "2 1/2");
    assert_eq!(f("# ?/?", 2.25), "2 1/4");
    // `??` right-aligns the numerator, so a one-digit numerator keeps its
    // alignment space.
    assert_eq!(f("# ??/??", 0.3), " 3/10");
    // A zero whole part is dropped when only `#` asks for it.
    assert_eq!(f("# ?/?", 0.75), "3/4");
    assert_eq!(f("0 ?/?", 0.75), "0 3/4");
    // Fixed denominator.
    assert_eq!(f("# ?/16", 2.25), "2 4/16");
    // Negative values keep the sign in a single-section format.
    assert_eq!(f("# ?/?", -2.5), "-2 1/2");
}

// ── General ──────────────────────────────────────────────────────────────

#[test]
fn general_keeps_integers_integral() {
    assert_eq!(f("General", 42.0), "42");
    assert_eq!(f("General", 42.5), "42.5");
    assert_eq!(f("General", 0.0), "0");
    assert_eq!(f("General", -3.25), "-3.25");
    assert_eq!(f("general", 7.0), "7");
    // An unparseable code degrades to General, which must not add a `.0`.
    assert_eq!(f("", 42.0), "42");
    // Outside Excel's display window General switches to scientific.
    assert!(f("General", 1e20).starts_with("1E+"));
    assert!(f("General", 1e-9).starts_with("1E-"));
}

// ── robustness ───────────────────────────────────────────────────────────

#[test]
fn garbage_codes_do_not_panic() {
    let codes = [
        "[[[[",
        "\"\"\"",
        "\\",
        "_",
        "*",
        "///",
        ";;;;;;;;",
        "[Red",
        "[h",
        ".",
        "?/",
        "E+",
        "[$-",
        "0.00;;;;;;0",
        "mmmmmmmmmmmmmmmmmm",
        "yyyyyyyyyy",
        "[hhhhhh]",
        "########################",
        "0,,,,,,,,,,",
        "@@@@",
        "café naïve",
    ];
    for c in codes {
        let fm = Format::parse(c);
        for v in [0.0, 1.0, -1.0, 0.5, 45678.0, 1e15, -1e15, f64::NAN] {
            let _ = apply(&fm, v);
            let _ = color(&fm, v);
        }
        let _ = fm.apply_text("example.org");
        let _ = fm.is_date();
    }
}

#[test]
fn oversized_codes_are_bounded() {
    // Past MAX_CODE the code is not parsed at all.
    let long = "0".repeat(MAX_CODE + 1);
    assert_eq!(apply(&Format::parse(&long), 42.0), "42");
    // Under MAX_CODE but past MAX_TOKENS: parsing stops, rendering still
    // produces something.
    let many = "#".repeat(MAX_TOKENS + 100);
    assert!(many.len() < MAX_CODE);
    assert_eq!(apply(&Format::parse(&many), 42.0), "42");
    // More sections than Excel defines: the extras are ignored.
    let fm = Format::parse("\"a\";\"b\";\"c\";\"d\";\"e\";\"f\"");
    assert_eq!(apply(&fm, 1.0), "a");
    assert_eq!(apply(&fm, -1.0), "b");
    assert_eq!(apply(&fm, 0.0), "c");
    assert_eq!(fm.apply_text("café"), "d");
}

// ── built-ins ────────────────────────────────────────────────────────────

#[test]
fn builtin_ids_cover_the_implicit_table() {
    let general = Format::builtin(0).expect("id 0 exists");
    assert!(!general.is_date());
    assert_eq!(apply(&general, 42.0), "42");
    assert_eq!(apply(&general, 42.5), "42.5");

    let date = Format::builtin(14).expect("id 14 exists");
    assert!(date.is_date());
    assert_eq!(apply(&date, 45678.0), "1/21/2025");

    assert_eq!(apply(&Format::builtin(2).expect("id 2"), 1.5), "1.50");
    assert_eq!(apply(&Format::builtin(4).expect("id 4"), 1234.5), "1,234.50");
    assert_eq!(apply(&Format::builtin(9).expect("id 9"), 0.5), "50%");
    assert_eq!(apply(&Format::builtin(10).expect("id 10"), 0.1234), "12.34%");

    // Every date/time builtin must report itself as one, or the caller
    // renders serial numbers.
    for id in [14u16, 15, 16, 17, 18, 19, 20, 21, 22, 45, 46, 47] {
        let fm = Format::builtin(id).unwrap_or_else(|| panic!("id {} exists", id));
        assert!(fm.is_date(), "builtin {} should be a date/time", id);
    }
    // And no non-date builtin may claim to be one.
    for id in [0u16, 1, 2, 3, 4, 9, 10, 11, 12, 13, 37, 40, 43, 48, 49] {
        let fm = Format::builtin(id).unwrap_or_else(|| panic!("id {} exists", id));
        assert!(!fm.is_date(), "builtin {} should not be a date/time", id);
    }
    // 23-36 are locale-reserved and undefined here; so is anything above 49.
    for id in [23u16, 30, 36, 50, 164, 999] {
        assert!(Format::builtin(id).is_none(), "id {} must be None", id);
    }
}

#[test]
fn builtin_negative_sections_and_colors() {
    // Id 38 is `#,##0_);[Red](#,##0)`: red parentheses for negatives.
    let fm = Format::builtin(38).expect("id 38");
    assert_eq!(color(&fm, -5.0), Some("#ff0000"));
    assert_eq!(color(&fm, 5.0), None);
    assert_eq!(apply(&fm, -1234.0), "(1,234)");
    assert_eq!(apply(&fm, 1234.0), "1,234 ");
    // Id 49 is `@`: text passes through, numbers render as General.
    let text = Format::builtin(49).expect("id 49");
    assert_eq!(text.apply_text("café"), "café");
    assert_eq!(apply(&text, 42.0), "42");
}

#[test]
fn date_system_flag_round_trips() {
    let mut fm = Format::parse("yyyy-mm-dd");
    assert!(!fm.date1904());
    fm.set_date1904(true);
    assert!(fm.date1904());
    assert_eq!(apply(&fm, 0.0), "1904-01-01");
    // The explicit override wins over the stored flag.
    assert_eq!(apply_with(&fm, 1.0, false), "1900-01-01");
}
