//! Spreadsheet number formats: a code is parsed once and applied to many values.
//!
//! A date cell stores a serial number, and only its format code says that it is a
//! date. Codes come from documents and are not to be relied on, so an over-long or
//! unreadable one means General, and every scan is bounded.
//!
//! The library decides what is shown from whole numbers and digit strings. Whoever
//! holds a floating-point value first asks which section it selects, then brings the
//! value into the form that the section's kind asks for.

pub mod calendar;
pub mod dates;
pub mod digits;
pub mod laws;
pub mod numbers;
pub mod reading;
pub mod sections;
pub mod tokens;

use vstd::prelude::*;
use crate::chars::{chars_of, push_all, push_text, string_of};
use crate::numfmt::dates::{render_date, shown_date, Clock};
use crate::numfmt::numbers::{
    minus, render_fraction, render_number, shown_fraction, shown_number, Digits, Ratio,
};
use crate::numfmt::sections::{
    parse_sections, sections_of, views, Kind, Section, SectionView, MAX_SECTIONS,
};
use crate::numfmt::tokens::{tokens, Tok, Token};

verus! {

/// Which side of zero a value is on. What is no number at all counts as positive.
#[derive(Clone, Copy, PartialEq, Eq, Debug, Structural)]
pub enum Sign {
    Negative,
    Zero,
    Positive,
}

/// A value in the form that a section's kind asks for. `None` stands for a value that
/// is no finite number, or a serial out of range.
#[derive(Debug)]
pub enum Amount {
    /// The magnitude as General shows it.
    General(String),
    Date(Option<Clock>),
    Fraction(Option<Ratio>),
    Number(Option<Digits>),
}

impl Amount {
    /// Whether this is the form that the kind asks for.
    pub open spec fn fits(&self, kind: Kind) -> bool {
        match *self {
            Amount::General(_) => kind == Kind::General,
            Amount::Date(c) => kind == Kind::Date && (c matches Some(c) ==> c.ok()),
            Amount::Fraction(r) => kind == Kind::Fraction && (r matches Some(r) ==> r.den > 0),
            Amount::Number(_) => kind == Kind::Number,
        }
    }
}

/// The section that a value of this sign selects, of `n`: one covers everything; of two
/// the second is for negative values; three or more have the third for zero.
pub open spec fn selected(n: nat, sign: Sign) -> int {
    if n >= 2 && sign == Sign::Negative {
        1
    } else if n >= 3 && sign == Sign::Zero {
        2
    } else {
        0
    }
}

/// What a section shows. Only a format's single section writes the sign itself.
pub open spec fn shown(
    sections: Seq<SectionView>,
    sign: Sign,
    amount: Amount,
    date1904: bool,
) -> Seq<char> {
    let sec = sections[selected(sections.len(), sign)];
    let negative = sign == Sign::Negative;
    let force = sections.len() == 1 && negative;
    if sec.hides() {
        Seq::empty()
    } else {
        match amount {
            Amount::General(s) => minus(negative) + s@,
            Amount::Date(c) => shown_date(sec, c, date1904),
            Amount::Fraction(r) => shown_fraction(sec, r, force),
            Amount::Number(d) => shown_number(sec, d, force),
        }
    }
}

/// What the tokens of a text section show of a cell's text.
pub open spec fn text_piece(t: Token, s: Seq<char>) -> Seq<char> {
    match t {
        Tok::Lit(l) => l,
        Tok::Skip => seq![' '],
        Tok::At => s,
        _ => Seq::empty(),
    }
}

pub open spec fn text_pieces(toks: Seq<Token>, s: Seq<char>) -> Seq<char>
    decreases toks.len(),
{
    if toks.len() == 0 {
        Seq::empty()
    } else {
        text_pieces(toks.drop_last(), s) + text_piece(toks.last(), s)
    }
}

pub open spec fn places_text(toks: Seq<Token>) -> bool {
    exists|k: int| 0 <= k < toks.len() && (#[trigger] toks[k]) is At
}

/// What a format shows of a cell's text: only the fourth section applies to text.
pub open spec fn shown_text(sections: Seq<SectionView>, s: Seq<char>) -> Seq<char> {
    if sections.len() < 4 || sections[3].kind == Kind::General {
        s
    } else {
        let out = text_pieces(sections[3].toks, s);
        if !places_text(sections[3].toks) && out.len() == 0 {
            s
        } else {
            out
        }
    }
}

/// A parsed number format.
#[derive(Debug)]
pub struct Format {
    sections: Vec<Section>,
    date1904: bool,
}

impl Format {
    #[verifier::type_invariant]
    spec fn inv(&self) -> bool {
        &&& 1 <= self.sections@.len() <= MAX_SECTIONS
        &&& forall|k: int| 0 <= k < self.sections@.len() ==> (#[trigger] self.sections@[k]).ok()
    }

    pub closed spec fn sections(&self) -> Seq<SectionView> {
        views(self.sections@)
    }

    pub closed spec fn epoch_1904(&self) -> bool {
        self.date1904
    }

    /// The section that a value of this sign selects.
    pub open spec fn section(&self, sign: Sign) -> SectionView {
        self.sections()[selected(self.sections().len(), sign)]
    }

    /// Parses a code such as `#,##0.00`, `yyyy-mm-dd` or `pos;neg;zero;text`. Never
    /// fails: what cannot be read means General.
    pub fn parse(code: &str) -> (f: Format)
        ensures
            f.sections() == sections_of(code@),
            1 <= f.sections().len() <= MAX_SECTIONS,
            !f.epoch_1904(),
    {
        let sections: Vec<Section> = parse_sections(code);
        Format { sections, date1904: false }
    }

    /// The built-in format with this number; `None` for a number without one.
    pub fn builtin(id: u16) -> (r: Option<Format>)
        ensures
            r is Some == builtin_text(id) is Some,
            r matches Some(f) ==> f.sections() == sections_of(builtin_text(id)->0)
                && !f.epoch_1904(),
    {
        match builtin_code(id) {
            Some(code) => Some(Format::parse(code)),
            None => None,
        }
    }

    /// The same format, in the 1904 date system or not.
    pub fn with_date1904(self, on: bool) -> (f: Format)
        ensures
            f.sections() == self.sections(),
            f.epoch_1904() == on,
    {
        let mut f = self;
        f.set_date1904(on);
        f
    }

    pub fn set_date1904(&mut self, on: bool)
        ensures
            final(self).sections() == old(self).sections(),
            final(self).epoch_1904() == on,
    {
        proof {
            use_type_invariant(&*self);
        }
        self.date1904 = on;
    }

    pub fn date1904(&self) -> (on: bool)
        ensures
            on == self.epoch_1904(),
    {
        self.date1904
    }

    /// Whether the format shows a date or a time.
    pub fn is_date(&self) -> (r: bool)
        ensures
            r == (self.sections()[0].kind == Kind::Date),
    {
        proof {
            use_type_invariant(&*self);
        }
        assert(self.sections()[0] == self.sections@[0]@);
        self.sections[0].kind == Kind::Date
    }

    /// The section that a value of this sign selects.
    pub fn select(&self, sign: Sign) -> (s: &Section)
        ensures
            s@ == self.section(sign),
            s.ok(),
    {
        proof {
            use_type_invariant(&*self);
        }
        let n: usize = self.sections.len();
        let idx: usize = if n >= 2 && sign == Sign::Negative {
            1
        } else if n >= 3 && sign == Sign::Zero {
            2
        } else {
            0
        };
        assert(self.sections()[idx as int] == self.sections@[idx as int]@);
        &self.sections[idx]
    }

    /// The colour of the section that a value of this sign selects, in CSS.
    pub fn color(&self, sign: Sign) -> (r: Option<&'static str>)
        ensures
            r is Some == self.section(sign).color is Some,
            r matches Some(s) ==> s@ == self.section(sign).color->0.css_text(),
    {
        match self.select(sign).color {
            Some(ink) => Some(ink.css()),
            None => None,
        }
    }

    /// What the format shows for a value, in its own date system.
    pub fn apply(&self, sign: Sign, amount: &Amount) -> (r: String)
        requires
            self.section(sign).hides() || amount.fits(self.section(sign).kind),
        ensures
            r@ == shown(self.sections(), sign, *amount, self.epoch_1904()),
    {
        self.apply_with(sign, amount, self.date1904)
    }

    /// What the format shows for a value, in the date system asked for.
    pub fn apply_with(&self, sign: Sign, amount: &Amount, date1904: bool) -> (r: String)
        requires
            self.section(sign).hides() || amount.fits(self.section(sign).kind),
        ensures
            r@ == shown(self.sections(), sign, *amount, date1904),
    {
        let sec: &Section = self.select(sign);
        if sec.is_empty() {
            return String::new();
        }
        assert(self.sections().len() == self.sections@.len());
        let negative = sign == Sign::Negative;
        let force = self.sections.len() == 1 && negative;
        match amount {
            Amount::General(s) => {
                let mut out: Vec<char> = Vec::new();
                if negative {
                    out.push('-');
                }
                push_text(&mut out, s.as_str());
                assert(out@ =~= minus(negative) + s@);
                string_of(&out)
            },
            Amount::Date(c) => render_date(sec, c, date1904),
            Amount::Fraction(r) => render_fraction(sec, r, force),
            Amount::Number(d) => render_number(sec, d, force),
        }
    }

    /// What the format shows for a text cell. Without a fourth section the text is
    /// shown as it is; a fourth section of literals alone replaces it.
    pub fn apply_text(&self, s: &str) -> (r: String)
        ensures
            r@ == shown_text(self.sections(), s@),
    {
        proof {
            use_type_invariant(&*self);
        }
        assert(self.sections().len() == self.sections@.len());
        if self.sections.len() < 4 {
            return String::from_str(s);
        }
        let sec: &Section = &self.sections[3];
        assert(self.sections()[3] == sec@);
        if sec.kind == Kind::General {
            return String::from_str(s);
        }
        let text: Vec<char> = chars_of(s);
        let mut out: Vec<char> = Vec::new();
        let mut placed: bool = false;
        let ghost ts = tokens(sec.toks@);
        assert(ts.take(0) =~= Seq::<Token>::empty());
        for i in 0..sec.toks.len()
            invariant
                ts == tokens(sec.toks@),
                text@ == s@,
                out@ == text_pieces(ts.take(i as int), s@),
                placed == exists|k: int| 0 <= k < i && (#[trigger] ts[k]) is At,
        {
            let ghost before = out@;
            assert(ts.take(i + 1).drop_last() =~= ts.take(i as int));
            assert(ts.take(i + 1).last() == sec.toks@[i as int]@);
            assert(ts[i as int] == sec.toks@[i as int]@);
            match &sec.toks[i] {
                Tok::Lit(l) => push_all(&mut out, l),
                Tok::Skip => out.push(' '),
                Tok::At => {
                    push_all(&mut out, &text);
                    placed = true;
                },
                _ => {},
            }
            assert(out@ =~= before + text_piece(ts[i as int], s@));
        }
        assert(ts.take(ts.len() as int) =~= ts);
        if !placed && out.len() == 0 {
            return String::from_str(s);
        }
        string_of(&out)
    }
}

/// The code of the built-in format with this number.
pub open spec fn builtin_text(id: u16) -> Option<Seq<char>> {
    if id == 0 {
        Some("General"@)
    } else if id == 1 {
        Some("0"@)
    } else if id == 2 {
        Some("0.00"@)
    } else if id == 3 {
        Some("#,##0"@)
    } else if id == 4 {
        Some("#,##0.00"@)
    } else if id == 5 {
        Some("$#,##0_);($#,##0)"@)
    } else if id == 6 {
        Some("$#,##0_);[Red]($#,##0)"@)
    } else if id == 7 {
        Some("$#,##0.00_);($#,##0.00)"@)
    } else if id == 8 {
        Some("$#,##0.00_);[Red]($#,##0.00)"@)
    } else if id == 9 {
        Some("0%"@)
    } else if id == 10 {
        Some("0.00%"@)
    } else if id == 11 {
        Some("0.00E+00"@)
    } else if id == 12 {
        Some("# ?/?"@)
    } else if id == 13 {
        Some("# ??/??"@)
    } else if id == 14 {
        Some("m/d/yyyy"@)
    } else if id == 15 {
        Some("d-mmm-yy"@)
    } else if id == 16 {
        Some("d-mmm"@)
    } else if id == 17 {
        Some("mmm-yy"@)
    } else if id == 18 {
        Some("h:mm AM/PM"@)
    } else if id == 19 {
        Some("h:mm:ss AM/PM"@)
    } else if id == 20 {
        Some("h:mm"@)
    } else if id == 21 {
        Some("h:mm:ss"@)
    } else if id == 22 {
        Some("m/d/yy h:mm"@)
    } else if id == 37 {
        Some("#,##0_);(#,##0)"@)
    } else if id == 38 {
        Some("#,##0_);[Red](#,##0)"@)
    } else if id == 39 {
        Some("#,##0.00_);(#,##0.00)"@)
    } else if id == 40 {
        Some("#,##0.00_);[Red](#,##0.00)"@)
    } else if id == 41 {
        Some("_(* #,##0_);_(* (#,##0);_(* \"-\"_);_(@_)"@)
    } else if id == 42 {
        Some("_(\"$\"* #,##0_);_(\"$\"* (#,##0);_(\"$\"* \"-\"_);_(@_)"@)
    } else if id == 43 {
        Some("_(* #,##0.00_);_(* (#,##0.00);_(* \"-\"??_);_(@_)"@)
    } else if id == 44 {
        Some("_(\"$\"* #,##0.00_);_(\"$\"* (#,##0.00);_(\"$\"* \"-\"??_);_(@_)"@)
    } else if id == 45 {
        Some("mm:ss"@)
    } else if id == 46 {
        Some("[h]:mm:ss"@)
    } else if id == 47 {
        Some("mm:ss.0"@)
    } else if id == 48 {
        Some("##0.0E+0"@)
    } else if id == 49 {
        Some("@"@)
    } else {
        None
    }
}

/// The built-in codes. The numbers from 23 to 36 are kept for locales and have none.
fn builtin_code(id: u16) -> (r: Option<&'static str>)
    ensures
        r is Some == builtin_text(id) is Some,
        r matches Some(s) ==> s@ == builtin_text(id)->0,
{
    match id {
        0 => Some("General"),
        1 => Some("0"),
        2 => Some("0.00"),
        3 => Some("#,##0"),
        4 => Some("#,##0.00"),
        5 => Some("$#,##0_);($#,##0)"),
        6 => Some("$#,##0_);[Red]($#,##0)"),
        7 => Some("$#,##0.00_);($#,##0.00)"),
        8 => Some("$#,##0.00_);[Red]($#,##0.00)"),
        9 => Some("0%"),
        10 => Some("0.00%"),
        11 => Some("0.00E+00"),
        12 => Some("# ?/?"),
        13 => Some("# ??/??"),
        14 => Some("m/d/yyyy"),
        15 => Some("d-mmm-yy"),
        16 => Some("d-mmm"),
        17 => Some("mmm-yy"),
        18 => Some("h:mm AM/PM"),
        19 => Some("h:mm:ss AM/PM"),
        20 => Some("h:mm"),
        21 => Some("h:mm:ss"),
        22 => Some("m/d/yy h:mm"),
        37 => Some("#,##0_);(#,##0)"),
        38 => Some("#,##0_);[Red](#,##0)"),
        39 => Some("#,##0.00_);(#,##0.00)"),
        40 => Some("#,##0.00_);[Red](#,##0.00)"),
        41 => Some("_(* #,##0_);_(* (#,##0);_(* \"-\"_);_(@_)"),
        42 => Some("_(\"$\"* #,##0_);_(\"$\"* (#,##0);_(\"$\"* \"-\"_);_(@_)"),
        43 => Some("_(* #,##0.00_);_(* (#,##0.00);_(* \"-\"??_);_(@_)"),
        44 => Some("_(\"$\"* #,##0.00_);_(\"$\"* (#,##0.00);_(\"$\"* \"-\"??_);_(@_)"),
        45 => Some("mm:ss"),
        46 => Some("[h]:mm:ss"),
        47 => Some("mm:ss.0"),
        48 => Some("##0.0E+0"),
        49 => Some("@"),
        _ => None,
    }
}

/// Text passes through a format that has no section for it, and a section that hides
/// shows nothing of any value.
pub proof fn law_text_passes_and_hidden_values_do_not(
    sections: Seq<SectionView>,
    s: Seq<char>,
    sign: Sign,
    amount: Amount,
    date1904: bool,
)
    requires
        sections.len() > 0,
    ensures
        sections.len() < 4 ==> shown_text(sections, s) == s,
        sections[selected(sections.len(), sign)].hides() ==> shown(
            sections,
            sign,
            amount,
            date1904,
        ) == Seq::<char>::empty(),
{
}

} // verus!
