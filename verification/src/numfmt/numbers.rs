//! Plain numbers, scientific notation and fractions as a section shows them.

use vstd::prelude::*;
use crate::chars::{chars_of, decimal, push_all, push_text, push_u64, slice_of, string_of, text_is};
use crate::numfmt::dates::OVERFLOW;
use crate::numfmt::digits::{
    cut_zeros, group_thousands, grouped, pad_left, padded_left, padded_right, push_repeated,
    repeated, trim_zeros, without_trailing_zeros, zeros_cut,
};
use crate::numfmt::sections::{FracSpec, NumSpec, Section, SectionView};
use crate::numfmt::tokens::{tokens, Tok, TokVec, Token};

verus! {

/// Percent signs and trailing commas beyond this many no longer scale a value.
pub const MAX_SCALINGS: u32 = 8;

/// A number's magnitude as decimal digits.
#[derive(Debug)]
pub struct Digits {
    /// The digits before the point.
    pub ints: String,
    /// The digits after the point.
    pub decs: String,
    /// The power of ten, in scientific notation.
    pub exp: i32,
    /// The whole value as General shows it, sign and all.
    pub general: String,
}

// ── exponents ────────────────────────────────────────────────────────────────

/// How many integer digits a scientific section gives its mantissa.
pub open spec fn mantissa_width(spec: NumSpec) -> int {
    if spec.int_all < 1 {
        1
    } else if spec.int_all > 9 {
        9
    } else {
        spec.int_all as int
    }
}

/// The exponent that a scientific section shows for a value whose first digit has
/// the weight ten to the power `raw`: the nearest multiple of the mantissa's width
/// from below.
pub fn sci_exponent(spec: &NumSpec, raw: i32) -> (r: i32)
    requires
        raw >= i32::MIN + 9,
    ensures
        r == raw - raw as int % mantissa_width(*spec),
        r as int % mantissa_width(*spec) == 0,
        r <= raw < r + mantissa_width(*spec),
{
    let width: i32 = if spec.int_all < 1 {
        1
    } else if spec.int_all > 9 {
        9
    } else {
        spec.int_all as i32
    };
    let over: i32 = match raw.checked_rem_euclid(width) {
        Some(v) => v,
        None => 0,
    };
    proof {
        let w = width as int;
        let x = raw as int;
        assert((x - x % w) % w == 0) by {
            vstd::arithmetic::div_mod::lemma_fundamental_div_mod(x, w);
            assert(x - x % w == w * (x / w));
            vstd::arithmetic::div_mod::lemma_mod_multiples_basic(x / w, w);
            assert(w * (x / w) == (x / w) * w) by (nonlinear_arith);
        }
    }
    raw - over
}

pub open spec fn magnitude(e: int) -> nat {
    if e < 0 {
        (-e) as nat
    } else {
        e as nat
    }
}

/// An exponent: a minus sign, or a plus sign where one is asked for, then the digits
/// with zeros before them up to the width.
pub open spec fn exponent_text(exp: int, plus: bool, width: nat) -> Seq<char> {
    let sign = if exp < 0 {
        seq!['-']
    } else if plus {
        seq!['+']
    } else {
        Seq::empty()
    };
    sign + padded_left(decimal(magnitude(exp)), '0', width)
}

fn push_exponent(out: &mut Vec<char>, exp: i32, plus: bool, width: usize)
    ensures
        final(out)@ == old(out)@ + exponent_text(exp as int, plus, width as nat),
{
    let ghost before = out@;
    if exp < 0 {
        out.push('-');
    } else if plus {
        out.push('+');
    }
    let mag: u64 = if exp < 0 {
        (-(exp as i64)) as u64
    } else {
        exp as u64
    };
    let mut digits: Vec<char> = Vec::new();
    push_u64(&mut digits, mag);
    assert(digits@ =~= decimal(magnitude(exp as int)));
    push_all(out, &pad_left(&digits, '0', width));
    assert(out@ =~= before + exponent_text(exp as int, plus, width as nat));
}

/// Scientific notation as General uses it: the mantissa without trailing zeros, and
/// a signed exponent of at least `width` digits.
pub fn sci_string(negative: bool, mantissa: &str, exp: i32, plus: bool, width: usize) -> (r: String)
    ensures
        r@ == (if negative {
            seq!['-']
        } else {
            Seq::empty()
        }) + without_trailing_zeros(mantissa@) + seq!['E'] + exponent_text(
            exp as int,
            plus,
            width as nat,
        ),
{
    let mut out: Vec<char> = Vec::new();
    if negative {
        out.push('-');
    }
    push_text(&mut out, trim_zeros(mantissa).as_str());
    out.push('E');
    push_exponent(&mut out, exp, plus, width);
    string_of(&out)
}

// ── the two sides of the point ───────────────────────────────────────────────

/// The integer side as a section shows it. A zero vanishes unless a `0` placeholder
/// asks for it.
pub open spec fn int_side(spec: NumSpec, int_digits: Seq<char>) -> Seq<char> {
    let kept = if int_digits == "0"@ && spec.int_zeros == 0 {
        Seq::empty()
    } else {
        int_digits
    };
    let full = padded_left(kept, '0', spec.int_zeros as nat);
    let parted = if spec.thousands && full.len() > 0 {
        grouped(full)
    } else {
        full
    };
    padded_left(parted, ' ', spec.int_pad as nat)
}

/// The decimal side as a section shows it: `#` lets trailing zeros go, `?` puts
/// spaces in their place.
pub open spec fn dec_side(spec: NumSpec, dec_digits: Seq<char>) -> Seq<char> {
    padded_right(zeros_cut(dec_digits, spec.dec_zeros as nat), ' ', spec.dec_pad as nat)
}

fn int_text(spec: &NumSpec, ints: &str) -> (r: Vec<char>)
    ensures
        r@ == int_side(*spec, ints@),
{
    let mut kept: Vec<char> = chars_of(ints);
    if text_is(&kept, "0") && spec.int_zeros == 0 {
        kept = Vec::new();
        assert(kept@ =~= Seq::<char>::empty());
    }
    let mut full: Vec<char> = pad_left(&kept, '0', spec.int_zeros);
    if spec.thousands && full.len() > 0 {
        full = group_thousands(&full);
    }
    pad_left(&full, ' ', spec.int_pad)
}

fn dec_text(spec: &NumSpec, dec: &str) -> (r: Vec<char>)
    ensures
        r@ == dec_side(*spec, dec@),
{
    let mut r: Vec<char> = cut_zeros(&chars_of(dec), spec.dec_zeros);
    let n: usize = if r.len() < spec.dec_pad {
        spec.dec_pad - r.len()
    } else {
        0
    };
    let ghost before = r@;
    push_repeated(&mut r, ' ', n);
    assert(r@ =~= padded_right(before, ' ', spec.dec_pad as nat));
    r
}

// ── dealing digits to placeholders ───────────────────────────────────────────

/// What has been written, and how far each side's digits have been dealt.
#[verifier::ext_equal]
pub struct Deal {
    pub out: Seq<char>,
    pub int_slot: nat,
    pub int_pos: nat,
    pub dec_slot: nat,
    pub dec_pos: nat,
    pub past_dot: bool,
    pub exp_done: bool,
}

/// The texts that a number section is filled from.
#[verifier::ext_equal]
pub struct Fill {
    pub spec: NumSpec,
    pub ints: Seq<char>,
    pub decs: Seq<char>,
    pub exponent: Seq<char>,
    pub general: Seq<char>,
}

/// How many integer characters the placeholder with the index `slot` takes: the first
/// takes all that the others leave no room for.
pub open spec fn int_share(len: int, int_all: int, slot: int) -> int {
    if slot == 0 {
        let rest = if int_all > 0 {
            int_all - 1
        } else {
            0
        };
        if len > rest {
            len - rest
        } else {
            0
        }
    } else {
        1
    }
}

pub open spec fn least(a: int, b: int) -> int {
    if a < b {
        a
    } else {
        b
    }
}

/// Writes one token.
pub open spec fn deal_token(t: Token, d: Deal, f: Fill) -> Deal {
    match t {
        Tok::Lit(l) => Deal { out: d.out + l, ..d },
        Tok::Skip => Deal { out: d.out.push(' '), ..d },
        Tok::Slash => Deal { out: d.out.push('/'), ..d },
        Tok::Percent => Deal { out: d.out.push('%'), ..d },
        Tok::At => Deal { out: d.out + f.general, ..d },
        Tok::Comma => if f.spec.has_digits {
            d
        } else {
            Deal { out: d.out.push(','), ..d }
        },
        Tok::Digit(_) => if d.past_dot {
            let len = f.decs.len() as int;
            let end = if d.dec_slot + 1 >= f.spec.dec_places {
                len
            } else {
                least(d.dec_pos as int + 1, len)
            };
            Deal {
                out: d.out + f.decs.subrange(d.dec_pos as int, end),
                dec_pos: end as nat,
                dec_slot: d.dec_slot + 1,
                ..d
            }
        } else {
            let len = f.ints.len() as int;
            let end = least(
                d.int_pos + int_share(len, f.spec.int_all as int, d.int_slot as int),
                len,
            );
            Deal {
                out: d.out + f.ints.subrange(d.int_pos as int, end),
                int_pos: end as nat,
                int_slot: d.int_slot + 1,
                ..d
            }
        },
        Tok::Dot => {
            let e = if d.int_slot == 0 {
                Deal { out: d.out + f.ints, int_pos: f.ints.len(), ..d }
            } else {
                d
            };
            Deal {
                out: if f.decs.len() > 0 {
                    e.out.push('.')
                } else {
                    e.out
                },
                past_dot: true,
                ..e
            }
        },
        Tok::Exp(_) => {
            let e = if d.int_slot == 0 {
                Deal { out: d.out + f.ints, int_pos: f.ints.len(), ..d }
            } else {
                d
            };
            if e.exp_done {
                e
            } else {
                Deal { out: e.out.push('E') + f.exponent, exp_done: true, ..e }
            }
        },
        _ => d,
    }
}

pub open spec fn deal_start(force_sign: bool) -> Deal {
    Deal {
        out: if force_sign {
            seq!['-']
        } else {
            Seq::empty()
        },
        int_slot: 0,
        int_pos: 0,
        dec_slot: 0,
        dec_pos: 0,
        past_dot: false,
        exp_done: false,
    }
}

/// Writes the tokens one after the other.
pub open spec fn deal(toks: Seq<Token>, f: Fill, force_sign: bool) -> Deal
    decreases toks.len(),
{
    if toks.len() == 0 {
        deal_start(force_sign)
    } else {
        deal_token(toks.last(), deal(toks.drop_last(), f, force_sign), f)
    }
}

/// What a number section fills in for a value.
pub open spec fn fill_of(spec: NumSpec, d: Digits) -> Fill {
    Fill {
        spec,
        ints: int_side(spec, d.ints@),
        decs: dec_side(spec, d.decs@),
        exponent: if spec.sci {
            exponent_text(d.exp as int, spec.exp_plus, spec.exp_places as nat)
        } else {
            Seq::empty()
        },
        general: d.general@,
    }
}

/// What a number section shows for a value; an overflow mark for what is no number.
pub open spec fn shown_number(sec: SectionView, digits: Option<Digits>, force_sign: bool) -> Seq<
    char,
> {
    match digits {
        None => OVERFLOW@,
        Some(d) => {
            let f = fill_of(sec.num, d);
            let done = deal(sec.toks, f, force_sign);
            if done.int_pos == 0 && done.dec_pos == 0 && sec.num.has_digits {
                done.out + f.ints
            } else {
                done.out
            }
        },
    }
}

/// `Deal` as code holds it.
struct Dealer {
    out: Vec<char>,
    int_slot: usize,
    int_pos: usize,
    dec_slot: usize,
    dec_pos: usize,
    past_dot: bool,
    exp_done: bool,
}

impl Dealer {
    spec fn deal(&self) -> Deal {
        Deal {
            out: self.out@,
            int_slot: self.int_slot as nat,
            int_pos: self.int_pos as nat,
            dec_slot: self.dec_slot as nat,
            dec_pos: self.dec_pos as nat,
            past_dot: self.past_dot,
            exp_done: self.exp_done,
        }
    }

    fn token(&mut self, t: &TokVec, w: &Filler)
        requires
            old(self).int_pos <= w.ints@.len(),
            old(self).dec_pos <= w.decs@.len(),
            old(self).int_slot < usize::MAX,
            old(self).dec_slot < usize::MAX,
        ensures
            final(self).deal() == deal_token(t@, old(self).deal(), w.fill()),
            final(self).int_pos <= w.ints@.len(),
            final(self).dec_pos <= w.decs@.len(),
            final(self).int_slot <= old(self).int_slot + 1,
            final(self).dec_slot <= old(self).dec_slot + 1,
    {
        let ghost before = self.deal();
        match t {
            Tok::Lit(l) => push_all(&mut self.out, l),
            Tok::Skip => self.out.push(' '),
            Tok::Slash => self.out.push('/'),
            Tok::Percent => self.out.push('%'),
            Tok::At => push_all(&mut self.out, &w.general),
            Tok::Comma => {
                if !w.spec.has_digits {
                    self.out.push(',');
                }
            },
            Tok::Digit(_) => {
                if self.past_dot {
                    let len: usize = w.decs.len();
                    let end: usize = if self.dec_slot + 1 >= w.spec.dec_places {
                        len
                    } else if self.dec_pos < len {
                        self.dec_pos + 1
                    } else {
                        len
                    };
                    push_all(&mut self.out, &slice_of(&w.decs, self.dec_pos, end));
                    self.dec_pos = end;
                    self.dec_slot = self.dec_slot + 1;
                } else {
                    let len: usize = w.ints.len();
                    let left: usize = len - self.int_pos;
                    let share: usize = if self.int_slot == 0 {
                        let rest: usize = if w.spec.int_all > 0 {
                            w.spec.int_all - 1
                        } else {
                            0
                        };
                        if len > rest {
                            len - rest
                        } else {
                            0
                        }
                    } else {
                        1
                    };
                    let end: usize = if share < left {
                        self.int_pos + share
                    } else {
                        len
                    };
                    push_all(&mut self.out, &slice_of(&w.ints, self.int_pos, end));
                    self.int_pos = end;
                    self.int_slot = self.int_slot + 1;
                }
            },
            Tok::Dot => {
                if self.int_slot == 0 {
                    push_all(&mut self.out, &w.ints);
                    self.int_pos = w.ints.len();
                }
                self.past_dot = true;
                if w.decs.len() > 0 {
                    self.out.push('.');
                }
            },
            Tok::Exp(_) => {
                if self.int_slot == 0 {
                    push_all(&mut self.out, &w.ints);
                    self.int_pos = w.ints.len();
                }
                if !self.exp_done {
                    self.exp_done = true;
                    self.out.push('E');
                    push_all(&mut self.out, &w.exponent);
                }
            },
            _ => {},
        }
        assert(self.deal() =~= deal_token(t@, before, w.fill()));
    }
}

/// `Fill` as code holds it.
struct Filler {
    spec: NumSpec,
    ints: Vec<char>,
    decs: Vec<char>,
    exponent: Vec<char>,
    general: Vec<char>,
}

impl Filler {
    spec fn fill(&self) -> Fill {
        Fill {
            spec: self.spec,
            ints: self.ints@,
            decs: self.decs@,
            exponent: self.exponent@,
            general: self.general@,
        }
    }
}

/// What a number section shows for a value of these digits. `force_sign` writes a
/// minus sign before everything.
pub fn render_number(sec: &Section, digits: &Option<Digits>, force_sign: bool) -> (r: String)
    ensures
        r@ == shown_number(sec@, *digits, force_sign),
{
    let d: &Digits = match digits {
        Some(d) => d,
        None => {
            return String::from_str(OVERFLOW);
        },
    };
    let spec: NumSpec = sec.num;
    let mut exponent: Vec<char> = Vec::new();
    if spec.sci {
        push_exponent(&mut exponent, d.exp, spec.exp_plus, spec.exp_places);
    }
    let w = Filler {
        spec,
        ints: int_text(&spec, d.ints.as_str()),
        decs: dec_text(&spec, d.decs.as_str()),
        exponent,
        general: chars_of(d.general.as_str()),
    };
    assert(w.fill() =~= fill_of(spec, *d));
    let mut st = Dealer {
        out: Vec::new(),
        int_slot: 0,
        int_pos: 0,
        dec_slot: 0,
        dec_pos: 0,
        past_dot: false,
        exp_done: false,
    };
    if force_sign {
        st.out.push('-');
    }
    let ghost ts = tokens(sec.toks@);
    let total: usize = sec.toks.len();
    assert(st.deal() =~= deal_start(force_sign));
    assert(ts.take(0) =~= Seq::<Token>::empty());
    for i in 0..total
        invariant
            ts == tokens(sec.toks@),
            total == sec.toks@.len(),
            st.int_pos <= w.ints@.len(),
            st.dec_pos <= w.decs@.len(),
            st.int_slot <= i,
            st.dec_slot <= i,
            st.deal() == deal(ts.take(i as int), w.fill(), force_sign),
    {
        assert(ts.take(i + 1).drop_last() =~= ts.take(i as int));
        assert(ts.take(i + 1).last() == sec.toks@[i as int]@);
        st.token(&sec.toks[i], &w);
    }
    assert(ts.take(ts.len() as int) =~= ts);
    if st.int_pos == 0 && st.dec_pos == 0 && spec.has_digits {
        push_all(&mut st.out, &w.ints);
    }
    string_of(&st.out)
}

// ── fractions ────────────────────────────────────────────────────────────────

/// The largest denominator that a fraction section allows.
pub open spec fn largest_den(spec: FracSpec) -> u32 {
    match spec.den_fixed {
        Some(d) => d,
        None => if spec.den_places <= 1 {
            9
        } else if spec.den_places == 2 {
            99
        } else if spec.den_places == 3 {
            999
        } else {
            9999
        },
    }
}

pub fn max_denominator(spec: &FracSpec) -> (r: u32)
    ensures
        r == largest_den(*spec),
{
    match spec.den_fixed {
        Some(d) => d,
        None => if spec.den_places <= 1 {
            9
        } else if spec.den_places == 2 {
            99
        } else if spec.den_places == 3 {
            999
        } else {
            9999
        },
    }
}

/// A value's magnitude as a whole number and a fraction. The whole number is zero for
/// a section that shows none.
#[derive(Clone, Copy, Debug)]
pub struct Ratio {
    pub whole: u64,
    pub num: u64,
    pub den: u32,
}

/// A fraction of one or more goes into the whole part, or stays one where the section
/// shows no whole part; nothing is a fraction of one.
pub open spec fn settled(spec: FracSpec, r: Ratio) -> Ratio {
    let over = r.num >= r.den;
    let num = if !over {
        r.num
    } else if spec.has_whole {
        (r.num as int % r.den as int) as u64
    } else {
        r.den as u64
    };
    Ratio {
        whole: if over && spec.has_whole {
            let w = r.whole + r.num as int / r.den as int;
            if w > u64::MAX {
                u64::MAX
            } else {
                w as u64
            }
        } else {
            r.whole
        },
        num,
        den: if num == 0 {
            1
        } else {
            r.den
        },
    }
}

/// The blanks in place of a fraction of zero, so that columns stay aligned.
pub open spec fn blank_width(spec: FracSpec) -> int {
    spec.num_places + 2 + if spec.den_places > 1 {
        spec.den_places as int
    } else {
        1
    }
}

/// A numerator and a denominator, each in its column.
pub open spec fn fraction_text(spec: FracSpec, num: u64, den: u32) -> Seq<char> {
    padded_left(decimal(num as nat), ' ', spec.num_places as nat) + seq!['/'] + padded_right(
        decimal(den as nat),
        ' ',
        spec.den_places as nat,
    )
}

pub open spec fn minus(on: bool) -> Seq<char> {
    if on {
        seq!['-']
    } else {
        Seq::empty()
    }
}

/// What a fraction section shows for a value; an overflow mark for what is no number.
pub open spec fn shown_fraction(sec: SectionView, ratio: Option<Ratio>, force_sign: bool) -> Seq<
    char,
> {
    match ratio {
        None => OVERFLOW@,
        Some(given) => {
            let spec = sec.frac;
            let r = settled(spec, given);
            let show_whole = spec.has_whole && (r.whole != 0 || spec.whole_forced);
            let blank = r.num == 0 && spec.has_whole;
            minus(force_sign) + (if show_whole {
                decimal(r.whole as nat)
            } else {
                Seq::empty()
            }) + if blank {
                (if show_whole {
                    Seq::empty()
                } else {
                    seq!['0']
                }) + repeated(' ', blank_width(spec))
            } else {
                (if show_whole {
                    seq![' ']
                } else {
                    Seq::empty()
                }) + fraction_text(spec, r.num, r.den)
            }
        },
    }
}

fn settle(spec: &FracSpec, given: &Ratio) -> (r: Ratio)
    requires
        given.den > 0,
    ensures
        r == settled(*spec, *given),
{
    let mut whole: u64 = given.whole;
    let mut num: u64 = given.num;
    let mut den: u32 = given.den;
    if num >= den as u64 {
        if spec.has_whole {
            whole = whole.saturating_add(num / den as u64);
            num = num % den as u64;
        } else {
            num = den as u64;
        }
    }
    if num == 0 {
        den = 1;
    }
    Ratio { whole, num, den }
}

fn push_fraction(out: &mut Vec<char>, spec: &FracSpec, num: u64, den: u32)
    ensures
        final(out)@ == old(out)@ + fraction_text(*spec, num, den),
{
    let ghost before = out@;
    let mut n: Vec<char> = Vec::new();
    push_u64(&mut n, num);
    assert(n@ =~= decimal(num as nat));
    push_all(out, &pad_left(&n, ' ', spec.num_places));
    out.push('/');
    let mut d: Vec<char> = Vec::new();
    push_u64(&mut d, den as u64);
    assert(d@ =~= decimal(den as nat));
    push_all(out, &d);
    let more: usize = if d.len() < spec.den_places {
        spec.den_places - d.len()
    } else {
        0
    };
    push_repeated(out, ' ', more);
    assert(repeated(' ', spec.den_places - d@.len()) =~= repeated(' ', more as int));
    assert(out@ =~= before + fraction_text(*spec, num, den));
}

/// What a fraction section shows for a value.
pub fn render_fraction(sec: &Section, ratio: &Option<Ratio>, force_sign: bool) -> (r: String)
    requires
        ratio matches Some(v) ==> v.den > 0,
        sec.ok(),
    ensures
        r@ == shown_fraction(sec@, *ratio, force_sign),
{
    let given: Ratio = match ratio {
        Some(v) => *v,
        None => {
            return String::from_str(OVERFLOW);
        },
    };
    let spec: FracSpec = sec.frac;
    let r: Ratio = settle(&spec, &given);
    let mut out: Vec<char> = Vec::new();
    if force_sign {
        out.push('-');
    }
    assert(out@ =~= minus(force_sign));
    let show_whole = spec.has_whole && (r.whole != 0 || spec.whole_forced);
    if show_whole {
        push_u64(&mut out, r.whole);
    }
    let ghost front = minus(force_sign) + (if show_whole {
        decimal(r.whole as nat)
    } else {
        Seq::empty()
    });
    assert(out@ =~= front);
    if r.num == 0 && spec.has_whole {
        if !show_whole {
            out.push('0');
        }
        let wide: usize = if spec.den_places > 1 {
            spec.den_places
        } else {
            1
        };
        push_repeated(&mut out, ' ', spec.num_places + 2 + wide);
        assert(out@ =~= front + ((if show_whole {
            Seq::empty()
        } else {
            seq!['0']
        }) + repeated(' ', blank_width(spec))));
    } else {
        if show_whole {
            out.push(' ');
        }
        push_fraction(&mut out, &spec, r.num, r.den);
        assert(out@ =~= front + ((if show_whole {
            seq![' ']
        } else {
            Seq::empty()
        }) + fraction_text(spec, r.num, r.den)));
    }
    string_of(&out)
}

} // verus!
