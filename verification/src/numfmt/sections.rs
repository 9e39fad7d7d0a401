//! The sections of a format code, and what each one asks for.

use vstd::prelude::*;
use crate::chars::{
    ascii_lower_all, byte_len, bytes_in, chars_of, digit, digits_u32, is_digit, push_all,
    read_digits, slice_of, text_is, to_lower_all, trim, trimmed,
};
use crate::numfmt::tokens::{
    at_most, law_token_advances, lemma_until, token_at, token_step, tokens, until, Ink, Tok,
    TokVec, Token, Unit,
};

verus! {

/// The longest code that is read; a longer one means General.
pub const MAX_CODE: usize = 512;

/// Tokens kept per section.
pub const MAX_TOKENS: usize = 256;

/// Sections beyond the fourth are ignored.
pub const MAX_SECTIONS: usize = 4;

#[derive(Clone, Copy, PartialEq, Eq, Debug, Structural)]
pub enum Kind {
    General,
    Date,
    Fraction,
    Number,
}

/// What a number section asks for.
#[derive(Clone, Copy, Debug)]
pub struct NumSpec {
    /// Every placeholder left of the decimal point.
    pub int_all: usize,
    /// The `0` placeholders left of it: the least number of integer digits.
    pub int_zeros: usize,
    /// The `0` and `?` placeholders left of it: the width to pad to.
    pub int_pad: usize,
    /// Every placeholder right of it: the precision.
    pub dec_places: usize,
    pub dec_zeros: usize,
    pub dec_pad: usize,
    /// A comma stands between placeholders.
    pub thousands: bool,
    /// Trailing commas: each divides the value by a thousand.
    pub scale: u32,
    /// Percent signs: each multiplies the value by a hundred.
    pub percent: u32,
    pub sci: bool,
    pub exp_places: usize,
    pub exp_plus: bool,
    pub has_digits: bool,
}

/// What a fraction section asks for.
#[derive(Clone, Copy, Debug)]
pub struct FracSpec {
    /// A whole-number part stands before the fraction.
    pub has_whole: bool,
    /// The whole-number part holds a `0`, so a zero is still shown.
    pub whole_forced: bool,
    pub num_places: usize,
    pub den_places: usize,
    /// A denominator written out, as in `# ?/16`.
    pub den_fixed: Option<u32>,
}

pub open spec fn no_numbers() -> NumSpec {
    NumSpec {
        int_all: 0,
        int_zeros: 0,
        int_pad: 0,
        dec_places: 0,
        dec_zeros: 0,
        dec_pad: 0,
        thousands: false,
        scale: 0,
        percent: 0,
        sci: false,
        exp_places: 0,
        exp_plus: false,
        has_digits: false,
    }
}

pub open spec fn no_fraction() -> FracSpec {
    FracSpec {
        has_whole: false,
        whole_forced: false,
        num_places: 0,
        den_places: 0,
        den_fixed: None,
    }
}

#[derive(Debug)]
pub struct Section {
    pub toks: Vec<TokVec>,
    pub kind: Kind,
    pub color: Option<Ink>,
    pub num: NumSpec,
    pub frac: FracSpec,
    /// An `AM/PM` or `A/P` stands in the section.
    pub twelve_hour: bool,
    pub elapsed: Option<Unit>,
}

/// A section as contracts see it.
#[verifier::ext_equal]
pub struct SectionView {
    pub toks: Seq<Token>,
    pub kind: Kind,
    pub color: Option<Ink>,
    pub num: NumSpec,
    pub frac: FracSpec,
    pub twelve_hour: bool,
    pub elapsed: Option<Unit>,
}

impl Section {
    /// A section holds no more tokens than are kept, and asks for no more places.
    pub open spec fn ok(&self) -> bool {
        &&& self.toks@.len() <= MAX_TOKENS
        &&& self.frac.num_places <= MAX_TOKENS
        &&& self.frac.den_places <= MAX_TOKENS
    }
}

impl View for Section {
    type V = SectionView;

    open spec fn view(&self) -> SectionView {
        SectionView {
            toks: tokens(self.toks@),
            kind: self.kind,
            color: self.color,
            num: self.num,
            frac: self.frac,
            twelve_hour: self.twelve_hour,
            elapsed: self.elapsed,
        }
    }
}

pub open spec fn views(v: Seq<Section>) -> Seq<SectionView> {
    v.map_values(|s: Section| s@)
}

pub open spec fn general_section(color: Option<Ink>) -> SectionView {
    SectionView {
        toks: Seq::empty(),
        kind: Kind::General,
        color,
        num: no_numbers(),
        frac: no_fraction(),
        twelve_hour: false,
        elapsed: None,
    }
}

impl SectionView {
    /// Shows nothing at all, as the empty section of `0;;` does.
    pub open spec fn hides(self) -> bool {
        self.kind != Kind::General && self.toks.len() == 0
    }
}

impl Section {
    pub fn general() -> (s: Section)
        ensures
            s@ == general_section(None),
    {
        let s = Section {
            toks: Vec::new(),
            kind: Kind::General,
            color: None,
            num: NumSpec {
                int_all: 0,
                int_zeros: 0,
                int_pad: 0,
                dec_places: 0,
                dec_zeros: 0,
                dec_pad: 0,
                thousands: false,
                scale: 0,
                percent: 0,
                sci: false,
                exp_places: 0,
                exp_plus: false,
                has_digits: false,
            },
            frac: FracSpec {
                has_whole: false,
                whole_forced: false,
                num_places: 0,
                den_places: 0,
                den_fixed: None,
            },
            twelve_hour: false,
            elapsed: None,
        };
        assert(s@.toks =~= Seq::<Token>::empty());
        s
    }

    pub fn is_empty(&self) -> (r: bool)
        ensures
            r == self@.hides(),
    {
        self.kind != Kind::General && self.toks.len() == 0
    }
}

// ── looking for tokens ───────────────────────────────────────────────────────

/// A class of tokens.
#[derive(Clone, Copy)]
pub enum What {
    Digit,
    Zero,
    Pad,
    Percent,
    Dot,
    Exp,
    Slash,
    Comma,
    Ampm,
    Elapsed,
    Datetime,
    Literal,
}

impl What {
    pub open spec fn has(self, t: Token) -> bool {
        match self {
            What::Digit => t is Digit,
            What::Zero => t == Tok::<Seq<char>>::Digit('0'),
            What::Pad => t == Tok::<Seq<char>>::Digit('0') || t == Tok::<Seq<char>>::Digit('?'),
            What::Percent => t is Percent,
            What::Dot => t is Dot,
            What::Exp => t is Exp,
            What::Slash => t is Slash,
            What::Comma => t is Comma,
            What::Ampm => t is Ampm,
            What::Elapsed => t is Elapsed,
            What::Datetime => t.datetime(),
            What::Literal => t is Lit,
        }
    }

    fn test(self, t: &TokVec) -> (r: bool)
        ensures
            r == self.has(t@),
    {
        match self {
            What::Digit => matches!(t, Tok::Digit(_)),
            What::Zero => match t {
                Tok::Digit(c) => *c == '0',
                _ => false,
            },
            What::Pad => match t {
                Tok::Digit(c) => *c == '0' || *c == '?',
                _ => false,
            },
            What::Percent => matches!(t, Tok::Percent),
            What::Dot => matches!(t, Tok::Dot),
            What::Exp => matches!(t, Tok::Exp(_)),
            What::Slash => matches!(t, Tok::Slash),
            What::Comma => matches!(t, Tok::Comma),
            What::Ampm => matches!(t, Tok::Ampm(_)),
            What::Elapsed => matches!(t, Tok::Elapsed(_, _)),
            What::Datetime => t.is_datetime(),
            What::Literal => matches!(t, Tok::Lit(_)),
        }
    }
}

/// How many tokens are of the class.
pub open spec fn count(toks: Seq<Token>, w: What) -> nat
    decreases toks.len(),
{
    if toks.len() == 0 {
        0
    } else {
        count(toks.drop_last(), w) + if w.has(toks.last()) {
            1nat
        } else {
            0
        }
    }
}

/// The first token of the class from `i` on, or the end.
pub open spec fn first(toks: Seq<Token>, i: int, w: What) -> int
    decreases toks.len() - i,
{
    if 0 <= i < toks.len() && !w.has(toks[i]) {
        first(toks, i + 1, w)
    } else {
        i
    }
}

/// The last token of the class before `i`, or -1.
pub open spec fn last_before(toks: Seq<Token>, i: int, w: What) -> int
    decreases i,
{
    if 0 < i <= toks.len() && !w.has(toks[i - 1]) {
        last_before(toks, i - 1, w)
    } else {
        i - 1
    }
}

pub proof fn lemma_count_bound(toks: Seq<Token>, w: What)
    ensures
        count(toks, w) <= toks.len(),
    decreases toks.len(),
{
    if toks.len() > 0 {
        lemma_count_bound(toks.drop_last(), w);
    }
}

fn count_in(toks: &Vec<TokVec>, from: usize, to: usize, w: What) -> (n: usize)
    requires
        from <= to <= toks@.len(),
    ensures
        n == count(tokens(toks@).subrange(from as int, to as int), w),
        n <= to - from,
{
    let mut n: usize = 0;
    for i in from..to
        invariant
            from <= to <= toks@.len(),
            n <= i - from,
            n == count(tokens(toks@).subrange(from as int, i as int), w),
    {
        let ghost t = tokens(toks@).subrange(from as int, i + 1);
        assert(t.drop_last() =~= tokens(toks@).subrange(from as int, i as int));
        assert(t.last() == toks@[i as int]@);
        if w.test(&toks[i]) {
            n = n + 1;
        }
    }
    n
}

fn first_in(toks: &Vec<TokVec>, w: What) -> (i: usize)
    ensures
        i == first(tokens(toks@), 0, w),
        i <= toks@.len(),
        i < toks@.len() ==> w.has(toks@[i as int]@),
{
    let mut i: usize = 0;
    while i < toks.len() && !w.test(&toks[i])
        invariant
            i <= toks@.len(),
            first(tokens(toks@), i as int, w) == first(tokens(toks@), 0, w),
        decreases toks@.len() - i,
    {
        i = i + 1;
    }
    i
}

// ── number sections ──────────────────────────────────────────────────────────

/// The tokens after the last placeholder are commas and nothing else.
pub open spec fn trailing_commas(toks: Seq<Token>, last: int) -> bool {
    forall|k: int| last < k < toks.len() ==> (#[trigger] toks[k]) is Comma
}

/// What a number section's tokens ask for.
pub open spec fn num_spec_of(toks: Seq<Token>) -> NumSpec {
    let len = toks.len() as int;
    let dot = first(toks, 0, What::Dot);
    let exp = first(toks, 0, What::Exp);
    let last = last_before(toks, len, What::Digit);
    let whole = toks.take(if dot < len { dot } else { exp });
    let dec = if dot < len {
        toks.subrange(dot + 1, if dot < exp { exp } else { len })
    } else {
        Seq::empty()
    };
    let tail = if exp < len {
        toks.skip(exp + 1)
    } else {
        Seq::empty()
    };
    NumSpec {
        int_all: count(whole, What::Digit) as usize,
        int_zeros: count(whole, What::Zero) as usize,
        int_pad: count(whole, What::Pad) as usize,
        dec_places: count(dec, What::Digit) as usize,
        dec_zeros: count(dec, What::Zero) as usize,
        dec_pad: count(dec, What::Pad) as usize,
        thousands: last > 0 && count(toks.take(last), What::Comma) > 0,
        scale: if last >= 0 && trailing_commas(toks, last) {
            (len - 1 - last) as u32
        } else {
            0
        },
        percent: (count(whole, What::Percent) + count(dec, What::Percent) + count(
            tail,
            What::Percent,
        )) as u32,
        sci: exp < len,
        exp_places: count(tail, What::Digit) as usize,
        exp_plus: exp < len && toks[exp] == Tok::<Seq<char>>::Exp(true),
        has_digits: count(whole, What::Digit) > 0 || count(dec, What::Digit) > 0,
    }
}

fn num_spec(toks: &Vec<TokVec>) -> (n: NumSpec)
    requires
        toks@.len() <= MAX_TOKENS,
    ensures
        n == num_spec_of(tokens(toks@)),
{
    let len: usize = toks.len();
    let ghost ts = tokens(toks@);
    let dot: usize = first_in(toks, What::Dot);
    let exp: usize = first_in(toks, What::Exp);
    let int_end: usize = if dot < len {
        dot
    } else {
        exp
    };
    let dec_from: usize = if dot < len {
        dot + 1
    } else {
        0
    };
    let dec_to: usize = if dot < len {
        if dot < exp {
            exp
        } else {
            len
        }
    } else {
        0
    };
    let tail_from: usize = if exp < len {
        exp + 1
    } else {
        len
    };
    assert(ts.subrange(0, int_end as int) =~= ts.take(int_end as int));
    assert(dot >= len ==> ts.subrange(0, 0) =~= Seq::<Token>::empty());
    assert(exp >= len ==> ts.subrange(len as int, len as int) =~= Seq::<Token>::empty());
    assert(exp < len ==> ts.subrange(exp + 1, len as int) =~= ts.skip(exp + 1));
    let int_all: usize = count_in(toks, 0, int_end, What::Digit);
    let dec_places: usize = count_in(toks, dec_from, dec_to, What::Digit);
    let percent: usize = count_in(toks, 0, int_end, What::Percent) + count_in(
        toks,
        dec_from,
        dec_to,
        What::Percent,
    ) + count_in(toks, tail_from, len, What::Percent);
    // One past the last placeholder.
    let mut after: usize = len;
    while after > 0 && !What::Digit.test(&toks[after - 1])
        invariant
            after <= toks@.len(),
            ts == tokens(toks@),
            last_before(ts, after as int, What::Digit) == last_before(
                ts,
                ts.len() as int,
                What::Digit,
            ),
        decreases after,
    {
        after = after - 1;
    }
    let ghost last = last_before(ts, ts.len() as int, What::Digit);
    assert(last == after - 1);
    let mut thousands = false;
    let mut scale: u32 = 0;
    if after > 0 {
        assert(ts.subrange(0, after - 1) =~= ts.take(after - 1));
        thousands = count_in(toks, 0, after - 1, What::Comma) > 0;
        let mut k: usize = after;
        while k < len && What::Comma.test(&toks[k])
            invariant
                after <= k <= len,
                len == toks@.len(),
                ts == tokens(toks@),
                forall|m: int| after <= m < k ==> (#[trigger] ts[m]) is Comma,
            decreases len - k,
        {
            k = k + 1;
        }
        if k == len {
            scale = (len - after) as u32;
        } else {
            assert(!(ts[k as int] is Comma));
        }
    }
    let exp_plus = if exp < len {
        assert(ts[exp as int] == toks@[exp as int]@);
        matches!(&toks[exp], Tok::Exp(true))
    } else {
        false
    };
    NumSpec {
        int_all,
        int_zeros: count_in(toks, 0, int_end, What::Zero),
        int_pad: count_in(toks, 0, int_end, What::Pad),
        dec_places,
        dec_zeros: count_in(toks, dec_from, dec_to, What::Zero),
        dec_pad: count_in(toks, dec_from, dec_to, What::Pad),
        thousands,
        scale,
        percent: percent as u32,
        sci: exp < len,
        exp_places: count_in(toks, tail_from, len, What::Digit),
        exp_plus,
        has_digits: int_all > 0 || dec_places > 0,
    }
}

// ── fraction sections ────────────────────────────────────────────────────────

/// The finished runs of placeholders, each with its length and whether it holds a
/// `0`, and the run that the tokens end in.
pub open spec fn digit_runs(toks: Seq<Token>) -> (Seq<(nat, bool)>, (nat, bool))
    decreases toks.len(),
{
    if toks.len() == 0 {
        (Seq::empty(), (0, false))
    } else {
        let (done, cur) = digit_runs(toks.drop_last());
        match toks.last() {
            Tok::Digit(c) => (done, (cur.0 + 1, cur.1 || c == '0')),
            _ => (closed(done, cur), (0, false)),
        }
    }
}

pub open spec fn closed(done: Seq<(nat, bool)>, cur: (nat, bool)) -> Seq<(nat, bool)> {
    if cur.0 > 0 {
        done.push(cur)
    } else {
        done
    }
}

/// The runs of placeholders before the slash, in order.
pub open spec fn runs_of(toks: Seq<Token>) -> Seq<(nat, bool)> {
    closed(digit_runs(toks).0, digit_runs(toks).1)
}

/// How many placeholders stand in a row from `i` on.
pub open spec fn digit_run(toks: Seq<Token>, i: int) -> nat
    decreases toks.len() - i,
{
    if 0 <= i < toks.len() && toks[i] is Digit {
        1 + digit_run(toks, i + 1)
    } else {
        0
    }
}

/// How many digits a text starts with.
pub open spec fn lead_digits(s: Seq<char>) -> nat
    decreases s.len(),
{
    if s.len() > 0 && is_digit(s[0]) {
        1 + lead_digits(s.skip(1))
    } else {
        0
    }
}

/// The number a literal denominator starts with, where it is a positive one.
pub open spec fn written_den(t: Token) -> Option<u32> {
    match t {
        Tok::Lit(l) => match digits_u32(l.take(lead_digits(l) as int)) {
            Some(v) => if v > 0 {
                Some(v)
            } else {
                None
            },
            None => None,
        },
        _ => None,
    }
}

/// What a fraction section's tokens ask for; `None` where they are no fraction.
pub open spec fn frac_spec_of(toks: Seq<Token>) -> Option<FracSpec> {
    let slash = first(toks, 0, What::Slash);
    let runs = runs_of(toks.take(slash));
    let places = digit_run(toks, slash + 1);
    let fixed = if places == 0 && slash + 1 < toks.len() {
        written_den(toks[slash + 1])
    } else {
        None
    };
    if slash >= toks.len() || runs.len() == 0 || (places == 0 && fixed is None) {
        None
    } else {
        Some(
            FracSpec {
                has_whole: runs.len() > 1,
                whole_forced: runs.len() > 1 && runs[0].1,
                num_places: runs.last().0 as usize,
                den_places: at_most(places, 4) as usize,
                den_fixed: fixed,
            },
        )
    }
}

fn den_of(l: &Vec<char>) -> (r: Option<u32>)
    ensures
        r == written_den(Tok::Lit(l@)),
{
    let mut n: usize = 0;
    assert(l@.skip(0) =~= l@);
    while n < l.len() && digit(l[n])
        invariant
            n <= l@.len(),
            lead_digits(l@) == n + lead_digits(l@.skip(n as int)),
        decreases l@.len() - n,
    {
        assert(l@.skip(n as int).skip(1) =~= l@.skip(n + 1));
        n = n + 1;
    }
    assert(l@.subrange(0, n as int) =~= l@.take(n as int));
    match read_digits(&slice_of(l, 0, n)) {
        Some(v) => if v > 0 {
            Some(v)
        } else {
            None
        },
        None => None,
    }
}

/// The runs of placeholders as code holds them.
pub open spec fn run_views(v: Seq<(usize, bool)>) -> Seq<(nat, bool)> {
    v.map_values(|r: (usize, bool)| (r.0 as nat, r.1))
}

fn frac_spec(toks: &Vec<TokVec>) -> (r: Option<FracSpec>)
    ensures
        r == frac_spec_of(tokens(toks@)),
        r matches Some(f) ==> f.num_places <= toks@.len() && f.den_places <= 4,
{
    let ghost ts = tokens(toks@);
    let slash: usize = first_in(toks, What::Slash);
    if slash >= toks.len() {
        return None;
    }
    let mut runs: Vec<(usize, bool)> = Vec::new();
    let mut cur: usize = 0;
    let mut zero: bool = false;
    assert(ts.take(0) =~= Seq::<Token>::empty());
    assert(run_views(runs@) =~= Seq::<(nat, bool)>::empty());
    for i in 0..slash
        invariant
            slash < toks@.len(),
            ts == tokens(toks@),
            cur <= i,
            forall|k: int| 0 <= k < runs@.len() ==> (#[trigger] runs@[k]).0 <= slash,
            digit_runs(ts.take(i as int)) == (run_views(runs@), (cur as nat, zero)),
    {
        let ghost t = ts.take(i + 1);
        assert(t.drop_last() =~= ts.take(i as int));
        assert(t.last() == toks@[i as int]@);
        match &toks[i] {
            Tok::Digit(c) => {
                cur = cur + 1;
                zero = zero || *c == '0';
            },
            _ => {
                if cur > 0 {
                    let ghost before = runs@;
                    runs.push((cur, zero));
                    assert(run_views(runs@) =~= run_views(before).push((cur as nat, zero)));
                }
                cur = 0;
                zero = false;
            },
        }
    }
    if cur > 0 {
        let ghost before = runs@;
        runs.push((cur, zero));
        assert(run_views(runs@) =~= run_views(before).push((cur as nat, zero)));
    }
    assert(run_views(runs@) == runs_of(ts.take(slash as int)));
    if runs.len() == 0 {
        return None;
    }
    let mut k: usize = slash + 1;
    let mut places: usize = 0;
    while k < toks.len() && What::Digit.test(&toks[k])
        invariant
            slash < toks@.len(),
            k == slash + 1 + places,
            k <= toks@.len(),
            ts == tokens(toks@),
            digit_run(ts, slash + 1) == places + digit_run(ts, k as int),
        decreases toks@.len() - k,
    {
        places = places + 1;
        k = k + 1;
    }
    let mut fixed: Option<u32> = None;
    if places == 0 && k < toks.len() {
        assert(ts[k as int] == toks@[k as int]@);
        if let Tok::Lit(l) = &toks[k] {
            fixed = den_of(l);
        }
    }
    if places == 0 && fixed.is_none() {
        return None;
    }
    Some(
        FracSpec {
            has_whole: runs.len() > 1,
            whole_forced: runs.len() > 1 && runs[0].1,
            num_places: runs[runs.len() - 1].0,
            den_places: if places < 4 {
                places
            } else {
                4
            },
            den_fixed: fixed,
        },
    )
}

// ── months and minutes ───────────────────────────────────────────────────────

/// The nearest token before `k` that is no separator, or -1.
pub open spec fn solid_before(toks: Seq<Token>, k: int) -> int
    decreases k,
{
    if 0 < k <= toks.len() && toks[k - 1].separator() {
        solid_before(toks, k - 1)
    } else {
        k - 1
    }
}

/// The nearest token from `k` on that is no separator, or the end.
pub open spec fn solid_from(toks: Seq<Token>, k: int) -> int
    decreases toks.len() - k,
{
    if 0 <= k < toks.len() && toks[k].separator() {
        solid_from(toks, k + 1)
    } else {
        k
    }
}

/// Whether the `m` or `mm` at `k` is a minute: an hour stands before it or a second
/// after it, with nothing but separators between.
pub open spec fn minute_at(toks: Seq<Token>, k: int) -> bool {
    let b = solid_before(toks, k);
    let a = solid_from(toks, k + 1);
    &&& toks[k] is Month && toks[k]->Month_0 <= 2
    &&& {
        ||| b >= 0 && (toks[b] is Hour || (toks[b] is Elapsed && toks[b]->Elapsed_0 == Unit::Hour))
        ||| a < toks.len() && toks[a] is Second
    }
}

/// The tokens with each such month turned into a minute.
pub open spec fn minutes_resolved(toks: Seq<Token>) -> Seq<Token> {
    Seq::new(
        toks.len(),
        |k: int|
            if minute_at(toks, k) {
                Tok::Minute(toks[k]->Month_0)
            } else {
                toks[k]
            },
    )
}

fn minute_here(toks: &Vec<TokVec>, k: usize) -> (r: bool)
    requires
        k < toks@.len(),
    ensures
        r == minute_at(tokens(toks@), k as int),
{
    let ghost ts = tokens(toks@);
    assert(ts[k as int] == toks@[k as int]@);
    match &toks[k] {
        Tok::Month(w) => {
            if *w > 2 {
                return false;
            }
        },
        _ => {
            return false;
        },
    }
    let mut b: usize = k;
    while b > 0 && toks[b - 1].is_separator()
        invariant
            b <= k < toks@.len(),
            ts == tokens(toks@),
            solid_before(ts, b as int) == solid_before(ts, k as int),
        decreases b,
    {
        assert(ts[b - 1] == toks@[b - 1]@);
        b = b - 1;
    }
    if b > 0 {
        assert(ts[b - 1] == toks@[b - 1]@);
        match &toks[b - 1] {
            Tok::Hour(_) => {
                return true;
            },
            Tok::Elapsed(u, _) => {
                if *u == Unit::Hour {
                    return true;
                }
            },
            _ => {},
        }
    }
    let total: usize = toks.len();
    let mut a: usize = k + 1;
    while a < total && toks[a].is_separator()
        invariant
            k < a <= total,
            total == toks@.len(),
            ts == tokens(toks@),
            solid_from(ts, a as int) == solid_from(ts, k + 1),
        decreases toks@.len() - a,
    {
        assert(ts[a as int] == toks@[a as int]@);
        a = a + 1;
    }
    if a < toks.len() {
        assert(ts[a as int] == toks@[a as int]@);
        matches!(&toks[a], Tok::Second(_))
    } else {
        false
    }
}

fn resolve_minutes(toks: &mut Vec<TokVec>)
    ensures
        tokens(final(toks)@) == minutes_resolved(tokens(old(toks)@)),
        final(toks)@.len() == old(toks)@.len(),
{
    let ghost before = tokens(toks@);
    let n: usize = toks.len();
    let mut marks: Vec<bool> = Vec::new();
    for k in 0..n
        invariant
            n == toks@.len(),
            before == tokens(toks@),
            marks@.len() == k,
            forall|j: int| 0 <= j < k ==> #[trigger] marks@[j] == minute_at(before, j),
    {
        marks.push(minute_here(toks, k));
    }
    for k in 0..n
        invariant
            n == toks@.len() == marks@.len() == before.len(),
            forall|j: int| 0 <= j < n ==> #[trigger] marks@[j] == minute_at(before, j),
            forall|j: int|
                k <= j < n ==> (#[trigger] toks@[j])@ == before[j],
            forall|j: int|
                0 <= j < k ==> (#[trigger] toks@[j])@ == minutes_resolved(before)[j],
    {
        if marks[k] {
            let w: u8 = match &toks[k] {
                Tok::Month(w) => *w,
                _ => 0,
            };
            toks[k] = Tok::Minute(w);
        }
    }
    assert(tokens(toks@) =~= minutes_resolved(before));
}

// ── a finished section ───────────────────────────────────────────────────────

/// The text of the literals, joined.
pub open spec fn lit_text(toks: Seq<Token>) -> Seq<char>
    decreases toks.len(),
{
    if toks.len() == 0 {
        Seq::empty()
    } else {
        lit_text(toks.drop_last()) + match toks.last() {
            Tok::Lit(l) => l,
            _ => Seq::empty(),
        }
    }
}

/// Nothing but literals, and they spell "General" in some case.
pub open spec fn says_general(toks: Seq<Token>) -> bool {
    count(toks, What::Literal) == toks.len() && ascii_lower_all(trimmed(lit_text(toks)))
        == "general"@
}

/// The section that a run of tokens makes.
pub open spec fn finished(toks: Seq<Token>, color: Option<Ink>) -> SectionView {
    if says_general(toks) {
        general_section(color)
    } else if toks.len() == 0 {
        SectionView { kind: Kind::Number, ..general_section(color) }
    } else {
        let ts = minutes_resolved(toks);
        let dated = first(ts, 0, What::Datetime) < ts.len();
        let e = first(ts, 0, What::Elapsed);
        SectionView {
            toks: ts,
            color,
            twelve_hour: first(ts, 0, What::Ampm) < ts.len(),
            elapsed: if e < ts.len() {
                Some(ts[e]->Elapsed_0)
            } else {
                None
            },
            kind: if dated {
                Kind::Date
            } else if frac_spec_of(ts) is Some {
                Kind::Fraction
            } else {
                Kind::Number
            },
            num: if !dated && frac_spec_of(ts) is None {
                num_spec_of(ts)
            } else {
                no_numbers()
            },
            frac: if !dated && frac_spec_of(ts) is Some {
                frac_spec_of(ts)->0
            } else {
                no_fraction()
            },
        }
    }
}

fn join_lits(toks: &Vec<TokVec>) -> (s: Vec<char>)
    ensures
        s@ == lit_text(tokens(toks@)),
{
    let ghost ts = tokens(toks@);
    let mut s: Vec<char> = Vec::new();
    assert(ts.take(0) =~= Seq::<Token>::empty());
    for i in 0..toks.len()
        invariant
            ts == tokens(toks@),
            s@ == lit_text(ts.take(i as int)),
    {
        assert(ts.take(i + 1).drop_last() =~= ts.take(i as int));
        assert(ts.take(i + 1).last() == toks@[i as int]@);
        if let Tok::Lit(l) = &toks[i] {
            push_all(&mut s, l);
        }
        assert(s@ =~= lit_text(ts.take(i + 1)));
    }
    assert(ts.take(ts.len() as int) =~= ts);
    s
}

fn finish_section(toks: Vec<TokVec>, color: Option<Ink>) -> (s: Section)
    requires
        toks@.len() <= MAX_TOKENS,
    ensures
        s@ == finished(tokens(toks@), color),
        s.ok(),
{
    let mut toks = toks;
    let mut s: Section = Section::general();
    s.color = color;
    assert(s.toks@.len() == s@.toks.len());
    let ghost given = tokens(toks@);
    assert(given.subrange(0, given.len() as int) =~= given);
    if count_in(&toks, 0, toks.len(), What::Literal) == toks.len() {
        let joined: Vec<char> = trim(&join_lits(&toks));
        if text_is(&to_lower_all(&joined), "general") {
            assert(s@ =~= finished(given, color));
            return s;
        }
        if toks.len() == 0 {
            s.kind = Kind::Number;
            assert(s@ =~= finished(given, color));
            return s;
        }
    }
    resolve_minutes(&mut toks);
    let ghost ts = tokens(toks@);
    s.twelve_hour = first_in(&toks, What::Ampm) < toks.len();
    let e: usize = first_in(&toks, What::Elapsed);
    if e < toks.len() {
        assert(ts[e as int] == toks@[e as int]@);
        if let Tok::Elapsed(u, _) = &toks[e] {
            s.elapsed = Some(*u);
        }
    }
    if first_in(&toks, What::Datetime) < toks.len() {
        s.kind = Kind::Date;
    } else {
        match frac_spec(&toks) {
            Some(f) => {
                s.frac = f;
                s.kind = Kind::Fraction;
            },
            None => {
                s.kind = Kind::Number;
                s.num = num_spec(&toks);
            },
        }
    }
    s.toks = toks;
    assert(s@ =~= finished(given, color));
    s
}

// ── all sections ─────────────────────────────────────────────────────────────

/// The sections that the code has from `i` on, after the finished ones `out` and
/// the tokens read so far of the one at hand.
pub open spec fn scanned(
    cs: Seq<char>,
    i: int,
    out: Seq<SectionView>,
    toks: Seq<Token>,
    color: Option<Ink>,
) -> Seq<SectionView>
    decreases cs.len() - i,
{
    if i < 0 || i >= cs.len() || out.len() >= MAX_SECTIONS {
        if out.len() < MAX_SECTIONS {
            out.push(finished(toks, color))
        } else {
            out
        }
    } else if cs[i] == ';' {
        scanned(cs, i + 1, out.push(finished(toks, color)), Seq::empty(), None)
    } else if toks.len() >= MAX_TOKENS {
        proof {
            lemma_until(cs, i, ';');
        }
        scanned(cs, until(cs, i, ';'), out, toks, color)
    } else {
        let s = token_step(cs, i, toks, color);
        proof {
            law_token_advances(cs, i, toks, color);
        }
        scanned(cs, s.next, out, s.toks, s.color)
    }
}

/// The sections of a code. An absent code and an over-long one mean General.
pub open spec fn sections_of(code: Seq<char>) -> Seq<SectionView> {
    if code.len() == 0 || byte_len(code) > MAX_CODE {
        seq![general_section(None)]
    } else {
        scanned(code, 0, Seq::empty(), Seq::empty(), None)
    }
}

pub fn parse_sections(code: &str) -> (out: Vec<Section>)
    ensures
        views(out@) == sections_of(code@),
        1 <= out@.len() <= MAX_SECTIONS,
        forall|k: int| 0 <= k < out@.len() ==> (#[trigger] out@[k]).ok(),
{
    let mut out: Vec<Section> = Vec::new();
    if code.is_empty() || bytes_in(code) > MAX_CODE {
        out.push(Section::general());
        assert(out@[0].toks@.len() == out@[0]@.toks.len());
        assert(views(out@) =~= sections_of(code@));
        return out;
    }
    let chars: Vec<char> = chars_of(code);
    let mut toks: Vec<TokVec> = Vec::new();
    let mut color: Option<Ink> = None;
    let mut i: usize = 0;
    assert(views(out@) =~= Seq::<SectionView>::empty());
    assert(tokens(toks@) =~= Seq::<Token>::empty());
    while i < chars.len() && out.len() < MAX_SECTIONS
        invariant
            i <= chars@.len(),
            chars@ == code@,
            code@.len() > 0,
            toks@.len() <= MAX_TOKENS,
            out@.len() <= MAX_SECTIONS,
            i == 0 || i < chars@.len() || out@.len() < MAX_SECTIONS || out@.len() >= 1,
            forall|k: int|
                0 <= k < out@.len() ==> (#[trigger] out@[k]).ok(),
            scanned(chars@, i as int, views(out@), tokens(toks@), color) == scanned(
                chars@,
                0,
                Seq::empty(),
                Seq::empty(),
                None,
            ),
        decreases chars@.len() - i,
    {
        assert(tokens(toks@).len() == toks@.len());
        assert(views(out@).len() == out@.len());
        let c: char = chars[i];
        if c == ';' {
            let ghost seen = views(out@);
            let mut done: Vec<TokVec> = Vec::new();
            std::mem::swap(&mut done, &mut toks);
            assert(tokens(toks@) =~= Seq::<Token>::empty());
            out.push(finish_section(done, color));
            assert(views(out@) =~= seen.push(finished(tokens(done@), color)));
            color = None;
            i = i + 1;
        } else if toks.len() >= MAX_TOKENS {
            let ghost at = i as int;
            while i < chars.len() && chars[i] != ';'
                invariant
                    at <= i <= chars@.len(),
                    until(chars@, i as int, ';') == until(chars@, at, ';'),
                decreases chars@.len() - i,
            {
                i = i + 1;
            }
        } else {
            i = token_at(&chars, i, &mut toks, &mut color);
        }
    }
    assert(tokens(toks@).len() == toks@.len());
    assert(views(out@).len() == out@.len());
    if out.len() < MAX_SECTIONS {
        let ghost seen = views(out@);
        let ghost ts = tokens(toks@);
        out.push(finish_section(toks, color));
        assert(views(out@) =~= seen.push(finished(ts, color)));
    }
    out
}

} // verus!
