//! Plain numbers, as an attribute states them: a sign, digits with a point, and a power of
//! ten. Decimal places past the fifteenth are dropped, but for a number that is nothing else.
//! What is past single precision counts as infinite, and what is below it as zero.

use vstd::prelude::*;
use crate::chars::{
    all_digits, ascii_lower_all, decimal_value, digit_value, is_digit, push_all, slice_of, text_is,
    to_lower_all,
};
use crate::numfmt::digits::{
    digits_after_point, digits_before_point, frac_digits, int_digits, lemma_decimal_value_bound,
    lemma_decimal_value_joined, lemma_pow10_positive, lemma_trailing_zeros, pow10, repeated,
};
use crate::odf::length::{lemma_prefix_value, number_end, signed};
use crate::odf::single::{is_tiny, lemma_far_down, vanishes};

verus! {

/// From here on a number is infinite: half a step past the largest of single precision.
pub const INFINITE: u128 = 340_282_356_779_733_661_637_539_395_458_142_568_448;

/// A power of ten past this one moves every digit out of sight.
pub const FAR: i128 = 1_000_000_000_000_000_000_000_000_000_000;

/// What a number is cut to behind the point.
pub const PARTS: u64 = 1_000_000_000_000_000;

/// The parts of a millionth.
pub const MILLIONTH: u64 = 1_000_000_000;

/// What a text stands for.
#[derive(Clone, Copy, PartialEq, Eq, Debug, Structural)]
pub enum Number {
    /// A whole part, and how many `PARTS`ths stand behind the point.
    Finite { negative: bool, whole: u128, parts: u64 },
    Infinite { negative: bool },
    /// `nan`.
    Nothing,
}

impl Number {
    /// The value in millionths, of a finite number; what is less than one is dropped.
    pub open spec fn value(self) -> int {
        match self {
            Number::Finite { negative, whole, parts } => {
                let m = whole * 1_000_000 + parts / MILLIONTH;
                if negative {
                    -m
                } else {
                    m
                }
            },
            _ => 0,
        }
    }

    pub open spec fn is_zero(self) -> bool {
        self matches Number::Finite { whole, parts, .. } && whole == 0 && parts == 0
    }
}

// ── reading ──────────────────────────────────────────────────────────────────

pub open spec fn without_sign(s: Seq<char>) -> Seq<char> {
    if signed(s) {
        s.skip(1)
    } else {
        s
    }
}

pub open spec fn is_negative(s: Seq<char>) -> bool {
    s.len() > 0 && s[0] == '-'
}

/// Where the power of ten starts, or the end.
pub open spec fn power_at(s: Seq<char>, i: int) -> int
    decreases s.len() - i,
{
    if 0 <= i < s.len() && s[i] != 'e' && s[i] != 'E' {
        power_at(s, i + 1)
    } else {
        i
    }
}

/// Digits with at most one point among them.
pub open spec fn is_mantissa(m: Seq<char>) -> bool {
    number_end(m, 0, false) == m.len() && int_digits(m).len() + frac_digits(m).len() > 0
}

/// The power of ten that a text states, behind the letter. `None` for what is no whole
/// number.
pub open spec fn power_of(t: Seq<char>) -> Option<int> {
    let d = without_sign(t);
    if d.len() == 0 || !all_digits(d) {
        None
    } else if is_negative(t) {
        Some(-(decimal_value(d) as int))
    } else {
        Some(decimal_value(d) as int)
    }
}

/// `n` times ten to the power `p`, rounded down.
pub open spec fn scaled(n: nat, p: int) -> nat {
    if p >= 0 {
        n * pow10(p as nat)
    } else {
        n / pow10((-p) as nat)
    }
}

/// The number that a mantissa and a power of ten make. One that is not zero has a part at
/// least.
pub open spec fn number_from(negative: bool, mantissa: Seq<char>, power: int) -> Number {
    let n = decimal_value(int_digits(mantissa) + frac_digits(mantissa));
    let p = power - frac_digits(mantissa).len();
    let parts = scaled(n, p + 15) % PARTS as nat;
    if scaled(n, p) >= INFINITE {
        Number::Infinite { negative }
    } else {
        Number::Finite {
            negative,
            whole: scaled(n, p) as u128,
            parts: if n > 0 && scaled(n, p) == 0 && parts == 0 && !vanishes(
                int_digits(mantissa) + frac_digits(mantissa),
                int_digits(mantissa).len() + power,
            ) {
                1
            } else {
                parts as u64
            },
        }
    }
}

/// The number that a text is; `None` for what is none.
pub open spec fn number_of(s: Seq<char>) -> Option<Number> {
    let u = without_sign(s);
    let word = ascii_lower_all(u);
    let e = power_at(u, 0);
    let m = u.take(e);
    if word == "inf"@ || word == "infinity"@ {
        Some(Number::Infinite { negative: is_negative(s) })
    } else if word == "nan"@ {
        Some(Number::Nothing)
    } else if !is_mantissa(m) {
        None
    } else if e >= u.len() {
        Some(number_from(is_negative(s), m, 0))
    } else {
        match power_of(u.skip(e + 1)) {
            Some(p) => Some(number_from(is_negative(s), m, p)),
            None => None,
        }
    }
}

// ── digits ───────────────────────────────────────────────────────────────────

/// The first `n` of some digits, with zeros where they run out.
pub open spec fn spread(d: Seq<char>, n: int) -> Seq<char> {
    if n <= 0 {
        Seq::empty()
    } else if n <= d.len() {
        d.take(n)
    } else {
        d + repeated('0', n - d.len())
    }
}

proof fn lemma_spread_step(d: Seq<char>, i: int)
    requires
        0 <= i,
    ensures
        spread(d, i + 1) == spread(d, i).push(
            if i < d.len() {
                d[i]
            } else {
                '0'
            },
        ),
        decimal_value(spread(d, i + 1)) == decimal_value(spread(d, i)) * 10 + digit_value(
            if i < d.len() {
                d[i]
            } else {
                '0'
            },
        ),
{
    let c = if i < d.len() {
        d[i]
    } else {
        '0'
    };
    assert(spread(d, i + 1) =~= spread(d, i).push(c));
    assert(spread(d, i).push(c).drop_last() =~= spread(d, i));
}

proof fn lemma_spread_grows(d: Seq<char>, i: int, n: int)
    requires
        0 <= i <= n,
    ensures
        decimal_value(spread(d, i)) <= decimal_value(spread(d, n)),
{
    assert(spread(d, n).len() == n);
    assert(spread(d, n).take(i) =~= spread(d, i));
    lemma_prefix_value(spread(d, n), i);
}

proof fn lemma_pow10_grows(a: nat, b: nat)
    requires
        a <= b,
    ensures
        pow10(a) <= pow10(b),
    decreases b,
{
    if a < b {
        lemma_pow10_grows(a, (b - 1) as nat);
    }
}

/// To shift the digits is to multiply by a power of ten, or to divide by one and round
/// down.
proof fn lemma_scaled(d: Seq<char>, p: int)
    requires
        all_digits(d),
    ensures
        scaled(decimal_value(d), p) == decimal_value(spread(d, d.len() + p)),
{
    let n = decimal_value(d);
    if p >= 0 {
        let z = repeated('0', p);
        lemma_trailing_zeros(d, z);
        assert(spread(d, d.len() + p) =~= d + z);
    } else {
        let k = (-p) as nat;
        lemma_pow10_positive(k);
        if k <= d.len() {
            let a = d.take(d.len() - k);
            let b = d.skip(d.len() - k);
            assert(d =~= a + b);
            lemma_decimal_value_joined(a, b);
            assert(all_digits(b)) by {
                assert forall|i: int| 0 <= i < b.len() implies is_digit(#[trigger] b[i]) by {
                    assert(is_digit(d[d.len() - k + i]));
                }
            }
            lemma_decimal_value_bound(b);
            let x = decimal_value(a) as int;
            let y = decimal_value(b) as int;
            let m = pow10(k) as int;
            assert((x * m + y) / m == x) by (nonlinear_arith)
                requires
                    0 <= y < m,
            ;
            assert(spread(d, d.len() + p) =~= a);
        } else {
            lemma_decimal_value_bound(d);
            lemma_pow10_grows(d.len(), k);
            let m = pow10(k) as int;
            assert((n as int) / m == 0) by (nonlinear_arith)
                requires
                    0 <= n < m,
            ;
            assert(decimal_value(Seq::<char>::empty()) == 0);
        }
    }
}

/// A number with a digit, that far up, is infinite.
proof fn lemma_far_up(n: nat, p: int)
    requires
        n > 0,
        p >= 39,
    ensures
        scaled(n, p) >= INFINITE,
{
    lemma_pow10_grows(39, p as nat);
    reveal_with_fuel(pow10, 40);
    assert(pow10(39) == 1_000_000_000_000_000_000_000_000_000_000_000_000_000);
    let m = pow10(p as nat) as int;
    assert(n * m >= m) by (nonlinear_arith)
        requires
            n >= 1,
            m >= 0,
    ;
}

fn whole_part(d: &Vec<char>, n: i128) -> (r: Option<u128>)
    requires
        all_digits(d@),
        n < 0x4000_0000_0000_0000_0000_0000,
    ensures
        r is None == (decimal_value(spread(d@, n as int)) >= INFINITE),
        r matches Some(v) ==> v == decimal_value(spread(d@, n as int)),
{
    let mut v: u128 = 0;
    let mut i: i128 = 0;
    assert(decimal_value(spread(d@, 0)) == 0);
    while i < n
        invariant
            all_digits(d@),
            0 <= i,
            n > 0 ==> i <= n,
            n < 0x4000_0000_0000_0000_0000_0000,
            n <= 0 ==> i == 0,
            v == decimal_value(spread(d@, i as int)),
            v < INFINITE,
        decreases n - i,
    {
        proof {
            lemma_spread_step(d@, i as int);
            lemma_spread_grows(d@, i + 1, n as int);
        }
        let c: char = if i < d.len() as i128 {
            assert(is_digit(d@[i as int]));
            d[i as usize]
        } else {
            '0'
        };
        if v > 34_028_235_677_973_366_163_753_939_545_814_256_844 {
            return None;
        }
        v = v * 10 + (c as u128 - 48);
        if v >= INFINITE {
            return None;
        }
        i = i + 1;
    }
    Some(v)
}

fn last_places(d: &Vec<char>, n: i128) -> (r: u64)
    requires
        all_digits(d@),
        n < 0x4000_0000_0000_0000_0000_0000,
    ensures
        r == decimal_value(spread(d@, n as int)) % PARTS as nat,
{
    let mut v: u64 = 0;
    let mut i: i128 = 0;
    assert(decimal_value(spread(d@, 0)) == 0);
    while i < n
        invariant
            all_digits(d@),
            0 <= i,
            n > 0 ==> i <= n,
            n <= 0 ==> i == 0,
            n < 0x4000_0000_0000_0000_0000_0000,
            v == decimal_value(spread(d@, i as int)) % PARTS as nat,
        decreases n - i,
    {
        proof {
            lemma_spread_step(d@, i as int);
        }
        let c: char = if i < d.len() as i128 {
            assert(is_digit(d@[i as int]));
            d[i as usize]
        } else {
            '0'
        };
        v = (v * 10 + (c as u64 - 48)) % PARTS;
        i = i + 1;
    }
    v
}

fn any_digit(d: &Vec<char>) -> (r: bool)
    requires
        all_digits(d@),
    ensures
        r == (decimal_value(d@) > 0),
{
    let mut r: bool = false;
    assert(d@.take(0) =~= Seq::<char>::empty());
    for i in 0..d.len()
        invariant
            all_digits(d@),
            r == (decimal_value(d@.take(i as int)) > 0),
    {
        assert(d@.take(i + 1).drop_last() =~= d@.take(i as int));
        assert(is_digit(d@[i as int]));
        if d[i] != '0' {
            r = true;
        }
    }
    assert(d@.take(d@.len() as int) =~= d@);
    r
}

/// A power of ten brought within `FAR`.
pub open spec fn near(p: int) -> int {
    if p > FAR {
        FAR as int
    } else if p < -FAR {
        -FAR
    } else {
        p
    }
}

fn unsign(v: &Vec<char>) -> (r: Vec<char>)
    ensures
        r@ == without_sign(v@),
{
    if v.len() > 0 && (v[0] == '+' || v[0] == '-') {
        let r: Vec<char> = slice_of(v, 1, v.len());
        assert(r@ =~= v@.skip(1));
        r
    } else {
        let r: Vec<char> = slice_of(v, 0, v.len());
        assert(r@ =~= v@);
        r
    }
}

fn parse_power(t: &Vec<char>) -> (r: Option<i128>)
    ensures
        r is Some == power_of(t@) is Some,
        r matches Some(p) ==> p == near(power_of(t@)->0),
{
    let d: Vec<char> = unsign(t);
    if d.len() == 0 {
        return None;
    }
    let mut v: i128 = 0;
    assert(d@.take(0) =~= Seq::<char>::empty());
    for i in 0..d.len()
        invariant
            d@ == without_sign(t@),
            forall|k: int| 0 <= k < i ==> is_digit(#[trigger] d@[k]),
            0 <= v <= FAR,
            v == near(decimal_value(d@.take(i as int)) as int),
    {
        let c: char = d[i];
        if !('0' <= c && c <= '9') {
            assert(!is_digit(d@[i as int]));
            return None;
        }
        assert(d@.take(i + 1).drop_last() =~= d@.take(i as int));
        v = v * 10 + (c as i128 - 48);
        if v > FAR {
            v = FAR;
        }
    }
    assert(d@.take(d@.len() as int) =~= d@);
    Some(
        if t.len() > 0 && t[0] == '-' {
            -v
        } else {
            v
        },
    )
}

proof fn lemma_zero_scaled(p: int)
    ensures
        scaled(0, p) == 0,
{
    if p >= 0 {
        assert(0 * pow10(p as nat) == 0) by (nonlinear_arith);
    } else {
        lemma_pow10_positive((-p) as nat);
        let m = pow10((-p) as nat) as int;
        assert(0int / m == 0) by (nonlinear_arith)
            requires
                m > 0,
        ;
    }
}

fn least_part(tiny: bool) -> (r: u64)
    ensures
        r == (if tiny {
            0u64
        } else {
            1
        }),
{
    if tiny {
        0
    } else {
        1
    }
}

/// The number that a mantissa makes with the power of ten that the rest states, where it
/// states one.
fn make_number(negative: bool, m: &Vec<char>, rest: &Option<Vec<char>>) -> (r: Option<Number>)
    requires
        is_mantissa(m@),
    ensures
        r == (match *rest {
            None => Some(number_from(negative, m@, 0)),
            Some(t) => match power_of(t@) {
                Some(p) => Some(number_from(negative, m@, p)),
                None => None,
            },
        }),
        r matches Some(Number::Finite { parts, .. }) ==> parts < PARTS,
{
    let power: i128 = match rest {
        None => 0,
        Some(t) => match parse_power(t) {
            Some(p) => p,
            None => {
                return None;
            },
        },
    };
    let ghost stated: int = match rest {
        None => 0,
        Some(t) => power_of(t@)->0,
    };
    let mut d: Vec<char> = digits_before_point(m);
    let frac: Vec<char> = digits_after_point(m);
    let ghost ints = d@;
    push_all(&mut d, &frac);
    assert(all_digits(d@)) by {
        assert forall|k: int| 0 <= k < d@.len() implies is_digit(#[trigger] d@[k]) by {
            if k < ints.len() {
                assert(is_digit(ints[k]));
            } else {
                assert(is_digit(frac@[k - ints.len()]));
            }
        }
    }
    let ghost n = decimal_value(d@);
    let ghost p: int = stated - frac@.len();
    let len: i128 = d.len() as i128;
    let shift: i128 = power - frac.len() as i128;
    if !any_digit(&d) {
        proof {
            lemma_zero_scaled(p);
            lemma_zero_scaled(p + 15);
        }
        return Some(Number::Finite { negative, whole: 0, parts: 0 });
    }
    if shift >= 39 {
        proof {
            lemma_far_up(n, p);
        }
        return Some(Number::Infinite { negative });
    }
    proof {
        lemma_scaled(d@, p);
        lemma_scaled(d@, p + 15);
    }
    assert(d@ == int_digits(m@) + frac_digits(m@));
    assert(int_digits(m@).len() + stated == len + p);
    if shift + 15 <= -len {
        assert(decimal_value(Seq::<char>::empty()) == 0);
        let tiny: bool = is_tiny(&d, len + shift);
        proof {
            if shift != p {
                lemma_far_down(d@, len + shift, len + p);
            }
        }
        return Some(Number::Finite { negative, whole: 0, parts: least_part(tiny) });
    }
    assert(shift == p);
    match whole_part(&d, len + shift) {
        Some(whole) => {
            let parts: u64 = last_places(&d, len + shift + 15);
            if whole == 0 && parts == 0 {
                let tiny: bool = is_tiny(&d, len + shift);
                return Some(Number::Finite { negative, whole, parts: least_part(tiny) });
            }
            Some(Number::Finite { negative, whole, parts })
        },
        None => Some(Number::Infinite { negative }),
    }
}

/// Reads a number.
pub fn parse_number(v: &Vec<char>) -> (r: Option<Number>)
    ensures
        r == number_of(v@),
        r matches Some(Number::Finite { parts, .. }) ==> parts < PARTS,
{
    let negative: bool = v.len() > 0 && v[0] == '-';
    let u: Vec<char> = unsign(v);
    let word: Vec<char> = to_lower_all(&u);
    if text_is(&word, "inf") || text_is(&word, "infinity") {
        return Some(Number::Infinite { negative });
    }
    if text_is(&word, "nan") {
        return Some(Number::Nothing);
    }
    let mut e: usize = 0;
    while e < u.len() && u[e] != 'e' && u[e] != 'E'
        invariant
            e <= u@.len(),
            power_at(u@, e as int) == power_at(u@, 0),
        decreases u@.len() - e,
    {
        e = e + 1;
    }
    let m: Vec<char> = slice_of(&u, 0, e);
    assert(m@ =~= u@.take(e as int));
    if !mantissa(&m) {
        return None;
    }
    if e < u.len() {
        let t: Vec<char> = slice_of(&u, e + 1, u.len());
        assert(t@ =~= u@.skip(e + 1));
        make_number(negative, &m, &Some(t))
    } else {
        make_number(negative, &m, &None)
    }
}

fn mantissa(m: &Vec<char>) -> (r: bool)
    ensures
        r == is_mantissa(m@),
{
    let mut i: usize = 0;
    let mut dot: bool = false;
    while i < m.len() && (('0' <= m[i] && m[i] <= '9') || (m[i] == '.' && !dot))
        invariant
            i <= m@.len(),
            number_end(m@, i as int, dot) == number_end(m@, 0, false),
        decreases m@.len() - i,
    {
        if m[i] == '.' {
            dot = true;
        }
        i = i + 1;
    }
    i == m.len() && (digits_before_point(m).len() > 0 || digits_after_point(m).len() > 0)
}

} // verus!
