//! Decimal digit strings: rounding, grouping, padding.

use vstd::prelude::*;
use crate::chars::{
    all_digits, chars_of, decimal_value, digit, digit_value, is_digit, push_all, slice_of,
    string_of,
};
use crate::numfmt::tokens::until;

verus! {

/// Ten to the power `n`.
pub open spec fn pow10(n: nat) -> nat
    decreases n,
{
    if n == 0 {
        1
    } else {
        10 * pow10((n - 1) as nat)
    }
}

pub proof fn lemma_pow10_positive(n: nat)
    ensures
        pow10(n) >= 1,
    decreases n,
{
    if n > 0 {
        lemma_pow10_positive((n - 1) as nat);
    }
}

/// The number that two runs of digits stand for together.
pub proof fn lemma_decimal_value_joined(a: Seq<char>, b: Seq<char>)
    ensures
        decimal_value(a + b) == decimal_value(a) * pow10(b.len()) + decimal_value(b),
    decreases b.len(),
{
    if b.len() == 0 {
        assert(a + b =~= a);
        assert(decimal_value(a) * 1 == decimal_value(a)) by (nonlinear_arith);
    } else {
        let c = b.drop_last();
        assert((a + b).drop_last() =~= a + c);
        assert((a + b).last() == b.last());
        lemma_decimal_value_joined(a, c);
        let x = decimal_value(a) as int;
        let p = pow10(c.len()) as int;
        assert((x * p) * 10 == x * (10 * p)) by (nonlinear_arith);
        assert(pow10(b.len()) == 10 * pow10(c.len()));
    }
}

/// A run of `n` digits stands for a number below ten to the power `n`.
pub proof fn lemma_decimal_value_bound(s: Seq<char>)
    requires
        all_digits(s),
    ensures
        decimal_value(s) < pow10(s.len()),
    decreases s.len(),
{
    if s.len() > 0 {
        let t = s.drop_last();
        assert(all_digits(t)) by {
            assert forall|k: int| 0 <= k < t.len() implies is_digit(#[trigger] t[k]) by {
                assert(is_digit(s[k]));
            }
        }
        lemma_decimal_value_bound(t);
        assert(is_digit(s[s.len() - 1]));
    }
}

/// The digits of a text, in order.
pub open spec fn only_digits(s: Seq<char>) -> Seq<char>
    decreases s.len(),
{
    if s.len() == 0 {
        Seq::empty()
    } else if is_digit(s.last()) {
        only_digits(s.drop_last()).push(s.last())
    } else {
        only_digits(s.drop_last())
    }
}

/// The digits before the first point.
pub open spec fn int_digits(s: Seq<char>) -> Seq<char> {
    only_digits(s.take(until(s, 0, '.')))
}

/// The digits after the first point.
pub open spec fn frac_digits(s: Seq<char>) -> Seq<char> {
    let dot = until(s, 0, '.');
    if dot < s.len() {
        only_digits(s.skip(dot + 1))
    } else {
        Seq::empty()
    }
}

/// `n` units of the `f`-th decimal place, rounded half up to units of the `d`-th.
pub open spec fn half_up(n: nat, f: nat, d: nat) -> nat {
    if f <= d {
        n * pow10((d - f) as nat)
    } else {
        (n + 5 * pow10((f - d - 1) as nat)) / pow10((f - d) as nat)
    }
}

/// A numeral without needless leading zeros.
pub open spec fn plain_numeral(s: Seq<char>) -> bool {
    s.len() >= 1 && all_digits(s) && (s.len() > 1 ==> s[0] != '0')
}

fn keep_digits(v: &Vec<char>, from: usize, to: usize) -> (r: Vec<char>)
    requires
        from <= to <= v@.len(),
    ensures
        r@ == only_digits(v@.subrange(from as int, to as int)),
        all_digits(r@),
{
    let mut r: Vec<char> = Vec::new();
    for i in from..to
        invariant
            from <= to <= v@.len(),
            all_digits(r@),
            r@ == only_digits(v@.subrange(from as int, i as int)),
    {
        let ghost t = v@.subrange(from as int, i + 1);
        assert(t.drop_last() =~= v@.subrange(from as int, i as int));
        assert(t.last() == v@[i as int]);
        let c: char = v[i];
        if digit(c) {
            r.push(c);
        }
    }
    r
}

/// Adds one to a numeral.
fn increment(v: &mut Vec<char>)
    requires
        all_digits(old(v)@),
    ensures
        all_digits(final(v)@),
        decimal_value(final(v)@) == decimal_value(old(v)@) + 1,
        old(v)@.len() <= final(v)@.len() <= old(v)@.len() + 1,
        final(v)@.len() >= 1,
    decreases old(v)@.len(),
{
    let ghost before = v@;
    match v.pop() {
        None => {
            v.push('1');
            assert(v@.drop_last() =~= Seq::<char>::empty());
            assert(decimal_value(v@.drop_last()) == 0);
        },
        Some(c) => {
            assert(is_digit(before[before.len() - 1]));
            assert(v@ =~= before.drop_last());
            assert(all_digits(v@)) by {
                assert forall|k: int| 0 <= k < v@.len() implies is_digit(#[trigger] v@[k]) by {
                    assert(is_digit(before[k]));
                }
            }
            let ghost rest = v@;
            if c == '9' {
                increment(v);
                let ghost more = v@;
                v.push('0');
                assert(v@.drop_last() =~= more);
            } else {
                v.push((c as u8 + 1) as char);
                assert(v@.drop_last() =~= rest);
            }
        },
    }
}

proof fn lemma_rounding(a: Seq<char>, f: Seq<char>, d: nat)
    requires
        all_digits(f),
        f.len() > d,
    ensures
        half_up(decimal_value(a + f), f.len(), d) == decimal_value(a + f.take(d as int)) + (
        if digit_value(f[d as int]) >= 5 {
            1nat
        } else {
            0
        }),
{
    let k = (f.len() - d) as nat;
    let head = a + f.take(d as int);
    let tail = f.skip(d as int);
    assert(a + f =~= head + tail);
    lemma_decimal_value_joined(head, tail);
    assert forall|i: int| 0 <= i < tail.len() implies is_digit(#[trigger] tail[i]) by {
        assert(is_digit(f[d + i]));
    }
    lemma_decimal_value_bound(tail);
    let one = tail.take(1);
    let rest = tail.skip(1);
    assert(tail =~= one + rest);
    lemma_decimal_value_joined(one, rest);
    assert(one.drop_last() =~= Seq::<char>::empty());
    assert(decimal_value(one.drop_last()) == 0);
    assert(decimal_value(one) == digit_value(f[d as int]));
    assert forall|i: int| 0 <= i < rest.len() implies is_digit(#[trigger] rest[i]) by {
        assert(is_digit(f[d + 1 + i]));
    }
    lemma_decimal_value_bound(rest);
    let h = decimal_value(head) as int;
    let q = pow10((k - 1) as nat) as int;
    let p = pow10(k) as int;
    let t = decimal_value(tail) as int;
    let c = digit_value(f[d as int]) as int;
    let r = decimal_value(rest) as int;
    assert(p == 10 * q);
    lemma_pow10_positive((k - 1) as nat);
    assert(t == c * q + r);
    assert(is_digit(f[d as int]));
    if c >= 5 {
        assert(c * q >= 5 * q) by (nonlinear_arith)
            requires
                c >= 5,
                q >= 1,
        ;
        assert(p <= t + 5 * q < 2 * p);
        assert((h * p + (t + 5 * q)) / p == h + 1) by (nonlinear_arith)
            requires
                p >= 1,
                p <= t + 5 * q < 2 * p,
        ;
    } else {
        assert(c * q <= 4 * q) by (nonlinear_arith)
            requires
                c <= 4,
                q >= 1,
        ;
        assert(0 <= t + 5 * q < p);
        assert((h * p + (t + 5 * q)) / p == h) by (nonlinear_arith)
            requires
                p >= 1,
                0 <= t + 5 * q < p,
        ;
    }
}

/// Leading zeros add nothing.
proof fn lemma_leading_zero(s: Seq<char>)
    requires
        s.len() > 0,
        s[0] == '0',
    ensures
        decimal_value(s) == decimal_value(s.skip(1)),
{
    let one = s.take(1);
    assert(s =~= one + s.skip(1));
    lemma_decimal_value_joined(one, s.skip(1));
    assert(one.drop_last() =~= Seq::<char>::empty());
    assert(decimal_value(one.drop_last()) == 0);
    assert(decimal_value(one) == 0);
    assert(0 * pow10(s.skip(1).len()) == 0) by (nonlinear_arith);
}

/// Padding with zeros on the right multiplies by ten each time.
pub proof fn lemma_trailing_zeros(s: Seq<char>, z: Seq<char>)
    requires
        forall|k: int| 0 <= k < z.len() ==> #[trigger] z[k] == '0',
    ensures
        decimal_value(s + z) == decimal_value(s) * pow10(z.len()),
    decreases z.len(),
{
    lemma_decimal_value_joined(s, z);
    assert(decimal_value(z) == 0) by {
        lemma_zeros_are_zero(z);
    }
}

proof fn lemma_zeros_are_zero(z: Seq<char>)
    requires
        forall|k: int| 0 <= k < z.len() ==> #[trigger] z[k] == '0',
    ensures
        decimal_value(z) == 0,
    decreases z.len(),
{
    if z.len() > 0 {
        assert(z.last() == z[z.len() - 1]);
        lemma_zeros_are_zero(z.drop_last());
    }
}

fn point_at(v: &Vec<char>) -> (dot: usize)
    ensures
        dot == until(v@, 0, '.'),
        dot <= v@.len(),
{
    let mut dot: usize = 0;
    while dot < v.len() && v[dot] != '.'
        invariant
            dot <= v@.len(),
            until(v@, dot as int, '.') == until(v@, 0, '.'),
        decreases v@.len() - dot,
    {
        dot = dot + 1;
    }
    dot
}

/// The digits before the first point.
pub(crate) fn digits_before_point(v: &Vec<char>) -> (r: Vec<char>)
    ensures
        r@ == int_digits(v@),
        all_digits(r@),
{
    let dot: usize = point_at(v);
    assert(v@.subrange(0, dot as int) =~= v@.take(dot as int));
    keep_digits(v, 0, dot)
}

/// The digits after the first point.
pub(crate) fn digits_after_point(v: &Vec<char>) -> (r: Vec<char>)
    ensures
        r@ == frac_digits(v@),
        all_digits(r@),
{
    let dot: usize = point_at(v);
    if dot < v.len() {
        assert(v@.subrange(dot + 1, v@.len() as int) =~= v@.skip(dot + 1));
        keep_digits(v, dot + 1, v.len())
    } else {
        Vec::new()
    }
}

/// The digits before and after the point of a decimal text, with a zero for an absent
/// whole part.
fn split_point(s: &str) -> (r: (Vec<char>, Vec<char>))
    ensures
        all_digits(r.0@),
        r.0@.len() >= 1,
        all_digits(r.1@),
        r.1@ == frac_digits(s@),
        decimal_value(r.0@ + r.1@) == decimal_value(int_digits(s@) + frac_digits(s@)),
{
    let v: Vec<char> = chars_of(s);
    let mut digits: Vec<char> = digits_before_point(&v);
    let frac: Vec<char> = digits_after_point(&v);
    let ghost ints = int_digits(s@);
    if digits.len() == 0 {
        digits.push('0');
        proof {
            let with_zero = seq!['0'] + frac@;
            assert(digits@ =~= seq!['0']);
            assert(with_zero.skip(1) =~= ints + frac@);
            lemma_leading_zero(with_zero);
        }
    }
    (digits, frac)
}

/// The first `dec` of the fraction's digits after the whole ones, with zeros where
/// they run out.
pub(crate) fn first_digits(whole: Vec<char>, frac: &Vec<char>, dec: usize) -> (r: Vec<char>)
    requires
        all_digits(whole@),
        all_digits(frac@),
    ensures
        all_digits(r@),
        r@.len() == whole@.len() + dec,
        dec <= frac@.len() ==> r@ == whole@ + frac@.take(dec as int),
        dec >= frac@.len() ==> r@ == whole@ + padded_right(frac@, '0', dec as nat),
        dec >= frac@.len() ==> decimal_value(r@) == decimal_value(whole@ + frac@) * pow10(
            (dec - frac@.len()) as nat,
        ),
{
    let mut r: Vec<char> = whole;
    let n: usize = if frac.len() < dec {
        frac.len()
    } else {
        dec
    };
    let front: Vec<char> = slice_of(frac, 0, n);
    push_all(&mut r, &front);
    assert(front@ =~= frac@.take(n as int));
    assert(dec >= frac@.len() ==> front@ =~= frac@);
    let ghost known = r@;
    assert forall|k: int| 0 <= k < r@.len() implies is_digit(#[trigger] r@[k]) by {
        if k < whole@.len() {
            assert(is_digit(whole@[k]));
        } else {
            assert(is_digit(frac@[k - whole@.len()]));
        }
    }
    push_repeated(&mut r, '0', dec - n);
    let ghost z = repeated('0', dec - n);
    assert forall|k: int| 0 <= k < r@.len() implies is_digit(#[trigger] r@[k]) by {
        if k < known.len() {
            assert(is_digit(known[k]));
        } else {
            assert(z[k - known.len()] == '0');
        }
    }
    proof {
        if dec <= frac@.len() {
            assert(z =~= Seq::<char>::empty());
            assert(r@ =~= known);
        }
        if dec >= frac@.len() {
            lemma_trailing_zeros(known, z);
            assert(r@ =~= whole@ + padded_right(frac@, '0', dec as nat));
        }
    }
    r
}

/// A digit string without needless leading zeros, cut in two before its last `dec`
/// digits.
fn digit_halves(digits: &Vec<char>, dec: usize) -> (r: (String, String))
    requires
        all_digits(digits@),
        digits@.len() > dec,
    ensures
        plain_numeral(r.0@),
        all_digits(r.1@),
        r.1@.len() == dec,
        decimal_value(r.0@ + r.1@) == decimal_value(digits@),
{
    let ghost done = digits@;
    let split: usize = digits.len() - dec;
    let mut lead: usize = 0;
    assert(done.skip(0) =~= done);
    while lead + 1 < split && digits[lead] == '0'
        invariant
            lead < split <= digits@.len(),
            digits@ == done,
            decimal_value(done.skip(lead as int)) == decimal_value(done),
        decreases split - lead,
    {
        proof {
            lemma_leading_zero(done.skip(lead as int));
            assert(done.skip(lead as int).skip(1) =~= done.skip(lead + 1));
        }
        lead = lead + 1;
    }
    let int_part: Vec<char> = slice_of(digits, lead, split);
    let dec_part: Vec<char> = slice_of(digits, split, digits.len());
    assert(int_part@ + dec_part@ =~= done.skip(lead as int));
    assert forall|k: int| 0 <= k < int_part@.len() implies is_digit(#[trigger] int_part@[k]) by {
        assert(is_digit(done[lead + k]));
    }
    assert forall|k: int| 0 <= k < dec_part@.len() implies is_digit(#[trigger] dec_part@[k]) by {
        assert(is_digit(done[split + k]));
    }
    (string_of(&int_part), string_of(&dec_part))
}

/// Rounds a plain decimal text (digits, a point, digits) to `dec` places, half up,
/// by carrying digits. Gives the digits on both sides of the point.
pub fn round_half_up(s: &str, dec: usize) -> (r: (String, String))
    ensures
        plain_numeral(r.0@),
        all_digits(r.1@),
        r.1@.len() == dec,
        decimal_value(r.0@ + r.1@) == half_up(
            decimal_value(int_digits(s@) + frac_digits(s@)),
            frac_digits(s@).len(),
            dec as nat,
        ),
{
    let (whole, frac): (Vec<char>, Vec<char>) = split_point(s);
    let ghost ints = whole@;
    let mut digits: Vec<char> = first_digits(whole, &frac, dec);
    if dec < frac.len() {
        proof {
            lemma_rounding(ints, frac@, dec as nat);
        }
        assert(is_digit(frac@[dec as int]));
        if frac[dec] >= '5' {
            increment(&mut digits);
        }
    }
    digit_halves(&digits, dec)
}

// ── grouping ─────────────────────────────────────────────────────────────────

/// The digits in groups of three from the right, with commas between.
pub open spec fn grouped(s: Seq<char>) -> Seq<char>
    decreases s.len(),
{
    if s.len() <= 3 {
        s
    } else {
        grouped(s.take(s.len() - 3)) + seq![','] + s.skip(s.len() - 3)
    }
}

/// The text without its commas.
pub open spec fn ungrouped(s: Seq<char>) -> Seq<char> {
    s.filter(|c: char| c != ',')
}

proof fn lemma_no_commas(s: Seq<char>)
    requires
        all_digits(s),
    ensures
        ungrouped(s) == s,
    decreases s.len(),
{
    reveal(Seq::filter);
    if s.len() > 0 {
        let t = s.drop_last();
        assert forall|k: int| 0 <= k < t.len() implies is_digit(#[trigger] t[k]) by {
            assert(is_digit(s[k]));
        }
        lemma_no_commas(t);
        assert(is_digit(s[s.len() - 1]));
        assert(t.push(s.last()) =~= s);
    }
}

/// Grouping only adds commas: without them the digits are as they were.
pub proof fn law_grouping_keeps_the_digits(s: Seq<char>)
    requires
        all_digits(s),
    ensures
        ungrouped(grouped(s)) == s,
    decreases s.len(),
{
    if s.len() <= 3 {
        lemma_no_commas(s);
    } else {
        let a = s.take(s.len() - 3);
        let b = s.skip(s.len() - 3);
        assert forall|k: int| 0 <= k < a.len() implies is_digit(#[trigger] a[k]) by {
            assert(is_digit(s[k]));
        }
        assert forall|k: int| 0 <= k < b.len() implies is_digit(#[trigger] b[k]) by {
            assert(is_digit(s[s.len() - 3 + k]));
        }
        law_grouping_keeps_the_digits(a);
        lemma_no_commas(b);
        let p = |c: char| c != ',';
        Seq::<char>::filter_distributes_over_add(grouped(a) + seq![','], b, p);
        Seq::<char>::filter_distributes_over_add(grouped(a), seq![','], p);
        assert(seq![','].filter(p) =~= Seq::<char>::empty()) by {
            reveal_with_fuel(Seq::filter, 2);
            assert(seq![','].drop_last() =~= Seq::<char>::empty());
        }
        assert(s =~= a + b);
        assert(a + Seq::<char>::empty() + b =~= s);
    }
}

/// The digits in groups of three from the right, with commas between.
pub fn group_thousands(digits: &Vec<char>) -> (r: Vec<char>)
    ensures
        r@ == grouped(digits@),
    decreases digits@.len(),
{
    let n: usize = digits.len();
    if n <= 3 {
        let r: Vec<char> = slice_of(digits, 0, n);
        assert(r@ =~= digits@);
        r
    } else {
        let front: Vec<char> = slice_of(digits, 0, n - 3);
        assert(front@ =~= digits@.take(n - 3));
        let mut r: Vec<char> = group_thousands(&front);
        r.push(',');
        let back: Vec<char> = slice_of(digits, n - 3, n);
        assert(back@ =~= digits@.skip(n - 3));
        push_all(&mut r, &back);
        assert(r@ =~= grouped(digits@));
        r
    }
}

// ── padding and cutting ──────────────────────────────────────────────────────

pub open spec fn repeated(c: char, n: int) -> Seq<char> {
    Seq::new(
        if n > 0 {
            n as nat
        } else {
            0
        },
        |i: int| c,
    )
}

/// The text with `c` before it, as often as it takes to be `width` long.
pub open spec fn padded_left(s: Seq<char>, c: char, width: nat) -> Seq<char> {
    repeated(c, width - s.len()) + s
}

/// The text with `c` after it, as often as it takes to be `width` long.
pub open spec fn padded_right(s: Seq<char>, c: char, width: nat) -> Seq<char> {
    s + repeated(c, width - s.len())
}

/// Writes `c` at the end of `out`, `n` times.
pub fn push_repeated(out: &mut Vec<char>, c: char, n: usize)
    ensures
        final(out)@ == old(out)@ + repeated(c, n as int),
{
    let ghost before = out@;
    assert(before + repeated(c, 0) =~= before);
    for i in 0..n
        invariant
            out@ == before + repeated(c, i as int),
    {
        out.push(c);
        assert(before + repeated(c, i + 1) =~= (before + repeated(c, i as int)).push(c));
    }
}

pub fn pad_left(s: &Vec<char>, c: char, width: usize) -> (r: Vec<char>)
    ensures
        r@ == padded_left(s@, c, width as nat),
{
    let mut r: Vec<char> = Vec::new();
    if s.len() < width {
        push_repeated(&mut r, c, width - s.len());
    }
    push_all(&mut r, s);
    assert(r@ =~= padded_left(s@, c, width as nat));
    r
}

/// The text without the run of `c` that it ends in.
pub open spec fn cut_tail(s: Seq<char>, c: char) -> Seq<char>
    decreases s.len(),
{
    if s.len() > 0 && s.last() == c {
        cut_tail(s.drop_last(), c)
    } else {
        s
    }
}

/// The text without trailing zeros, but at least `keep` long where it was.
pub open spec fn zeros_cut(s: Seq<char>, keep: nat) -> Seq<char>
    decreases s.len(),
{
    if s.len() > keep && s.last() == '0' {
        zeros_cut(s.drop_last(), keep)
    } else {
        s
    }
}

pub fn cut_zeros(s: &Vec<char>, keep: usize) -> (r: Vec<char>)
    ensures
        r@ == zeros_cut(s@, keep as nat),
{
    let mut r: Vec<char> = slice_of(s, 0, s.len());
    assert(r@ =~= s@);
    while r.len() > keep && r[r.len() - 1] == '0'
        invariant
            zeros_cut(r@, keep as nat) == zeros_cut(s@, keep as nat),
        decreases r@.len(),
    {
        let ghost before = r@;
        let c = r.pop();
        assert(r@ =~= before.drop_last());
    }
    r
}

pub open spec fn has_point(s: Seq<char>) -> bool {
    exists|k: int| 0 <= k < s.len() && #[trigger] s[k] == '.'
}

/// A decimal text without the zeros it ends in, nor a point left bare by that. A text
/// without a point is as it was.
pub open spec fn without_trailing_zeros(s: Seq<char>) -> Seq<char> {
    if has_point(s) {
        cut_tail(cut_tail(s, '0'), '.')
    } else {
        s
    }
}

fn cut(v: &mut Vec<char>, c: char)
    ensures
        final(v)@ == cut_tail(old(v)@, c),
{
    while v.len() > 0 && v[v.len() - 1] == c
        invariant
            cut_tail(v@, c) == cut_tail(old(v)@, c),
        decreases v@.len(),
    {
        let ghost before = v@;
        let last = v.pop();
        assert(v@ =~= before.drop_last());
    }
}

pub fn trim_zeros(s: &str) -> (r: String)
    ensures
        r@ == without_trailing_zeros(s@),
{
    let mut v: Vec<char> = chars_of(s);
    let mut point: bool = false;
    for i in 0..v.len()
        invariant
            v@ == s@,
            point == exists|k: int| 0 <= k < i && #[trigger] s@[k] == '.',
    {
        if v[i] == '.' {
            point = true;
        }
    }
    if point {
        cut(&mut v, '0');
        cut(&mut v, '.');
    }
    string_of(&v)
}

// ── General ──────────────────────────────────────────────────────────────────

/// Where a text's leading signs, zeros and points end.
pub open spec fn significant_from(s: Seq<char>, i: int) -> int
    decreases s.len() - i,
{
    if 0 <= i < s.len() && (s[i] == '-' || s[i] == '0' || s[i] == '.') {
        significant_from(s, i + 1)
    } else {
        i
    }
}

/// How many characters a decimal text has from its first significant digit on,
/// without points at its end.
pub open spec fn significant_len(s: Seq<char>) -> nat {
    cut_tail(s.skip(significant_from(s, 0)), '.').len()
}

/// General shows a value in at most eleven digits.
pub const GENERAL_DIGITS: usize = 11;

/// Whether the shortest decimal text of a value is longer than General shows.
pub fn too_long_for_general(s: &str) -> (r: bool)
    ensures
        r == (significant_len(s@) > GENERAL_DIGITS),
{
    let v: Vec<char> = chars_of(s);
    let mut i: usize = 0;
    while i < v.len() && (v[i] == '-' || v[i] == '0' || v[i] == '.')
        invariant
            i <= v@.len(),
            significant_from(v@, i as int) == significant_from(v@, 0),
        decreases v@.len() - i,
    {
        i = i + 1;
    }
    let mut rest: Vec<char> = slice_of(&v, i, v.len());
    assert(rest@ =~= v@.skip(i as int));
    cut(&mut rest, '.');
    rest.len() > GENERAL_DIGITS
}

} // verus!
