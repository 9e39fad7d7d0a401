//! How the code of a format is read, and what its sections are for.

use vstd::prelude::*;
use crate::chars::{ascii_lower, ascii_lower_all, decimal, trimmed};
use crate::numfmt::digits::{padded_left, zeros_cut};
use crate::numfmt::numbers::{
    deal, deal_token, dec_side, exponent_text, fill_of, int_side, largest_den, settled,
    shown_fraction, shown_number, Deal, Digits, Fill, Ratio,
};
use crate::numfmt::sections::{
    count, first, last_before, lemma_count_bound, minutes_resolved, num_spec_of, solid_before,
    solid_from, FracSpec, NumSpec, SectionView, What,
};
use crate::numfmt::tokens::{
    ink_named, run, run_ci, token_step, until, with_lit, Ink, Step, Tok, Token, Unit,
};
use crate::numfmt::{selected, shown, shown_text, text_piece, text_pieces, Amount, Sign};

verus! {

// ── letters and signs ────────────────────────────────────────────────────────

/// The same letter stands `n` times from `i` on, in either case, and no more often.
pub open spec fn letters(cs: Seq<char>, i: int, l: char, n: int) -> bool {
    &&& 0 <= i && n >= 1 && i + n <= cs.len()
    &&& forall|k: int| i <= k < i + n ==> ascii_lower(#[trigger] cs[k]) == l
    &&& i + n < cs.len() ==> ascii_lower(cs[i + n]) != l
}

proof fn lemma_run_ci(cs: Seq<char>, i: int, l: char, n: int)
    requires
        0 <= i && n >= 0 && i + n <= cs.len(),
        forall|k: int| i <= k < i + n ==> ascii_lower(#[trigger] cs[k]) == l,
        i + n < cs.len() ==> ascii_lower(cs[i + n]) != l,
    ensures
        run_ci(cs, i, l) == n,
    decreases n,
{
    if n > 0 {
        assert(ascii_lower(cs[i]) == l);
        lemma_run_ci(cs, i + 1, l, n - 1);
    }
}

/// The least of two.
pub open spec fn less(a: int, b: int) -> int {
    if a < b {
        a
    } else {
        b
    }
}

/// The letters of a date are read as runs: years in two digits or in four, months and days
/// by the length of the run, hours, minutes and seconds in one digit or two. A run is read
/// whole.
pub proof fn law_letters_of_dates(
    cs: Seq<char>,
    i: int,
    toks: Seq<Token>,
    color: Option<Ink>,
    n: int,
)
    ensures
        ({
            let s = token_step(cs, i, toks, color);
            &&& letters(cs, i, 'y', n) ==> s.next == i + n && s.toks == toks.push(
                Tok::Year(if n <= 2 { 2 } else { 4 }),
            )
            &&& letters(cs, i, 'm', n) ==> s.next == i + n && s.toks == toks.push(
                Tok::Month(less(n, 5) as u8),
            )
            &&& letters(cs, i, 'd', n) ==> s.next == i + n && s.toks == toks.push(
                Tok::Day(less(n, 4) as u8),
            )
            &&& letters(cs, i, 'h', n) ==> s.next == i + n && s.toks == toks.push(
                Tok::Hour(less(n, 2) as u8),
            )
            &&& letters(cs, i, 's', n) ==> s.next == i + n && s.toks == toks.push(
                Tok::Second(less(n, 2) as u8),
            )
        }),
{
    if letters(cs, i, 'y', n) {
        assert(ascii_lower(cs[i]) == 'y');
        lemma_run_ci(cs, i, 'y', n);
    }
    if letters(cs, i, 'm', n) {
        assert(ascii_lower(cs[i]) == 'm');
        lemma_run_ci(cs, i, 'm', n);
    }
    if letters(cs, i, 'd', n) {
        assert(ascii_lower(cs[i]) == 'd');
        lemma_run_ci(cs, i, 'd', n);
    }
    if letters(cs, i, 'h', n) {
        assert(ascii_lower(cs[i]) == 'h');
        lemma_run_ci(cs, i, 'h', n);
    }
    if letters(cs, i, 's', n) {
        assert(ascii_lower(cs[i]) == 's');
        lemma_run_ci(cs, i, 's', n);
    }
}

/// Signs that stand for themselves, and those that change what follows: a quoted text and
/// a character behind a backslash are shown as they are, an underscore leaves a blank, and
/// a star nothing.
pub proof fn law_signs(cs: Seq<char>, i: int, toks: Seq<Token>, color: Option<Ink>)
    requires
        0 <= i < cs.len(),
    ensures
        ({
            let s = token_step(cs, i, toks, color);
            let c = cs[i];
            &&& c == '0' || c == '#' || c == '?' ==> s.toks == toks.push(Tok::Digit(c)) && s.next
                == i + 1
            &&& c == ',' ==> s.toks == toks.push(Tok::Comma) && s.next == i + 1
            &&& c == '%' ==> s.toks == toks.push(Tok::Percent) && s.next == i + 1
            &&& c == '/' ==> s.toks == toks.push(Tok::Slash) && s.next == i + 1
            &&& c == '@' ==> s.toks == toks.push(Tok::At) && s.next == i + 1
            &&& c == '_' && i + 1 < cs.len() ==> s.toks == toks.push(Tok::Skip) && s.next == i + 2
            &&& c == '*' && i + 1 < cs.len() ==> s.toks == toks.push(Tok::Fill) && s.next == i + 2
            &&& c == '\\' && i + 1 < cs.len() && (toks.len() == 0 || !(toks.last() is Lit))
                ==> s.toks == toks.push(Tok::Lit(seq![cs[i + 1]])) && s.next == i + 2
            &&& (c == 'E' || c == 'e') && i + 1 < cs.len() && cs[i + 1] == '+' ==> s.toks
                == toks.push(Tok::Exp(true)) && s.next == i + 2
            &&& (c == 'E' || c == 'e') && i + 1 < cs.len() && cs[i + 1] == '-' ==> s.toks
                == toks.push(Tok::Exp(false)) && s.next == i + 2
            &&& c == ' ' || c == '-' || c == ':' || c == '(' || c == ')' || c == '$' || c == '+'
                ==> s.next == i + 1 && s.toks == with_lit(toks, seq![c])
            &&& c != '[' ==> s.color == color
        }),
{
}

proof fn lemma_until(cs: Seq<char>, i: int, c: char, j: int)
    requires
        0 <= i <= j <= cs.len(),
        forall|k: int| i <= k < j ==> #[trigger] cs[k] != c,
        j < cs.len() ==> cs[j] == c,
    ensures
        until(cs, i, c) == j,
    decreases j - i,
{
    if i < j {
        assert(cs[i] != c);
        lemma_until(cs, i + 1, c, j);
    }
}

/// A text between quotes is shown as it is, whatever it holds, and joins the text before
/// it.
pub proof fn law_quoted_text(cs: Seq<char>, i: int, j: int, toks: Seq<Token>, color: Option<Ink>)
    requires
        0 <= i < j < cs.len(),
        cs[i] == '"',
        cs[j] == '"',
        forall|k: int| i < k < j ==> #[trigger] cs[k] != '"',
    ensures
        token_step(cs, i, toks, color).next == j + 1,
        j > i + 1 && (toks.len() == 0 || !(toks.last() is Lit)) ==> token_step(
            cs,
            i,
            toks,
            color,
        ).toks == toks.push(Tok::Lit(cs.subrange(i + 1, j))),
        j > i + 1 && toks.len() > 0 && toks.last() is Lit ==> token_step(cs, i, toks, color).toks
            == toks.drop_last().push(Tok::Lit(toks.last()->Lit_0 + cs.subrange(i + 1, j))),
        j == i + 1 ==> token_step(cs, i, toks, color).toks == toks,
{
    lemma_until(cs, i + 1, '"', j);
}

proof fn lemma_run(cs: Seq<char>, i: int, c: char, n: int)
    requires
        0 <= i && n >= 0 && i + n <= cs.len(),
        forall|k: int| i <= k < i + n ==> #[trigger] cs[k] == c,
        i + n < cs.len() ==> cs[i + n] != c,
    ensures
        run(cs, i, c) == n,
    decreases n,
{
    if n > 0 {
        assert(cs[i] == c);
        lemma_run(cs, i + 1, c, n - 1);
    }
}

/// A point and zeros behind the seconds are the rest of a second, in as many digits; a
/// point anywhere else is a decimal point.
pub proof fn law_points(cs: Seq<char>, i: int, n: int, toks: Seq<Token>, color: Option<Ink>)
    requires
        0 <= i < cs.len(),
        cs[i] == '.',
        0 <= n && i + 1 + n <= cs.len(),
        forall|k: int| i + 1 <= k < i + 1 + n ==> #[trigger] cs[k] == '0',
        i + 1 + n < cs.len() ==> cs[i + 1 + n] != '0',
    ensures
        ({
            let s = token_step(cs, i, toks, color);
            let timed = exists|k: int| 0 <= k < toks.len() && (#[trigger] toks[k]) is Second;
            &&& timed && n > 0 ==> s.toks == toks.push(Tok::SubSec(less(n, 9) as u8)) && s.next == i
                + 1 + n
            &&& !timed || n == 0 ==> s.toks == toks.push(Tok::Dot) && s.next == i + 1
        }),
{
    lemma_run(cs, i + 1, '0', n);
}

/// The colours that a bracket can name, and how they look.
pub proof fn law_colours_by_name()
    ensures
        ink_named("black"@) == Some(Ink::Black) && Ink::Black.css_text() == "#000000"@,
        ink_named("blue"@) == Some(Ink::Blue) && Ink::Blue.css_text() == "#0000ff"@,
        ink_named("cyan"@) == Some(Ink::Cyan) && Ink::Cyan.css_text() == "#00ffff"@,
        ink_named("green"@) == Some(Ink::Green) && Ink::Green.css_text() == "#008000"@,
        ink_named("magenta"@) == Some(Ink::Magenta) && Ink::Magenta.css_text() == "#ff00ff"@,
        ink_named("red"@) == Some(Ink::Red) && Ink::Red.css_text() == "#ff0000"@,
        ink_named("white"@) == Some(Ink::White) && Ink::White.css_text() == "#ffffff"@,
        ink_named("yellow"@) == Some(Ink::Yellow) && Ink::Yellow.css_text() == "#ffff00"@,
{
    reveal_strlit("black");
    reveal_strlit("blue");
    reveal_strlit("cyan");
    reveal_strlit("green");
    reveal_strlit("magenta");
    reveal_strlit("red");
    reveal_strlit("white");
    reveal_strlit("yellow");
    assert("black"@[2] == 'a' && "blue"@[2] == 'u');
    assert("black"@[0] == 'b' && "blue"@[0] == 'b' && "cyan"@[0] == 'c' && "green"@[0] == 'g'
        && "magenta"@[0] == 'm' && "red"@[0] == 'r' && "white"@[0] == 'w' && "yellow"@[0] == 'y');
}

/// A bracket that holds a colour sets it and shows nothing; one that holds hours, minutes or
/// seconds counts what has passed in them; any other shows nothing.
pub proof fn law_brackets(cs: Seq<char>, i: int, j: int, toks: Seq<Token>, color: Option<Ink>)
    requires
        0 <= i < j < cs.len(),
        cs[i] == '[',
        cs[j] == ']',
        forall|k: int| i < k < j ==> #[trigger] cs[k] != ']',
    ensures
        ({
            let s = token_step(cs, i, toks, color);
            let word = ascii_lower_all(trimmed(cs.subrange(i + 1, j)));
            let ink = ink_named(word);
            &&& s.next == j + 1
            &&& ink is Some ==> s.color == ink && s.toks == toks
            &&& ink is None ==> s.color == color
            &&& ink is None && word.len() > 0 && (forall|k: int|
                0 <= k < word.len() ==> #[trigger] word[k] == 'h') ==> s.toks == toks.push(
                Tok::Elapsed(Unit::Hour, less(word.len() as int, 2) as u8),
            )
            &&& ink is None && word.len() > 0 && (forall|k: int|
                0 <= k < word.len() ==> #[trigger] word[k] == 'm') ==> s.toks == toks.push(
                Tok::Elapsed(Unit::Minute, less(word.len() as int, 2) as u8),
            )
            &&& ink is None && word.len() > 0 && (forall|k: int|
                0 <= k < word.len() ==> #[trigger] word[k] == 's') ==> s.toks == toks.push(
                Tok::Elapsed(Unit::Second, less(word.len() as int, 2) as u8),
            )
            &&& ink is None && word.len() > 0 && word[0] != 'h' && word[0] != 'm' && word[0] != 's'
                ==> s.toks == toks
        }),
{
    lemma_until(cs, i + 1, ']', j);
}

/// Which half of the day: `AM/PM` and `A/P`, in either case.
pub proof fn law_marks_of_the_half_day(
    cs: Seq<char>,
    i: int,
    toks: Seq<Token>,
    color: Option<Ink>,
)
    requires
        0 <= i,
    ensures
        i + 5 <= cs.len() && ascii_lower_all(cs.subrange(i, i + 5)) == "am/pm"@ ==> token_step(
            cs,
            i,
            toks,
            color,
        ) == (Step { toks: toks.push(Tok::Ampm(true)), color, next: i + 5 }),
        i + 3 == cs.len() && ascii_lower_all(cs.subrange(i, i + 3)) == "a/p"@ ==> token_step(
            cs,
            i,
            toks,
            color,
        ) == (Step { toks: toks.push(Tok::Ampm(false)), color, next: i + 3 }),
{
    reveal_strlit("am/pm");
    reveal_strlit("a/p");
    if i + 5 <= cs.len() && ascii_lower_all(cs.subrange(i, i + 5)) == "am/pm"@ {
        let t = ascii_lower_all(cs.subrange(i, i + 5));
        assert(t[0] == 'a');
        assert(t[0] == ascii_lower(cs[i]));
        assert(t[1] == 'm');
        assert(t[1] == ascii_lower(cs[i + 1]));
        assert("am/pm"@.is_prefix_of(t));
    }
    if i + 3 == cs.len() && ascii_lower_all(cs.subrange(i, i + 3)) == "a/p"@ {
        let t = ascii_lower_all(cs.subrange(i, i + 3));
        assert(t[0] == 'a');
        assert(t[0] == ascii_lower(cs[i]));
        assert(t[1] == '/');
        assert("a/p"@.is_prefix_of(t));
        assert(!"am/pm"@.is_prefix_of(t));
    }
}

// ── minutes and months ───────────────────────────────────────────────────────

proof fn lemma_solid_before(toks: Seq<Token>, k: int, b: int)
    requires
        0 <= b < k <= toks.len(),
        !toks[b].separator(),
        forall|j: int| b < j < k ==> (#[trigger] toks[j]).separator(),
    ensures
        solid_before(toks, k) == b,
    decreases k - b,
{
    if k - 1 > b {
        assert(toks[k - 1].separator());
        lemma_solid_before(toks, k - 1, b);
    }
}

proof fn lemma_solid_from(toks: Seq<Token>, k: int, a: int)
    requires
        0 <= k <= a < toks.len(),
        !toks[a].separator(),
        forall|j: int| k <= j < a ==> (#[trigger] toks[j]).separator(),
    ensures
        solid_from(toks, k) == a,
    decreases a - k,
{
    if k < a {
        assert(toks[k].separator());
        lemma_solid_from(toks, k + 1, a);
    }
}

/// An `m` behind the hours is minutes, and so is one before the seconds, with nothing but
/// text between; it keeps its width. Three or more are always a month, and so is an `m`
/// beside a year or a day.
pub proof fn law_minutes_stand_by_hours_and_seconds(toks: Seq<Token>, k: int, b: int, a: int)
    requires
        0 <= k < toks.len(),
        toks[k] is Month,
    ensures
        ({
            let t = minutes_resolved(toks);
            let n = toks[k]->Month_0;
            &&& t.len() == toks.len()
            &&& n <= 2 && 0 <= b < k && (toks[b] is Hour || toks[b] is Elapsed
                && toks[b]->Elapsed_0 == Unit::Hour) && (forall|j: int|
                b < j < k ==> (#[trigger] toks[j]) is Lit) ==> t[k] == Tok::<Seq<char>>::Minute(n)
            &&& n <= 2 && k < a < toks.len() && toks[a] is Second && (forall|j: int|
                k < j < a ==> (#[trigger] toks[j]) is Lit) ==> t[k] == Tok::<Seq<char>>::Minute(n)
            &&& n > 2 ==> t[k] == toks[k]
            &&& 0 <= b < k < a < toks.len() && (toks[b] is Year || toks[b] is Day
                || toks[b] is Month)
                && (toks[a] is Year || toks[a] is Day) && (forall|j: int|
                b < j < k ==> (#[trigger] toks[j]).separator()) && (forall|j: int|
                k < j < a ==> (#[trigger] toks[j]).separator()) ==> t[k] == toks[k]
            &&& forall|j: int| 0 <= j < toks.len() && !(toks[j] is Month)
                ==> #[trigger] t[j] == toks[j]
        }),
{
    if 0 <= b < k && !toks[b].separator() && (forall|j: int|
        b < j < k ==> (#[trigger] toks[j]).separator()) {
        lemma_solid_before(toks, k, b);
    }
    if k < a < toks.len() && !toks[a].separator() && (forall|j: int|
        k < j < a ==> (#[trigger] toks[j]).separator()) {
        lemma_solid_from(toks, k + 1, a);
    }
}

// ── sections ─────────────────────────────────────────────────────────────────

/// Which section a value takes: the only one; or, of two, the second where the value is
/// below zero; or, of three and more, the first for values above zero, the second for those
/// below, and the third for zero.
pub proof fn law_sections_by_sign(n: nat)
    requires
        n >= 1,
    ensures
        selected(n, Sign::Positive) == 0,
        n == 1 ==> selected(n, Sign::Negative) == 0 && selected(n, Sign::Zero) == 0,
        n == 2 ==> selected(n, Sign::Negative) == 1 && selected(n, Sign::Zero) == 0,
        n >= 3 ==> selected(n, Sign::Negative) == 1 && selected(n, Sign::Zero) == 2,
{
}

/// Text takes the fourth section: what it quotes stands around the text, in order, and
/// each `@` is the text. A format of fewer sections shows text as it is.
pub proof fn law_text_takes_the_fourth_section(
    sections: Seq<SectionView>,
    s: Seq<char>,
    a: Seq<Token>,
    b: Seq<Token>,
    l: Seq<char>,
)
    ensures
        sections.len() < 4 ==> shown_text(sections, s) == s,
        text_pieces(a + b, s) == text_pieces(a, s) + text_pieces(b, s),
        text_pieces(seq![Tok::At], s) == s,
        text_pieces(seq![Tok::Lit(l)], s) == l,
        text_pieces(seq![Tok::Skip], s) == seq![' '],
    decreases b.len(),
{
    assert forall|t: Token| #[trigger] text_pieces(seq![t], s) == text_piece(t, s) by {
        assert(seq![t].drop_last() =~= Seq::<Token>::empty());
        assert(text_pieces(seq![t].drop_last(), s) =~= Seq::<char>::empty());
        assert(text_pieces(seq![t], s) =~= text_piece(t, s));
    }
    if b.len() == 0 {
        assert(a + b =~= a);
        assert(text_pieces(a, s) + text_pieces(b, s) =~= text_pieces(a, s));
    } else {
        law_text_takes_the_fourth_section(sections, s, a, b.drop_last(), l);
        assert((a + b).drop_last() =~= a + b.drop_last());
        assert(text_pieces(a + b, s) =~= text_pieces(a, s) + text_pieces(b, s));
    }
}

// ── numbers ──────────────────────────────────────────────────────────────────

/// The digits before the point: as many as the section has zeros at the least, the number's
/// own digits at the end, and nothing for a zero that no zero asks for.
pub proof fn law_digits_before_the_point(spec: NumSpec, digits: Seq<char>)
    requires
        !spec.thousands,
        spec.int_pad == spec.int_zeros,
    ensures
        ({
            let t = int_side(spec, digits);
            &&& t.len() >= spec.int_zeros
            &&& digits != "0"@ ==> t.len() == (if digits.len() > spec.int_zeros {
                digits.len()
            } else {
                spec.int_zeros as nat
            }) && t.skip(t.len() - digits.len()) == digits && forall|k: int|
                0 <= k < t.len() - digits.len() ==> #[trigger] t[k] == '0'
            &&& digits == "0"@ && spec.int_zeros == 0 ==> t.len() == 0
        }),
{
    let t = int_side(spec, digits);
    if digits != "0"@ {
        assert(t =~= padded_left(digits, '0', spec.int_zeros as nat));
        assert(t.skip(t.len() - digits.len()) =~= digits);
    }
}

/// The digits behind the point: as many as the section has zeros at the least, and beyond
/// them no zeros at the end.
pub proof fn law_digits_behind_the_point(spec: NumSpec, digits: Seq<char>)
    requires
        spec.dec_pad == spec.dec_zeros,
        digits.len() >= spec.dec_zeros,
    ensures
        ({
            let t = dec_side(spec, digits);
            &&& spec.dec_zeros <= t.len() <= digits.len()
            &&& t == digits.take(t.len() as int)
            &&& t.len() > spec.dec_zeros ==> t.last() != '0'
            &&& forall|k: int| t.len() <= k < digits.len() ==> #[trigger] digits[k] == '0'
        }),
{
    lemma_zeros_cut(digits, spec.dec_zeros as nat);
    assert(dec_side(spec, digits) =~= zeros_cut(digits, spec.dec_zeros as nat));
}

proof fn lemma_zeros_cut(s: Seq<char>, keep: nat)
    requires
        s.len() >= keep,
    ensures
        keep <= zeros_cut(s, keep).len() <= s.len(),
        zeros_cut(s, keep) == s.take(zeros_cut(s, keep).len() as int),
        zeros_cut(s, keep).len() > keep ==> zeros_cut(s, keep).last() != '0',
        forall|k: int| zeros_cut(s, keep).len() <= k < s.len() ==> #[trigger] s[k] == '0',
    decreases s.len(),
{
    if s.len() > keep && s.last() == '0' {
        lemma_zeros_cut(s.drop_last(), keep);
        let t = zeros_cut(s, keep);
        assert(t =~= s.take(t.len() as int));
        assert forall|k: int| t.len() <= k < s.len() implies #[trigger] s[k] == '0' by {
            if k < s.len() - 1 {
                assert(s.drop_last()[k] == '0');
            }
        }
    } else {
        assert(s.take(s.len() as int) =~= s);
    }
}

/// An exponent: a minus sign where it is below zero, a plus sign where one is asked for and
/// it is not, and its digits in the width asked for.
pub proof fn law_exponents(exp: int, plus: bool, width: nat)
    ensures
        ({
            let t = exponent_text(exp, plus, width);
            let m = if exp < 0 {
                decimal((-exp) as nat)
            } else {
                decimal(exp as nat)
            };
            &&& exp < 0 ==> t[0] == '-' && t.skip(1) == padded_left(m, '0', width)
            &&& exp >= 0 && plus ==> t[0] == '+' && t.skip(1) == padded_left(m, '0', width)
            &&& exp >= 0 && !plus ==> t == padded_left(m, '0', width)
            &&& padded_left(m, '0', width).len() >= width
        }),
{
    let t = exponent_text(exp, plus, width);
    let m = if exp < 0 {
        decimal((-exp) as nat)
    } else {
        decimal(exp as nat)
    };
    if exp < 0 || plus {
        assert(t.skip(1) =~= padded_left(m, '0', width));
    } else {
        assert(t =~= padded_left(m, '0', width));
    }
}

// ── fractions ────────────────────────────────────────────────────────────────

/// A fraction keeps its value when what is a whole goes to the wholes, and what is left is
/// less than one. As many digits below the line as the section has places are the most that
/// a denominator has.
pub proof fn law_fractions_keep_their_value(spec: FracSpec, r: Ratio)
    requires
        r.den > 0,
        r.whole + r.num <= u64::MAX,
    ensures
        ({
            let t = settled(spec, r);
            &&& spec.has_whole && t.num > 0 ==> t.den == r.den && t.num < t.den && t.whole * t.den
                + t.num == r.whole * r.den + r.num
            &&& spec.has_whole && t.num == 0 ==> t.den == 1 && t.whole * r.den == r.whole * r.den
                + r.num
            &&& !spec.has_whole ==> t.whole == r.whole
            &&& !spec.has_whole && 0 < r.num < r.den ==> t.num == r.num && t.den == r.den
        }),
        spec.den_fixed is Some ==> largest_den(spec) == spec.den_fixed->0,
        spec.den_fixed is None && spec.den_places == 1 ==> largest_den(spec) == 9,
        spec.den_fixed is None && spec.den_places == 2 ==> largest_den(spec) == 99,
        spec.den_fixed is None && spec.den_places == 3 ==> largest_den(spec) == 999,
        spec.den_fixed is None && spec.den_places == 4 ==> largest_den(spec) == 9999,
{
    let q = r.num as int / r.den as int;
    let m = r.num as int % r.den as int;
    assert(r.num == q * r.den + m && 0 <= m < r.den && q >= 0 && q <= r.num) by (nonlinear_arith)
        requires
            r.den > 0,
            q == r.num as int / r.den as int,
            m == r.num as int % r.den as int,
    ;
    assert((r.whole + q) * r.den == r.whole * r.den + q * r.den) by (nonlinear_arith);
    assert(r.num < r.den ==> q == 0) by (nonlinear_arith)
        requires
            r.den > 0,
            q == r.num as int / r.den as int,
    ;
}

// ── signs ────────────────────────────────────────────────────────────────────

/// Two dealings that differ in a sign before the one.
spec fn signed_alike(a: Deal, b: Deal) -> bool {
    &&& a.out == seq!['-'] + b.out
    &&& a.int_slot == b.int_slot && a.int_pos == b.int_pos && a.dec_slot == b.dec_slot && a.dec_pos
        == b.dec_pos && a.past_dot == b.past_dot && a.exp_done == b.exp_done
}

proof fn lemma_after_sign(b: Seq<char>, l: Seq<char>)
    ensures
        (seq!['-'] + b) + l == seq!['-'] + (b + l),
        forall|c: char| #[trigger] (seq!['-'] + b).push(c) == seq!['-'] + b.push(c),
{
    assert((seq!['-'] + b) + l =~= seq!['-'] + (b + l));
    assert forall|c: char| #[trigger] (seq!['-'] + b).push(c) == seq!['-'] + b.push(c) by {
        assert((seq!['-'] + b).push(c) =~= seq!['-'] + b.push(c));
    }
}

proof fn lemma_token_signed(t: Token, a: Deal, b: Deal, f: Fill)
    requires
        signed_alike(a, b),
    ensures
        signed_alike(deal_token(t, a, f), deal_token(t, b, f)),
{
    lemma_after_sign(b.out, Seq::empty());
    match t {
        Tok::Lit(l) => lemma_after_sign(b.out, l),
        Tok::At => lemma_after_sign(b.out, f.general),
        Tok::Digit(_) => {
            let y = deal_token(t, b, f);
            if b.past_dot {
                lemma_after_sign(b.out, f.decs.subrange(b.dec_pos as int, y.dec_pos as int));
            } else {
                lemma_after_sign(b.out, f.ints.subrange(b.int_pos as int, y.int_pos as int));
            }
        },
        Tok::Dot => {
            lemma_after_sign(b.out, f.ints);
            lemma_after_sign(b.out + f.ints, Seq::empty());
        },
        Tok::Exp(_) => {
            lemma_after_sign(b.out, f.ints);
            lemma_after_sign(b.out + f.ints, Seq::empty());
            lemma_after_sign(b.out.push('E'), f.exponent);
            lemma_after_sign((b.out + f.ints).push('E'), f.exponent);
        },
        _ => {},
    }
}

proof fn lemma_deal_signed(toks: Seq<Token>, f: Fill)
    ensures
        signed_alike(deal(toks, f, true), deal(toks, f, false)),
    decreases toks.len(),
{
    if toks.len() > 0 {
        let d = toks.drop_last();
        lemma_deal_signed(d, f);
        lemma_token_signed(toks.last(), deal(d, f, true), deal(d, f, false), f);
    } else {
        assert(seq!['-'] + Seq::<char>::empty() =~= seq!['-']);
    }
}

/// A format of one section writes the sign of a value below zero itself, before all else;
/// of more, a section writes no sign but its own.
pub proof fn law_signs_of_numbers(
    sections: Seq<SectionView>,
    sec: SectionView,
    d: Digits,
    r: Ratio,
    date1904: bool,
)
    ensures
        shown_number(sec, Some(d), true) == seq!['-'] + shown_number(sec, Some(d), false),
        shown_fraction(sec, Some(r), true) == seq!['-'] + shown_fraction(sec, Some(r), false),
        sections == seq![sec] && !sec.hides() ==> ({
            &&& shown(sections, Sign::Negative, Amount::Number(Some(d)), date1904) == shown_number(
                sec,
                Some(d),
                true,
            )
            &&& shown(sections, Sign::Positive, Amount::Number(Some(d)), date1904) == shown_number(
                sec,
                Some(d),
                false,
            )
            &&& shown(sections, Sign::Negative, Amount::Fraction(Some(r)), date1904)
                == shown_fraction(sec, Some(r), true)
        }),
        sections.len() >= 2 && sections[1] == sec && !sec.hides() ==> ({
            &&& shown(sections, Sign::Negative, Amount::Number(Some(d)), date1904) == shown_number(
                sec,
                Some(d),
                false,
            )
            &&& shown(sections, Sign::Negative, Amount::Fraction(Some(r)), date1904)
                == shown_fraction(sec, Some(r), false)
        }),
{
    let f = fill_of(sec.num, d);
    lemma_deal_signed(sec.toks, f);
    assert(shown_number(sec, Some(d), true) =~= seq!['-'] + shown_number(sec, Some(d), false));
    assert(shown_fraction(sec, Some(r), true) =~= seq!['-'] + shown_fraction(sec, Some(r), false));
}

// ── dealing out the digits ───────────────────────────────────────────────────

/// Nothing but placeholders.
pub open spec fn all_places(toks: Seq<Token>) -> bool {
    forall|k: int| 0 <= k < toks.len() ==> (#[trigger] toks[k]) is Digit
}

proof fn lemma_ints_dealt(toks: Seq<Token>, f: Fill)
    requires
        all_places(toks),
        toks.len() <= f.spec.int_all,
    ensures
        ({
            let d = deal(toks, f, false);
            let len = f.ints.len() as int;
            let j = toks.len() as int;
            let n = f.spec.int_all as int;
            let pos = if j == 0 {
                0
            } else if len >= n {
                len - (n - j)
            } else {
                less(j - 1, len)
            };
            &&& d.out == f.ints.take(pos) && d.int_pos == pos && d.int_slot == j
            &&& !d.past_dot && d.dec_pos == 0 && d.dec_slot == 0
        }),
    decreases toks.len(),
{
    let d = deal(toks, f, false);
    if toks.len() > 0 {
        let t = toks.drop_last();
        assert(toks[toks.len() - 1] is Digit);
        lemma_ints_dealt(t, f);
        let b = deal(t, f, false);
        assert(d.out =~= f.ints.take(d.int_pos as int));
    } else {
        assert(f.ints.take(0) =~= Seq::<char>::empty());
    }
}

proof fn lemma_decs_dealt(a: Seq<Token>, b: Seq<Token>, f: Fill)
    requires
        all_places(a),
        all_places(b),
        a.len() == f.spec.int_all,
        a.len() > 0,
        b.len() <= f.spec.dec_places,
    ensures
        ({
            let d = deal(a.push(Tok::Dot) + b, f, false);
            let len = f.decs.len() as int;
            let j = b.len() as int;
            let pos = if j >= f.spec.dec_places && j > 0 {
                len
            } else {
                less(j, len)
            };
            &&& d.out == f.ints + (if len > 0 {
                seq!['.']
            } else {
                Seq::empty()
            }) + f.decs.take(pos)
            &&& d.dec_pos == pos && d.dec_slot == j && d.past_dot && d.int_pos == f.ints.len()
        }),
    decreases b.len(),
{
    let all = a.push(Tok::Dot) + b;
    let d = deal(all, f, false);
    if b.len() > 0 {
        let t = b.drop_last();
        assert(b[b.len() - 1] is Digit);
        lemma_decs_dealt(a, t, f);
        assert(all.drop_last() =~= a.push(Tok::Dot) + t);
        let e = deal(all.drop_last(), f, false);
        let dot = if f.decs.len() > 0 {
            seq!['.']
        } else {
            Seq::empty()
        };
        assert(d.out == e.out + f.decs.subrange(e.dec_pos as int, d.dec_pos as int));
        assert(f.decs.take(e.dec_pos as int) + f.decs.subrange(
            e.dec_pos as int,
            d.dec_pos as int,
        ) =~= f.decs.take(d.dec_pos as int));
        assert(d.out =~= f.ints + dot + f.decs.take(d.dec_pos as int));
    } else {
        assert(all =~= a.push(Tok::Dot));
        assert(all.drop_last() =~= a);
        lemma_ints_dealt(a, f);
        assert(f.ints.take(f.ints.len() as int) =~= f.ints);
        assert(f.decs.take(0) =~= Seq::<char>::empty());
        if f.decs.len() > 0 {
            assert(d.out =~= f.ints + seq!['.'] + f.decs.take(0));
        } else {
            assert(d.out =~= f.ints + Seq::<char>::empty() + f.decs.take(0));
        }
    }
}

/// A section of placeholders shows all the digits of a number, in their order: those before
/// the point, the point where there are digits behind it, and those. However many more
/// digits a number has before the point than there are places, none is lost.
pub proof fn law_a_number_shows_its_digits(sec: SectionView, d: Digits, a: Seq<Token>, b: Seq<Token>)
    requires
        all_places(a),
        all_places(b),
        a.len() > 0,
        b.len() > 0,
        sec.num.int_all == a.len(),
        sec.num.dec_places == b.len(),
    ensures
        sec.toks == a.push(Tok::Dot) + b ==> shown_number(sec, Some(d), false) == int_side(
            sec.num,
            d.ints@,
        ) + (if dec_side(sec.num, d.decs@).len() > 0 {
            seq!['.']
        } else {
            Seq::empty()
        }) + dec_side(sec.num, d.decs@),
        sec.toks == a ==> shown_number(sec, Some(d), false) == int_side(sec.num, d.ints@),
{
    let f = fill_of(sec.num, d);
    lemma_ints_dealt(a, f);
    lemma_decs_dealt(a, b, f);
    assert(f.ints.take(f.ints.len() as int) =~= f.ints);
    assert(f.decs.take(f.decs.len() as int) =~= f.decs);
    if sec.toks == a {
        assert(shown_number(sec, Some(d), false) =~= f.ints);
    }
    if sec.toks == a.push(Tok::Dot) + b {
        let dot = if f.decs.len() > 0 {
            seq!['.']
        } else {
            Seq::empty()
        };
        assert(shown_number(sec, Some(d), false) =~= f.ints + dot + f.decs);
    }
}

// ── what a section asks for ──────────────────────────────────────────────────

proof fn lemma_first_is(toks: Seq<Token>, i: int, w: What, k: int)
    requires
        0 <= i <= k <= toks.len(),
        forall|j: int| i <= j < k ==> !w.has(#[trigger] toks[j]),
        k < toks.len() ==> w.has(toks[k]),
    ensures
        first(toks, i, w) == k,
    decreases k - i,
{
    if i < k {
        assert(!w.has(toks[i]));
        lemma_first_is(toks, i + 1, w, k);
    }
}

/// No point and no exponent.
pub open spec fn no_marks(toks: Seq<Token>) -> bool {
    forall|k: int| 0 <= k < toks.len() ==> !((#[trigger] toks[k]) is Dot) && !(toks[k] is Exp)
}

/// What stands before the point is asked for before it, and what stands behind it behind
/// it: so many places, so many of them always shown. Percent signs count wherever they
/// stand.
pub proof fn law_places_before_and_behind_the_point(a: Seq<Token>, b: Seq<Token>)
    requires
        no_marks(a),
        no_marks(b),
        a.len() + b.len() < 1000,
    ensures
        ({
            let s = num_spec_of(a.push(Tok::Dot) + b);
            &&& s.int_all == count(a, What::Digit) && s.int_zeros == count(a, What::Zero)
            &&& s.dec_places == count(b, What::Digit) && s.dec_zeros == count(b, What::Zero)
            &&& s.percent == count(a, What::Percent) + count(b, What::Percent)
            &&& !s.sci
        }),
        ({
            let s = num_spec_of(a);
            &&& s.int_all == count(a, What::Digit) && s.int_zeros == count(a, What::Zero)
            &&& s.dec_places == 0 && s.dec_zeros == 0
            &&& s.percent == count(a, What::Percent)
            &&& !s.sci
        }),
{
    let t = a.push(Tok::Dot) + b;
    assert forall|j: int| 0 <= j < t.len() implies !What::Exp.has(#[trigger] t[j]) by {
        if j < a.len() {
            assert(t[j] == a[j]);
        } else if j > a.len() {
            assert(t[j] == b[j - a.len() - 1]);
        }
    }
    assert forall|j: int| 0 <= j < a.len() implies !What::Dot.has(#[trigger] t[j]) by {
        assert(t[j] == a[j]);
    }
    assert(t[a.len() as int] is Dot);
    lemma_first_is(t, 0, What::Dot, a.len() as int);
    lemma_first_is(t, 0, What::Exp, t.len() as int);
    assert(t.take(a.len() as int) =~= a);
    assert(t.subrange((a.len() + 1) as int, t.len() as int) =~= b);
    lemma_first_is(a, 0, What::Dot, a.len() as int);
    lemma_first_is(a, 0, What::Exp, a.len() as int);
    assert(a.take(a.len() as int) =~= a);
    lemma_count_bound(a, What::Digit);
    lemma_count_bound(a, What::Zero);
    lemma_count_bound(a, What::Percent);
    lemma_count_bound(b, What::Digit);
    lemma_count_bound(b, What::Zero);
    lemma_count_bound(b, What::Percent);
    assert(count(Seq::<Token>::empty(), What::Percent) == 0);
    assert(count(Seq::<Token>::empty(), What::Digit) == 0);
    assert(count(Seq::<Token>::empty(), What::Zero) == 0);
}

/// What is counted: a placeholder is any of the three, and one that is always shown is a
/// zero.
pub proof fn law_what_is_counted(toks: Seq<Token>, t: Token)
    ensures
        count(toks.push(t), What::Digit) == count(toks, What::Digit) + (if t is Digit {
            1int
        } else {
            0
        }),
        count(toks.push(t), What::Zero) == count(toks, What::Zero) + (if t is Digit && t->Digit_0
            == '0' {
            1int
        } else {
            0
        }),
        count(toks.push(t), What::Percent) == count(toks, What::Percent) + (if t is Percent {
            1int
        } else {
            0
        }),
        count(toks.push(t), What::Comma) == count(toks, What::Comma) + (if t is Comma {
            1int
        } else {
            0
        }),
        count(Seq::<Token>::empty(), What::Digit) == 0,
{
    assert(toks.push(t).drop_last() =~= toks);
}

proof fn lemma_last_is(toks: Seq<Token>, i: int, k: int)
    requires
        0 <= k < i <= toks.len(),
        toks[k] is Digit,
        forall|j: int| k < j < i ==> !((#[trigger] toks[j]) is Digit),
    ensures
        last_before(toks, i, What::Digit) == k,
    decreases i - k,
{
    if i - 1 > k {
        assert(!(toks[i - 1] is Digit));
        lemma_last_is(toks, i - 1, k);
    }
}

proof fn lemma_counted_some(toks: Seq<Token>, w: What, k: int)
    requires
        0 <= k < toks.len(),
        w.has(toks[k]),
    ensures
        count(toks, w) > 0,
    decreases toks.len(),
{
    if k < toks.len() - 1 {
        assert(toks.drop_last()[k] == toks[k]);
        lemma_counted_some(toks.drop_last(), w, k);
    }
}

/// A comma between placeholders asks for groups of thousands; commas behind the last one
/// each divide by a thousand.
pub proof fn law_commas(toks: Seq<Token>, c: int, k: int)
    requires
        0 <= k < toks.len() < 1000,
        toks[k] is Digit,
    ensures
        0 <= c < k && toks[c] is Comma && (forall|j: int|
            k < j < toks.len() ==> !((#[trigger] toks[j]) is Digit))
                ==> num_spec_of(toks).thousands,
        (forall|j: int| k < j < toks.len() ==> (#[trigger] toks[j]) is Comma) ==> num_spec_of(
            toks,
        ).scale == toks.len() - 1 - k,
{
    if 0 <= c < k && toks[c] is Comma && (forall|j: int|
        k < j < toks.len() ==> !((#[trigger] toks[j]) is Digit)) {
        lemma_last_is(toks, toks.len() as int, k);
        assert(toks.take(k)[c] == toks[c]);
        lemma_counted_some(toks.take(k), What::Comma, c);
    }
    if forall|j: int| k < j < toks.len() ==> (#[trigger] toks[j]) is Comma {
        assert forall|j: int| k < j < toks.len() implies !((#[trigger] toks[j]) is Digit) by {
            assert(toks[j] is Comma);
        }
        lemma_last_is(toks, toks.len() as int, k);
    }
}

} // verus!
