//! The tokens of a format code.

use vstd::prelude::*;
use crate::chars::{
    ascii_alpha, ascii_lower, ascii_lower_all, is_ascii_alpha, parse_u32, parsed_u32, push_all,
    slice_of, starts_with, text_is, to_lower, to_lower_all, trim, trimmed,
};

verus! {

#[derive(Clone, Copy, PartialEq, Eq, Debug, Structural)]
pub enum Unit {
    Hour,
    Minute,
    Second,
}

/// A colour a section may ask for.
#[derive(Clone, Copy, PartialEq, Eq, Debug, Structural)]
pub enum Ink {
    Black,
    Blue,
    Cyan,
    Green,
    Lime,
    Magenta,
    Red,
    White,
    Yellow,
}

impl Ink {
    pub open spec fn css_text(self) -> Seq<char> {
        match self {
            Ink::Black => "#000000"@,
            Ink::Blue => "#0000ff"@,
            Ink::Cyan => "#00ffff"@,
            Ink::Green => "#008000"@,
            Ink::Lime => "#00ff00"@,
            Ink::Magenta => "#ff00ff"@,
            Ink::Red => "#ff0000"@,
            Ink::White => "#ffffff"@,
            Ink::Yellow => "#ffff00"@,
        }
    }

    /// The colour as CSS writes it.
    pub fn css(self) -> (r: &'static str)
        ensures
            r@ == self.css_text(),
    {
        match self {
            Ink::Black => "#000000",
            Ink::Blue => "#0000ff",
            Ink::Cyan => "#00ffff",
            Ink::Green => "#008000",
            Ink::Lime => "#00ff00",
            Ink::Magenta => "#ff00ff",
            Ink::Red => "#ff0000",
            Ink::White => "#ffffff",
            Ink::Yellow => "#ffff00",
        }
    }
}

/// One token. `S` is how a literal's text is held: a vector of characters in code,
/// a sequence of them in contracts.
#[derive(Debug)]
pub enum Tok<S> {
    Lit(S),
    /// `_x`: the width of `x`, shown as a space.
    Skip,
    /// `*x`: `x` repeated to fill the column. There is no column width here, so it
    /// shows nothing.
    Fill,
    /// Two digits or four.
    Year(u8),
    /// Width 1 to 5; 5 is the month's first letter. Widths 1 and 2 may still turn
    /// out to be minutes.
    Month(u8),
    Day(u8),
    Hour(u8),
    Minute(u8),
    Second(u8),
    /// `[h]`, `[m]`, `[s]`: elapsed time, not clock time.
    Elapsed(Unit, u8),
    /// `AM/PM` (true) or `A/P` (false).
    Ampm(bool),
    /// `.0`, `.00`, … after a seconds token.
    SubSec(u8),
    /// A digit placeholder: `0`, `#` or `?`.
    Digit(char),
    Dot,
    /// `,` between placeholders (grouping) or trailing (a factor of a thousand).
    Comma,
    Percent,
    /// `E+` (true) or `E-` (false).
    Exp(bool),
    Slash,
    /// `@`: the cell's own text.
    At,
}

/// A token as contracts see it.
pub type Token = Tok<Seq<char>>;

/// A token as code holds it.
pub type TokVec = Tok<Vec<char>>;

impl View for Tok<Vec<char>> {
    type V = Tok<Seq<char>>;

    open spec fn view(&self) -> Tok<Seq<char>> {
        match *self {
            Tok::Lit(s) => Tok::Lit(s@),
            Tok::Skip => Tok::Skip,
            Tok::Fill => Tok::Fill,
            Tok::Year(n) => Tok::Year(n),
            Tok::Month(n) => Tok::Month(n),
            Tok::Day(n) => Tok::Day(n),
            Tok::Hour(n) => Tok::Hour(n),
            Tok::Minute(n) => Tok::Minute(n),
            Tok::Second(n) => Tok::Second(n),
            Tok::Elapsed(u, n) => Tok::Elapsed(u, n),
            Tok::Ampm(b) => Tok::Ampm(b),
            Tok::SubSec(n) => Tok::SubSec(n),
            Tok::Digit(c) => Tok::Digit(c),
            Tok::Dot => Tok::Dot,
            Tok::Comma => Tok::Comma,
            Tok::Percent => Tok::Percent,
            Tok::Exp(b) => Tok::Exp(b),
            Tok::Slash => Tok::Slash,
            Tok::At => Tok::At,
        }
    }
}

/// The tokens of a vector as contracts see them.
pub open spec fn tokens(v: Seq<TokVec>) -> Seq<Token> {
    v.map_values(|t: TokVec| t@)
}

impl<S> Tok<S> {
    pub open spec fn datetime(self) -> bool {
        self is Year || self is Month || self is Day || self is Hour || self is Minute
            || self is Second || self is Elapsed || self is SubSec
    }

    pub open spec fn separator(self) -> bool {
        self is Lit || self is Skip || self is Fill || self is Slash
    }

    /// Whether the token shows a part of a date or a time.
    pub fn is_datetime(&self) -> (r: bool)
        ensures
            r == self.datetime(),
    {
        matches!(
            self,
            Tok::Year(_) | Tok::Month(_) | Tok::Day(_) | Tok::Hour(_) | Tok::Minute(_)
                | Tok::Second(_) | Tok::Elapsed(_, _) | Tok::SubSec(_)
        )
    }

    /// Whether the month-or-minute rule looks through the token.
    pub fn is_separator(&self) -> (r: bool)
        ensures
            r == self.separator(),
    {
        matches!(self, Tok::Lit(_) | Tok::Skip | Tok::Fill | Tok::Slash)
    }
}

// ── scans ────────────────────────────────────────────────────────────────────

/// How many `c` stand in a row from `i` on.
pub open spec fn run(cs: Seq<char>, i: int, c: char) -> nat
    decreases cs.len() - i,
{
    if 0 <= i < cs.len() && cs[i] == c {
        1 + run(cs, i + 1, c)
    } else {
        0
    }
}

/// How many characters in a row from `i` on are `c` in either case.
pub open spec fn run_ci(cs: Seq<char>, i: int, c: char) -> nat
    decreases cs.len() - i,
{
    if 0 <= i < cs.len() && ascii_lower(cs[i]) == c {
        1 + run_ci(cs, i + 1, c)
    } else {
        0
    }
}

/// The first place from `i` on that holds `c`, or the end.
pub open spec fn until(cs: Seq<char>, i: int, c: char) -> int
    decreases cs.len() - i,
{
    if 0 <= i < cs.len() && cs[i] != c {
        until(cs, i + 1, c)
    } else {
        i
    }
}

/// The end of the run of ASCII letters at `i`.
pub open spec fn word_end(cs: Seq<char>, i: int) -> int
    decreases cs.len() - i,
{
    if 0 <= i < cs.len() && is_ascii_alpha(cs[i]) {
        word_end(cs, i + 1)
    } else {
        i
    }
}

pub proof fn lemma_until(cs: Seq<char>, i: int, c: char)
    requires
        0 <= i <= cs.len(),
    ensures
        i <= until(cs, i, c) <= cs.len(),
        until(cs, i, c) < cs.len() ==> cs[until(cs, i, c)] == c,
        forall|k: int| i <= k < until(cs, i, c) ==> cs[k] != c,
    decreases cs.len() - i,
{
    if i < cs.len() && cs[i] != c {
        lemma_until(cs, i + 1, c);
    }
}

pub proof fn lemma_run(cs: Seq<char>, i: int, c: char)
    requires
        0 <= i <= cs.len(),
    ensures
        i + run(cs, i, c) <= cs.len(),
    decreases cs.len() - i,
{
    if i < cs.len() && cs[i] == c {
        lemma_run(cs, i + 1, c);
    }
}

pub proof fn lemma_run_ci(cs: Seq<char>, i: int, c: char)
    requires
        0 <= i <= cs.len(),
    ensures
        i + run_ci(cs, i, c) <= cs.len(),
    decreases cs.len() - i,
{
    if i < cs.len() && ascii_lower(cs[i]) == c {
        lemma_run_ci(cs, i + 1, c);
    }
}

pub proof fn lemma_word_end(cs: Seq<char>, i: int)
    requires
        0 <= i <= cs.len(),
    ensures
        i <= word_end(cs, i) <= cs.len(),
    decreases cs.len() - i,
{
    if i < cs.len() && is_ascii_alpha(cs[i]) {
        lemma_word_end(cs, i + 1);
    }
}

fn find_from(chars: &Vec<char>, i: usize, c: char) -> (j: usize)
    requires
        i <= chars@.len(),
    ensures
        j == until(chars@, i as int, c),
        i <= j <= chars@.len(),
{
    let mut j: usize = i;
    while j < chars.len() && chars[j] != c
        invariant
            i <= j <= chars@.len(),
            until(chars@, j as int, c) == until(chars@, i as int, c),
        decreases chars@.len() - j,
    {
        j = j + 1;
    }
    j
}

/// The length of the run of `lower`, in either case, at `i`, and at least one.
fn run_len_ci(chars: &Vec<char>, i: usize, lower: char) -> (n: usize)
    requires
        i < chars@.len(),
    ensures
        n == at_least_one(run_ci(chars@, i as int, lower)),
        i + n <= chars@.len(),
{
    let mut n: usize = 0;
    let total: usize = chars.len();
    while i + n < total && to_lower(chars[i + n]) == lower
        invariant
            total == chars@.len(),
            i + n <= chars@.len(),
            run_ci(chars@, i as int, lower) == n + run_ci(chars@, i + n, lower),
        decreases chars@.len() - i - n,
    {
        n = n + 1;
    }
    if n == 0 {
        1
    } else {
        n
    }
}

/// The length of the run of `c` at `i`.
fn run_len(chars: &Vec<char>, i: usize, c: char) -> (n: usize)
    requires
        i <= chars@.len(),
    ensures
        n == run(chars@, i as int, c),
        i + n <= chars@.len(),
{
    let mut n: usize = 0;
    let total: usize = chars.len();
    while i + n < total && chars[i + n] == c
        invariant
            total == chars@.len(),
            i + n <= chars@.len(),
            run(chars@, i as int, c) == n + run(chars@, i + n, c),
        decreases chars@.len() - i - n,
    {
        n = n + 1;
    }
    n
}

/// The run of ASCII letters at `i`.
fn word_at(chars: &Vec<char>, i: usize) -> (s: Vec<char>)
    requires
        i <= chars@.len(),
    ensures
        s@ == chars@.subrange(i as int, word_end(chars@, i as int)),
        i + s@.len() <= chars@.len(),
{
    let mut j: usize = i;
    while j < chars.len() && ascii_alpha(chars[j])
        invariant
            i <= j <= chars@.len(),
            word_end(chars@, j as int) == word_end(chars@, i as int),
        decreases chars@.len() - j,
    {
        j = j + 1;
    }
    slice_of(chars, i, j)
}

pub open spec fn at_least_one(n: nat) -> nat {
    if n == 0 {
        1
    } else {
        n
    }
}

pub open spec fn at_most(n: nat, most: u8) -> u8 {
    if n < most {
        n as u8
    } else {
        most
    }
}

fn cap(n: usize, most: u8) -> (r: u8)
    ensures
        r == at_most(n as nat, most),
{
    if n < most as usize {
        n as u8
    } else {
        most
    }
}

/// The length of `AM/PM` or `A/P`, in any case, at `i`; zero where neither stands.
pub open spec fn ampm_len(cs: Seq<char>, i: int) -> nat {
    let end = if i + 5 < cs.len() {
        i + 5
    } else {
        cs.len() as int
    };
    let rest = ascii_lower_all(cs.subrange(i, end));
    if "am/pm"@.is_prefix_of(rest) {
        5
    } else if "a/p"@.is_prefix_of(rest) {
        3
    } else {
        0
    }
}

fn ampm_at(chars: &Vec<char>, i: usize) -> (r: Option<usize>)
    requires
        i < chars@.len(),
    ensures
        r == (if ampm_len(chars@, i as int) == 0 {
            None::<usize>
        } else {
            Some(ampm_len(chars@, i as int) as usize)
        }),
        r matches Some(n) ==> i + n <= chars@.len(),
{
    let end: usize = if chars.len() - i > 5 {
        i + 5
    } else {
        chars.len()
    };
    let rest: Vec<char> = to_lower_all(&slice_of(chars, i, end));
    proof {
        reveal_strlit("am/pm");
        reveal_strlit("a/p");
    }
    if starts_with(&rest, "am/pm") {
        Some(5)
    } else if starts_with(&rest, "a/p") {
        Some(3)
    } else {
        None
    }
}

// ── colours ──────────────────────────────────────────────────────────────────

/// The colour a bracket's lower-case text names: one of eight words, or `color`
/// and a number from 1 to 8.
pub open spec fn ink_named(lower: Seq<char>) -> Option<Ink> {
    if lower == "black"@ {
        Some(Ink::Black)
    } else if lower == "blue"@ {
        Some(Ink::Blue)
    } else if lower == "cyan"@ {
        Some(Ink::Cyan)
    } else if lower == "green"@ {
        Some(Ink::Green)
    } else if lower == "magenta"@ {
        Some(Ink::Magenta)
    } else if lower == "red"@ {
        Some(Ink::Red)
    } else if lower == "white"@ {
        Some(Ink::White)
    } else if lower == "yellow"@ {
        Some(Ink::Yellow)
    } else if "color"@.is_prefix_of(lower) {
        match parsed_u32(trimmed(lower.skip(5))) {
            Some(n) => ink_numbered(n),
            None => None,
        }
    } else {
        None
    }
}

pub open spec fn ink_numbered(n: u32) -> Option<Ink> {
    if n == 1 {
        Some(Ink::Black)
    } else if n == 2 {
        Some(Ink::White)
    } else if n == 3 {
        Some(Ink::Red)
    } else if n == 4 {
        Some(Ink::Lime)
    } else if n == 5 {
        Some(Ink::Blue)
    } else if n == 6 {
        Some(Ink::Yellow)
    } else if n == 7 {
        Some(Ink::Magenta)
    } else if n == 8 {
        Some(Ink::Cyan)
    } else {
        None
    }
}

fn color_name(lower: &Vec<char>) -> (r: Option<Ink>)
    ensures
        r == ink_named(lower@),
{
    if text_is(lower, "black") {
        return Some(Ink::Black);
    }
    if text_is(lower, "blue") {
        return Some(Ink::Blue);
    }
    if text_is(lower, "cyan") {
        return Some(Ink::Cyan);
    }
    if text_is(lower, "green") {
        return Some(Ink::Green);
    }
    if text_is(lower, "magenta") {
        return Some(Ink::Magenta);
    }
    if text_is(lower, "red") {
        return Some(Ink::Red);
    }
    if text_is(lower, "white") {
        return Some(Ink::White);
    }
    if text_is(lower, "yellow") {
        return Some(Ink::Yellow);
    }
    if !starts_with(lower, "color") {
        return None;
    }
    proof {
        reveal_strlit("color");
    }
    let rest: Vec<char> = trim(&slice_of(lower, 5, lower.len()));
    assert(lower@.subrange(5, lower@.len() as int) == lower@.skip(5));
    match parse_u32(&rest) {
        Some(n) => match n {
            1 => Some(Ink::Black),
            2 => Some(Ink::White),
            3 => Some(Ink::Red),
            4 => Some(Ink::Lime),
            5 => Some(Ink::Blue),
            6 => Some(Ink::Yellow),
            7 => Some(Ink::Magenta),
            8 => Some(Ink::Cyan),
            _ => None,
        },
        None => None,
    }
}

// ── one token ────────────────────────────────────────────────────────────────

/// `toks` with the literal text `s` after it. A literal directly after another is
/// one literal.
pub open spec fn with_lit(toks: Seq<Token>, s: Seq<char>) -> Seq<Token> {
    if s.len() == 0 {
        toks
    } else if toks.len() > 0 && toks.last() is Lit {
        toks.drop_last().push(Tok::Lit(toks.last()->Lit_0 + s))
    } else {
        toks.push(Tok::Lit(s))
    }
}

fn push_lit(toks: &mut Vec<TokVec>, s: &Vec<char>)
    ensures
        tokens(final(toks)@) == with_lit(tokens(old(toks)@), s@),
{
    if s.len() == 0 {
        return;
    }
    let ghost before = toks@;
    let n: usize = toks.len();
    if n > 0 {
        if let Tok::Lit(prev) = &mut toks[n - 1] {
            push_all(prev, s);
            assert(tokens(toks@) =~= with_lit(tokens(before), s@));
            return;
        }
    }
    assert(n > 0 ==> tokens(before).last() == before.last()@);
    let copy: Vec<char> = slice_of(s, 0, s.len());
    assert(copy@ == s@);
    toks.push(Tok::Lit(copy));
    assert(tokens(toks@) =~= with_lit(tokens(before), s@));
}

/// What reading one token does: the tokens and the section's colour after it, and
/// where the next one starts.
pub struct Step {
    pub toks: Seq<Token>,
    pub color: Option<Ink>,
    pub next: int,
}

pub open spec fn stepped(toks: Seq<Token>, color: Option<Ink>, next: int) -> Step {
    Step { toks, color, next }
}

/// Past the character at `j`, or the end where there is none.
pub open spec fn past(cs: Seq<char>, j: int) -> int {
    if j < cs.len() {
        j + 1
    } else {
        j
    }
}

/// Whether the text is one time letter, once or more.
pub open spec fn elapsed_letters(s: Seq<char>) -> bool {
    s.len() > 0 && (s[0] == 'h' || s[0] == 'm' || s[0] == 's') && forall|k: int|
        0 <= k < s.len() ==> #[trigger] s[k] == s[0]
}

pub open spec fn unit_of(c: char) -> Unit {
    if c == 'h' {
        Unit::Hour
    } else if c == 'm' {
        Unit::Minute
    } else {
        Unit::Second
    }
}

/// A bracket: a colour, an elapsed-time unit, or nothing that is shown.
pub open spec fn bracket_step(cs: Seq<char>, i: int, toks: Seq<Token>, color: Option<Ink>) -> Step {
    let close = until(cs, i + 1, ']');
    let lower = ascii_lower_all(trimmed(cs.subrange(i + 1, close)));
    let next = past(cs, close);
    match ink_named(lower) {
        Some(ink) => stepped(toks, Some(ink), next),
        None => if elapsed_letters(lower) {
            stepped(
                toks.push(Tok::Elapsed(unit_of(lower[0]), at_most(lower.len(), 2))),
                color,
                next,
            )
        } else {
            stepped(toks, color, next)
        },
    }
}

pub open spec fn has_second(toks: Seq<Token>) -> bool {
    exists|k: int| 0 <= k < toks.len() && (#[trigger] toks[k]) is Second
}

/// Reads the token at `i`.
pub open spec fn token_step(cs: Seq<char>, i: int, toks: Seq<Token>, color: Option<Ink>) -> Step {
    let c = cs[i];
    let l = ascii_lower(c);
    let left = cs.len() - i;
    if c == '"' {
        let close = until(cs, i + 1, '"');
        stepped(with_lit(toks, cs.subrange(i + 1, close)), color, past(cs, close))
    } else if c == '\\' {
        if left > 1 {
            stepped(with_lit(toks, seq![cs[i + 1]]), color, i + 2)
        } else {
            stepped(toks, color, i + 1)
        }
    } else if c == '_' {
        stepped(toks.push(Tok::Skip), color, past(cs, i + 1))
    } else if c == '*' {
        stepped(toks.push(Tok::Fill), color, past(cs, i + 1))
    } else if c == '[' {
        bracket_step(cs, i, toks, color)
    } else if c == '0' || c == '#' || c == '?' {
        stepped(toks.push(Tok::Digit(c)), color, i + 1)
    } else if c == '.' {
        let zeros = run(cs, i + 1, '0');
        if zeros > 0 && has_second(toks) {
            stepped(toks.push(Tok::SubSec(at_most(zeros, 9))), color, i + 1 + zeros)
        } else {
            stepped(toks.push(Tok::Dot), color, i + 1)
        }
    } else if c == ',' {
        stepped(toks.push(Tok::Comma), color, i + 1)
    } else if c == '%' {
        stepped(toks.push(Tok::Percent), color, i + 1)
    } else if c == '/' {
        stepped(toks.push(Tok::Slash), color, i + 1)
    } else if c == '@' {
        stepped(toks.push(Tok::At), color, i + 1)
    } else if l == 'e' && left > 1 && cs[i + 1] == '+' {
        stepped(toks.push(Tok::Exp(true)), color, i + 2)
    } else if l == 'e' && left > 1 && cs[i + 1] == '-' {
        stepped(toks.push(Tok::Exp(false)), color, i + 2)
    } else if l == 'a' && ampm_len(cs, i) > 0 {
        stepped(toks.push(Tok::Ampm(ampm_len(cs, i) == 5)), color, i + ampm_len(cs, i))
    } else if l == 'y' {
        let n = at_least_one(run_ci(cs, i, 'y'));
        stepped(toks.push(Tok::Year(if n <= 2 { 2 } else { 4 })), color, i + n)
    } else if l == 'm' {
        let n = at_least_one(run_ci(cs, i, 'm'));
        stepped(toks.push(Tok::Month(at_most(n, 5))), color, i + n)
    } else if l == 'd' {
        let n = at_least_one(run_ci(cs, i, 'd'));
        stepped(toks.push(Tok::Day(at_most(n, 4))), color, i + n)
    } else if l == 'h' {
        let n = at_least_one(run_ci(cs, i, 'h'));
        stepped(toks.push(Tok::Hour(at_most(n, 2))), color, i + n)
    } else if l == 's' {
        let n = at_least_one(run_ci(cs, i, 's'));
        stepped(toks.push(Tok::Second(at_most(n, 2))), color, i + n)
    } else if l == 'g' || l == 'b' {
        let end = word_end(cs, i);
        let word = cs.subrange(i, end);
        if ascii_lower_all(word) == "general"@ {
            stepped(with_lit(toks, word), color, end)
        } else {
            stepped(toks, color, i + at_least_one(run_ci(cs, i, l)))
        }
    } else {
        stepped(with_lit(toks, seq![c]), color, i + 1)
    }
}

/// Reading a token always moves on, never past the end, and adds at most one token.
pub proof fn law_token_advances(cs: Seq<char>, i: int, toks: Seq<Token>, color: Option<Ink>)
    requires
        0 <= i < cs.len(),
    ensures
        i < token_step(cs, i, toks, color).next <= cs.len(),
        token_step(cs, i, toks, color).toks.len() <= toks.len() + 1,
{
    lemma_until(cs, i + 1, '"');
    lemma_until(cs, i + 1, ']');
    lemma_run(cs, i + 1, '0');
    lemma_run_ci(cs, i, 'y');
    lemma_run_ci(cs, i, 'm');
    lemma_run_ci(cs, i, 'd');
    lemma_run_ci(cs, i, 'h');
    lemma_run_ci(cs, i, 's');
    lemma_run_ci(cs, i, ascii_lower(cs[i]));
    lemma_word_end(cs, i);
    reveal_strlit("am/pm");
    reveal_strlit("a/p");
    reveal_strlit("general");
    let word = cs.subrange(i, word_end(cs, i));
    if ascii_lower_all(word) == "general"@ {
        assert(word.len() == ascii_lower_all(word).len());
    }
}

fn second_seen(toks: &Vec<TokVec>) -> (r: bool)
    ensures
        r == has_second(tokens(toks@)),
{
    for i in 0..toks.len()
        invariant
            forall|k: int| 0 <= k < i ==> !(#[trigger] tokens(toks@)[k] is Second),
    {
        assert(tokens(toks@)[i as int] == toks@[i as int]@);
        if matches!(&toks[i], Tok::Second(_)) {
            return true;
        }
    }
    false
}

fn push_char(toks: &mut Vec<TokVec>, c: char)
    ensures
        tokens(final(toks)@) == with_lit(tokens(old(toks)@), seq![c]),
{
    let mut one: Vec<char> = Vec::new();
    one.push(c);
    assert(one@ == seq![c]);
    push_lit(toks, &one);
}

fn push_tok(toks: &mut Vec<TokVec>, t: TokVec)
    ensures
        tokens(final(toks)@) == tokens(old(toks)@).push(t@),
{
    let ghost before = toks@;
    toks.push(t);
    assert(tokens(toks@) =~= tokens(before).push(t@));
}

fn bracket_at(chars: &Vec<char>, i: usize, toks: &mut Vec<TokVec>, color: &mut Option<Ink>) -> (next:
    usize)
    requires
        i < chars@.len(),
        chars@[i as int] == '[',
    ensures
        stepped(tokens(final(toks)@), *final(color), next as int) == bracket_step(
            chars@,
            i as int,
            tokens(old(toks)@),
            *old(color),
        ),
{
    let total: usize = chars.len();
    let j: usize = find_from(chars, i + 1, ']');
    let next: usize = if j < total {
        j + 1
    } else {
        j
    };
    let lower: Vec<char> = to_lower_all(&trim(&slice_of(chars, i + 1, j)));
    if let Some(ink) = color_name(&lower) {
        *color = Some(ink);
        return next;
    }
    if lower.len() > 0 {
        let first: char = lower[0];
        if first == 'h' || first == 'm' || first == 's' {
            for k in 0..lower.len()
                invariant
                    lower@.len() > 0,
                    first == lower@[0],
                    forall|m: int| 0 <= m < k ==> #[trigger] lower@[m] == first,
                    next == past(chars@, until(chars@, i + 1, ']')),
                    lower@ == ascii_lower_all(
                        trimmed(chars@.subrange(i + 1, until(chars@, i + 1, ']'))),
                    ),
                    ink_named(lower@) is None,
                    toks@ == old(toks)@,
                    *color == *old(color),
            {
                if lower[k] != first {
                    return next;
                }
            }
            let unit: Unit = if first == 'h' {
                Unit::Hour
            } else if first == 'm' {
                Unit::Minute
            } else {
                Unit::Second
            };
            push_tok(toks, Tok::Elapsed(unit, cap(lower.len(), 2)));
        }
    }
    next
}

/// Reads the token at `i`, adds it to `toks`, and gives the next position.
pub fn token_at(chars: &Vec<char>, i: usize, toks: &mut Vec<TokVec>, color: &mut Option<Ink>) -> (next:
    usize)
    requires
        i < chars@.len(),
    ensures
        stepped(tokens(final(toks)@), *final(color), next as int) == token_step(
            chars@,
            i as int,
            tokens(old(toks)@),
            *old(color),
        ),
        i < next <= chars@.len(),
        final(toks)@.len() <= old(toks)@.len() + 1,
{
    let ghost before = toks@;
    proof {
        law_token_advances(chars@, i as int, tokens(before), *color);
    }
    let c: char = chars[i];
    let left: usize = chars.len() - i;
    let next: usize = match c {
        '"' => {
            let j: usize = find_from(chars, i + 1, '"');
            push_lit(toks, &slice_of(chars, i + 1, j));
            if j < chars.len() {
                j + 1
            } else {
                j
            }
        },
        '\\' => {
            if left > 1 {
                push_char(toks, chars[i + 1]);
                i + 2
            } else {
                i + 1
            }
        },
        '_' => {
            push_tok(toks, Tok::Skip);
            if left > 1 {
                i + 2
            } else {
                i + 1
            }
        },
        '*' => {
            push_tok(toks, Tok::Fill);
            if left > 1 {
                i + 2
            } else {
                i + 1
            }
        },
        '[' => bracket_at(chars, i, toks, color),
        '0' | '#' | '?' => {
            push_tok(toks, Tok::Digit(c));
            i + 1
        },
        '.' => {
            let zeros: usize = run_len(chars, i + 1, '0');
            if zeros > 0 && second_seen(toks) {
                push_tok(toks, Tok::SubSec(cap(zeros, 9)));
                i + 1 + zeros
            } else {
                push_tok(toks, Tok::Dot);
                i + 1
            }
        },
        ',' => {
            push_tok(toks, Tok::Comma);
            i + 1
        },
        '%' => {
            push_tok(toks, Tok::Percent);
            i + 1
        },
        '/' => {
            push_tok(toks, Tok::Slash);
            i + 1
        },
        '@' => {
            push_tok(toks, Tok::At);
            i + 1
        },
        'e' | 'E' => {
            if left > 1 && chars[i + 1] == '+' {
                push_tok(toks, Tok::Exp(true));
                i + 2
            } else if left > 1 && chars[i + 1] == '-' {
                push_tok(toks, Tok::Exp(false));
                i + 2
            } else {
                push_char(toks, c);
                i + 1
            }
        },
        'a' | 'A' => match ampm_at(chars, i) {
            Some(n) => {
                push_tok(toks, Tok::Ampm(n == 5));
                i + n
            },
            None => {
                push_char(toks, c);
                i + 1
            },
        },
        'y' | 'Y' => {
            let n: usize = run_len_ci(chars, i, 'y');
            push_tok(toks, Tok::Year(if n <= 2 { 2 } else { 4 }));
            i + n
        },
        'm' | 'M' => {
            let n: usize = run_len_ci(chars, i, 'm');
            push_tok(toks, Tok::Month(cap(n, 5)));
            i + n
        },
        'd' | 'D' => {
            let n: usize = run_len_ci(chars, i, 'd');
            push_tok(toks, Tok::Day(cap(n, 4)));
            i + n
        },
        'h' | 'H' => {
            let n: usize = run_len_ci(chars, i, 'h');
            push_tok(toks, Tok::Hour(cap(n, 2)));
            i + n
        },
        's' | 'S' => {
            let n: usize = run_len_ci(chars, i, 's');
            push_tok(toks, Tok::Second(cap(n, 2)));
            i + n
        },
        // Era and calendar selectors are dropped rather than shown as letters.
        'g' | 'G' | 'b' | 'B' => {
            let word: Vec<char> = word_at(chars, i);
            if text_is(&to_lower_all(&word), "general") {
                push_lit(toks, &word);
                i + word.len()
            } else {
                i + run_len_ci(chars, i, to_lower(c))
            }
        },
        _ => {
            push_char(toks, c);
            i + 1
        },
    };
    assert(tokens(toks@).len() == toks@.len());
    assert(tokens(before).len() == before.len());
    next
}

} // verus!
