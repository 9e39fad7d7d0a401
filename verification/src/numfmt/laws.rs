//! What holds of number formats as a whole.

use vstd::prelude::*;
use crate::chars::{ascii_lower, ascii_lower_all, lemma_byte_len_most, lemma_trimmed_already};
use crate::numfmt::builtin_text;
use crate::numfmt::sections::{
    count, finished, first, general_section, lit_text, minutes_resolved, says_general, scanned,
    sections_of, Kind, SectionView, What, MAX_SECTIONS, MAX_TOKENS,
};
use crate::numfmt::tokens::{
    elapsed_letters, has_second, ink_named, law_token_advances, lemma_until, stepped, token_step,
    until, with_lit, word_end, Ink, Tok, Token,
};

verus! {

// ── the first section ────────────────────────────────────────────────────────

/// A section that is finished stays as it is.
proof fn lemma_first_stays(
    cs: Seq<char>,
    i: int,
    out: Seq<SectionView>,
    toks: Seq<Token>,
    color: Option<Ink>,
)
    requires
        out.len() > 0,
    ensures
        scanned(cs, i, out, toks, color).len() > 0,
        scanned(cs, i, out, toks, color)[0] == out[0],
    decreases cs.len() - i,
{
    if i < 0 || i >= cs.len() || out.len() >= MAX_SECTIONS {
    } else if cs[i] == ';' {
        lemma_first_stays(cs, i + 1, out.push(finished(toks, color)), Seq::empty(), None);
    } else if toks.len() >= MAX_TOKENS {
        lemma_until(cs, i, ';');
        lemma_until_moves(cs, i);
        lemma_first_stays(cs, until(cs, i, ';'), out, toks, color);
    } else {
        law_token_advances(cs, i, toks, color);
        let s = token_step(cs, i, toks, color);
        lemma_first_stays(cs, s.next, out, s.toks, s.color);
    }
}

proof fn lemma_until_moves(cs: Seq<char>, i: int)
    requires
        0 <= i < cs.len(),
        cs[i] != ';',
    ensures
        until(cs, i, ';') > i,
{
    lemma_until(cs, i + 1, ';');
}

proof fn lemma_count_short(toks: Seq<Token>, w: What, k: int)
    requires
        0 <= k < toks.len(),
        !w.has(toks[k]),
    ensures
        count(toks, w) < toks.len(),
    decreases toks.len(),
{
    let d = toks.drop_last();
    if k < toks.len() - 1 {
        assert(d[k] == toks[k]);
        lemma_count_short(d, w, k);
    } else {
        crate::numfmt::sections::lemma_count_bound(d, w);
    }
}

proof fn lemma_first_found(toks: Seq<Token>, i: int, w: What, k: int)
    requires
        0 <= i <= k < toks.len(),
        w.has(toks[k]),
    ensures
        first(toks, i, w) <= k,
    decreases k - i,
{
    if i < k && !w.has(toks[i]) {
        lemma_first_found(toks, i + 1, w, k);
    }
}

proof fn lemma_first_absent(toks: Seq<Token>, i: int, w: What)
    requires
        0 <= i <= toks.len(),
        forall|k: int| 0 <= k < toks.len() ==> !w.has(#[trigger] toks[k]),
    ensures
        first(toks, i, w) == toks.len(),
    decreases toks.len() - i,
{
    if i < toks.len() {
        assert(!w.has(toks[i]));
        lemma_first_absent(toks, i + 1, w);
    }
}

// ── sections with a date ─────────────────────────────────────────────────────

proof fn lemma_finished_dated(toks: Seq<Token>, color: Option<Ink>, k: int)
    requires
        0 <= k < toks.len(),
        toks[k].datetime(),
    ensures
        finished(toks, color).kind == Kind::Date,
{
    lemma_count_short(toks, What::Literal, k);
    let ts = minutes_resolved(toks);
    assert(ts[k].datetime());
    lemma_first_found(ts, 0, What::Datetime, k);
}

/// A token that is no literal stays where it is.
proof fn lemma_step_keeps(cs: Seq<char>, i: int, toks: Seq<Token>, color: Option<Ink>, k: int)
    requires
        0 <= i < cs.len(),
        0 <= k < toks.len(),
        !(toks[k] is Lit),
    ensures
        k < token_step(cs, i, toks, color).toks.len(),
        token_step(cs, i, toks, color).toks[k] == toks[k],
{
}

/// A section that has read a part of a date is a date.
proof fn lemma_stays_dated(cs: Seq<char>, i: int, toks: Seq<Token>, color: Option<Ink>, k: int)
    requires
        0 <= k < toks.len(),
        toks[k].datetime(),
    ensures
        scanned(cs, i, Seq::empty(), toks, color).len() > 0,
        scanned(cs, i, Seq::empty(), toks, color)[0].kind == Kind::Date,
    decreases cs.len() - i,
{
    let none = Seq::<SectionView>::empty();
    if i < 0 || i >= cs.len() {
        lemma_finished_dated(toks, color, k);
    } else if cs[i] == ';' {
        lemma_finished_dated(toks, color, k);
        lemma_first_stays(cs, i + 1, none.push(finished(toks, color)), Seq::empty(), None);
    } else if toks.len() >= MAX_TOKENS {
        lemma_until(cs, i, ';');
        lemma_until_moves(cs, i);
        lemma_stays_dated(cs, until(cs, i, ';'), toks, color, k);
    } else {
        law_token_advances(cs, i, toks, color);
        lemma_step_keeps(cs, i, toks, color, k);
        let s = token_step(cs, i, toks, color);
        lemma_stays_dated(cs, s.next, s.toks, s.color, k);
    }
}

/// A code that starts with a letter of a date is a date.
proof fn lemma_dated_code(cs: Seq<char>)
    requires
        0 < cs.len() <= 100,
        cs[0] == 'm' || cs[0] == 'd' || cs[0] == 'h',
    ensures
        sections_of(cs)[0].kind == Kind::Date,
{
    lemma_byte_len_most(cs);
    let none = Seq::<Token>::empty();
    law_token_advances(cs, 0, none, None);
    let s = token_step(cs, 0, none, None);
    assert(s.toks.len() == 1 && s.toks[0].datetime());
    lemma_stays_dated(cs, s.next, s.toks, s.color, 0);
}

// ── sections without one ─────────────────────────────────────────────────────

/// The character at `i` opens no quoted run and no bracket, is no letter of a date, and
/// takes nothing past `p` with it.
pub open spec fn quiet_at(cs: Seq<char>, i: int, p: int) -> bool {
    let c = cs[i];
    let l = ascii_lower(c);
    &&& c != ';' && c != '"' && c != '\\' && c != '['
    &&& l != 'a' && l != 'y' && l != 'm' && l != 'd' && l != 'h' && l != 's' && l != 'g' && l != 'b'
    &&& (c == '_' || c == '*') ==> i + 1 < p
}

pub open spec fn quiet(cs: Seq<char>, i: int, p: int) -> bool
    decreases p - i,
{
    i >= p || (quiet_at(cs, i, p) && quiet(cs, i + 1, p))
}

pub open spec fn undated(toks: Seq<Token>) -> bool {
    forall|k: int| 0 <= k < toks.len() ==> !(#[trigger] toks[k]).datetime()
}

proof fn lemma_finished_undated(toks: Seq<Token>, color: Option<Ink>)
    requires
        undated(toks),
    ensures
        finished(toks, color).kind != Kind::Date,
{
    let ts = minutes_resolved(toks);
    assert forall|k: int| 0 <= k < ts.len() implies !What::Datetime.has(#[trigger] ts[k]) by {
        assert(!toks[k].datetime());
    }
    lemma_first_absent(ts, 0, What::Datetime);
}

proof fn lemma_quiet_step(cs: Seq<char>, i: int, p: int, toks: Seq<Token>, color: Option<Ink>)
    requires
        0 <= i < p <= cs.len(),
        p < cs.len() ==> cs[p] == ';',
        quiet_at(cs, i, p),
        undated(toks),
    ensures
        undated(token_step(cs, i, toks, color).toks),
        i < token_step(cs, i, toks, color).next <= p,
        token_step(cs, i, toks, color).next <= i + 2,
        token_step(cs, i, toks, color).toks.len() <= toks.len() + 1,
{
    let s = token_step(cs, i, toks, color);
    assert(!has_second(toks)) by {
        if has_second(toks) {
            let k = choose|k: int| 0 <= k < toks.len() && (#[trigger] toks[k]) is Second;
            assert(!toks[k].datetime());
        }
    }
    assert forall|k: int| 0 <= k < s.toks.len() implies !(#[trigger] s.toks[k]).datetime() by {
        if k < toks.len() {
            assert(!toks[k].datetime());
        }
    }
}

/// A section of quiet characters up to the end of the code or the next section is no
/// date.
proof fn lemma_stays_undated(
    cs: Seq<char>,
    i: int,
    p: int,
    toks: Seq<Token>,
    color: Option<Ink>,
)
    requires
        0 <= i <= p <= cs.len(),
        p < cs.len() ==> cs[p] == ';',
        quiet(cs, i, p),
        undated(toks),
        toks.len() + (p - i) < MAX_TOKENS,
    ensures
        scanned(cs, i, Seq::empty(), toks, color).len() > 0,
        scanned(cs, i, Seq::empty(), toks, color)[0].kind != Kind::Date,
    decreases p - i,
{
    let none = Seq::<SectionView>::empty();
    if i == p {
        lemma_finished_undated(toks, color);
        if p < cs.len() {
            lemma_first_stays(cs, i + 1, none.push(finished(toks, color)), Seq::empty(), None);
        }
    } else {
        lemma_quiet_step(cs, i, p, toks, color);
        let s = token_step(cs, i, toks, color);
        if s.next == i + 2 {
            assert(quiet(cs, i + 1, p));
            assert(quiet(cs, i + 2, p));
        }
        lemma_stays_undated(cs, s.next, p, s.toks, s.color);
    }
}

proof fn lemma_undated_code(cs: Seq<char>, p: int)
    requires
        0 < cs.len() <= 100,
        0 <= p <= cs.len(),
        p < cs.len() ==> cs[p] == ';',
        quiet(cs, 0, p),
    ensures
        sections_of(cs)[0].kind != Kind::Date,
{
    lemma_byte_len_most(cs);
    lemma_stays_undated(cs, 0, p, Seq::empty(), None);
}

// ── the codes that start otherwise ───────────────────────────────────────────

proof fn lemma_general()
    ensures
        sections_of("General"@)[0].kind == Kind::General,
{
    reveal_strlit("General");
    reveal_strlit("general");
    let cs = "General"@;
    lemma_byte_len_most(cs);
    reveal_with_fuel(word_end, 8);
    assert(word_end(cs, 0) == 7);
    assert(cs.subrange(0, 7) =~= cs);
    assert(ascii_lower_all(cs) =~= "general"@);
    let toks: Seq<Token> = seq![Tok::Lit(cs)];
    assert(with_lit(Seq::<Token>::empty(), cs) =~= toks);
    assert(token_step(cs, 0, Seq::empty(), None) == stepped(toks, None, 7));
    assert(toks.drop_last() =~= Seq::<Token>::empty());
    reveal_with_fuel(count, 2);
    reveal_with_fuel(lit_text, 2);
    assert(lit_text(toks) =~= cs);
    lemma_trimmed_already(cs);
    assert(says_general(toks));
    assert(scanned(cs, 7, Seq::empty(), toks, None) =~= seq![general_section(None)]);
}

/// `[h]` counts hours.
proof fn lemma_elapsed_first()
    ensures
        sections_of("[h]:mm:ss"@)[0].kind == Kind::Date,
{
    reveal_strlit("[h]:mm:ss");
    reveal_strlit("black");
    reveal_strlit("blue");
    reveal_strlit("cyan");
    reveal_strlit("green");
    reveal_strlit("magenta");
    reveal_strlit("red");
    reveal_strlit("white");
    reveal_strlit("yellow");
    reveal_strlit("color");
    let cs = "[h]:mm:ss"@;
    lemma_byte_len_most(cs);
    reveal_with_fuel(until, 3);
    assert(until(cs, 1, ']') == 2);
    let h = cs.subrange(1, 2);
    assert(h =~= seq!['h']);
    lemma_trimmed_already(h);
    assert(ascii_lower_all(h) =~= h);
    assert(ink_named(h) is None);
    assert(elapsed_letters(h));
    let none = Seq::<Token>::empty();
    let s = token_step(cs, 0, none, None);
    assert(s.toks.len() == 1 && s.toks[0].datetime());
    lemma_stays_dated(cs, s.next, s.toks, s.color, 0);
}

/// A code that starts with `_("$"`.
proof fn lemma_accounting(cs: Seq<char>, p: int)
    requires
        5 < p < cs.len() <= 100,
        cs[0] == '_' && cs[2] == '"' && cs[3] != '"' && cs[4] == '"',
        cs[p] == ';',
        quiet(cs, 5, p),
    ensures
        sections_of(cs)[0].kind != Kind::Date,
{
    lemma_byte_len_most(cs);
    let none = Seq::<Token>::empty();
    let out = Seq::<SectionView>::empty();
    assert(token_step(cs, 0, none, None) == stepped(none.push(Tok::Skip), None, 2));
    assert(cs[2] != ';');
    reveal_with_fuel(until, 3);
    assert(until(cs, 3, '"') == 4);
    let one = none.push(Tok::Skip);
    let lit = cs.subrange(3, 4);
    let two = with_lit(one, lit);
    assert(token_step(cs, 2, one, None) == stepped(two, None, 5));
    assert(two =~= seq![Tok::Skip, Tok::Lit(lit)]);
    assert(undated(two));
    assert(scanned(cs, 0, out, none, None) == scanned(cs, 2, out, one, None));
    assert(scanned(cs, 2, out, one, None) == scanned(cs, 5, out, two, None));
    lemma_stays_undated(cs, 5, p, two, None);
}

/// The built-in formats that show a date or a time are those numbered from 14 to 22 and
/// from 45 to 47, and no others.
pub proof fn law_which_builtins_are_dates(id: u16)
    requires
        builtin_text(id) is Some,
    ensures
        (sections_of(builtin_text(id)->0)[0].kind == Kind::Date) == (14 <= id <= 22 || 45 <= id
            <= 47),
{
    reveal_with_fuel(quiet, 24);
    if id == 0 {
        reveal_strlit("General");
        lemma_general();
    } else if id == 1 {
        reveal_strlit("0");
        assert(quiet("0"@, 0, 1));
        lemma_undated_code("0"@, 1);
    } else if id == 2 {
        reveal_strlit("0.00");
        assert(quiet("0.00"@, 0, 4));
        lemma_undated_code("0.00"@, 4);
    } else if id == 3 {
        reveal_strlit("#,##0");
        assert(quiet("#,##0"@, 0, 5));
        lemma_undated_code("#,##0"@, 5);
    } else if id == 4 {
        reveal_strlit("#,##0.00");
        assert(quiet("#,##0.00"@, 0, 8));
        lemma_undated_code("#,##0.00"@, 8);
    } else if id == 5 {
        reveal_strlit("$#,##0_);($#,##0)");
        assert(quiet("$#,##0_);($#,##0)"@, 0, 8));
        lemma_undated_code("$#,##0_);($#,##0)"@, 8);
    } else if id == 6 {
        reveal_strlit("$#,##0_);[Red]($#,##0)");
        assert(quiet("$#,##0_);[Red]($#,##0)"@, 0, 8));
        lemma_undated_code("$#,##0_);[Red]($#,##0)"@, 8);
    } else if id == 7 {
        reveal_strlit("$#,##0.00_);($#,##0.00)");
        assert(quiet("$#,##0.00_);($#,##0.00)"@, 0, 11));
        lemma_undated_code("$#,##0.00_);($#,##0.00)"@, 11);
    } else if id == 8 {
        reveal_strlit("$#,##0.00_);[Red]($#,##0.00)");
        assert(quiet("$#,##0.00_);[Red]($#,##0.00)"@, 0, 11));
        lemma_undated_code("$#,##0.00_);[Red]($#,##0.00)"@, 11);
    } else if id == 9 {
        reveal_strlit("0%");
        assert(quiet("0%"@, 0, 2));
        lemma_undated_code("0%"@, 2);
    } else if id == 10 {
        reveal_strlit("0.00%");
        assert(quiet("0.00%"@, 0, 5));
        lemma_undated_code("0.00%"@, 5);
    } else if id == 11 {
        reveal_strlit("0.00E+00");
        assert(quiet("0.00E+00"@, 0, 8));
        lemma_undated_code("0.00E+00"@, 8);
    } else if id == 12 {
        reveal_strlit("# ?/?");
        assert(quiet("# ?/?"@, 0, 5));
        lemma_undated_code("# ?/?"@, 5);
    } else if id == 13 {
        reveal_strlit("# ??/??");
        assert(quiet("# ??/??"@, 0, 7));
        lemma_undated_code("# ??/??"@, 7);
    } else if id == 14 {
        reveal_strlit("m/d/yyyy");
        lemma_dated_code("m/d/yyyy"@);
    } else if id == 15 {
        reveal_strlit("d-mmm-yy");
        lemma_dated_code("d-mmm-yy"@);
    } else if id == 16 {
        reveal_strlit("d-mmm");
        lemma_dated_code("d-mmm"@);
    } else if id == 17 {
        reveal_strlit("mmm-yy");
        lemma_dated_code("mmm-yy"@);
    } else if id == 18 {
        reveal_strlit("h:mm AM/PM");
        lemma_dated_code("h:mm AM/PM"@);
    } else if id == 19 {
        reveal_strlit("h:mm:ss AM/PM");
        lemma_dated_code("h:mm:ss AM/PM"@);
    } else if id == 20 {
        reveal_strlit("h:mm");
        lemma_dated_code("h:mm"@);
    } else if id == 21 {
        reveal_strlit("h:mm:ss");
        lemma_dated_code("h:mm:ss"@);
    } else if id == 22 {
        reveal_strlit("m/d/yy h:mm");
        lemma_dated_code("m/d/yy h:mm"@);
    } else if id == 37 {
        reveal_strlit("#,##0_);(#,##0)");
        assert(quiet("#,##0_);(#,##0)"@, 0, 7));
        lemma_undated_code("#,##0_);(#,##0)"@, 7);
    } else if id == 38 {
        reveal_strlit("#,##0_);[Red](#,##0)");
        assert(quiet("#,##0_);[Red](#,##0)"@, 0, 7));
        lemma_undated_code("#,##0_);[Red](#,##0)"@, 7);
    } else if id == 39 {
        reveal_strlit("#,##0.00_);(#,##0.00)");
        assert(quiet("#,##0.00_);(#,##0.00)"@, 0, 10));
        lemma_undated_code("#,##0.00_);(#,##0.00)"@, 10);
    } else if id == 40 {
        reveal_strlit("#,##0.00_);[Red](#,##0.00)");
        assert(quiet("#,##0.00_);[Red](#,##0.00)"@, 0, 10));
        lemma_undated_code("#,##0.00_);[Red](#,##0.00)"@, 10);
    } else if id == 41 {
        reveal_strlit("_(* #,##0_);_(* (#,##0);_(* \"-\"_);_(@_)");
        assert(quiet("_(* #,##0_);_(* (#,##0);_(* \"-\"_);_(@_)"@, 0, 11));
        lemma_undated_code("_(* #,##0_);_(* (#,##0);_(* \"-\"_);_(@_)"@, 11);
    } else if id == 42 {
        reveal_strlit("_(\"$\"* #,##0_);_(\"$\"* (#,##0);_(\"$\"* \"-\"_);_(@_)");
        lemma_accounting("_(\"$\"* #,##0_);_(\"$\"* (#,##0);_(\"$\"* \"-\"_);_(@_)"@, 14);
    } else if id == 43 {
        reveal_strlit("_(* #,##0.00_);_(* (#,##0.00);_(* \"-\"??_);_(@_)");
        assert(quiet("_(* #,##0.00_);_(* (#,##0.00);_(* \"-\"??_);_(@_)"@, 0, 14));
        lemma_undated_code("_(* #,##0.00_);_(* (#,##0.00);_(* \"-\"??_);_(@_)"@, 14);
    } else if id == 44 {
        reveal_strlit("_(\"$\"* #,##0.00_);_(\"$\"* (#,##0.00);_(\"$\"* \"-\"??_);_(@_)");
        lemma_accounting("_(\"$\"* #,##0.00_);_(\"$\"* (#,##0.00);_(\"$\"* \"-\"??_);_(@_)"@, 17);
    } else if id == 45 {
        reveal_strlit("mm:ss");
        lemma_dated_code("mm:ss"@);
    } else if id == 46 {
        reveal_strlit("[h]:mm:ss");
        lemma_elapsed_first();
    } else if id == 47 {
        reveal_strlit("mm:ss.0");
        lemma_dated_code("mm:ss.0"@);
    } else if id == 48 {
        reveal_strlit("##0.0E+0");
        assert(quiet("##0.0E+0"@, 0, 8));
        lemma_undated_code("##0.0E+0"@, 8);
    } else if id == 49 {
        reveal_strlit("@");
        assert(quiet("@"@, 0, 1));
        lemma_undated_code("@"@, 1);
    }
}

} // verus!
