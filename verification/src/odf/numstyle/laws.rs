//! What holds of the codes that number styles become.

use vstd::prelude::*;
use crate::chars::{
    ascii_lower_all, byte_len, is_space, lemma_byte_len_joined, lemma_byte_len_push,
    lemma_trimmed_already, trimmed,
};
use crate::numfmt::{shown, Amount, Sign};
use crate::numfmt::numbers::{deal, deal_start, fill_of, minus, Digits};
use crate::numfmt::sections::{
    count, finished, first, lit_text, minutes_resolved, num_spec_of, says_general, scanned,
    sections_of, Kind, SectionView, What, MAX_TOKENS,
};
use crate::numfmt::tokens::{
    bracket_step, ink_named, stepped, token_step, until, with_lit, Ink, Tok, Token,
};
use crate::odf::numstyle::{
    added, bracket_of, fitting, law_document_text_reads_back, law_text_stays_within_bounds,
    lemma_fitting, lemma_quoted_bytes, lemma_texted_extends, lemma_until_is, plain, plain_run,
    quoted, room, taken, texted, MAX_BODY,
};

verus! {

// ── where a code ends ────────────────────────────────────────────────────────

/// Where the end of a code stands, as the format engine reads it.
pub enum Place {
    Outside,
    /// Inside a quoted run.
    Quoted,
    /// Behind a character that takes the next one with it.
    Escaped,
    /// Inside a bracket.
    Bracketed,
}

pub open spec fn place_after(s: Seq<char>) -> Place
    decreases s.len(),
{
    if s.len() == 0 {
        Place::Outside
    } else {
        let c = s.last();
        match place_after(s.drop_last()) {
            Place::Outside => if c == '"' {
                Place::Quoted
            } else if c == '\\' || c == '_' || c == '*' {
                Place::Escaped
            } else if c == '[' {
                Place::Bracketed
            } else {
                Place::Outside
            },
            Place::Quoted => if c == '"' {
                Place::Outside
            } else {
                Place::Quoted
            },
            Place::Escaped => Place::Outside,
            Place::Bracketed => if c == ']' {
                Place::Outside
            } else {
                Place::Bracketed
            },
        }
    }
}

proof fn lemma_place_inside(s: Seq<char>, t: Seq<char>)
    requires
        place_after(s) is Outside,
        forall|k: int| 0 <= k < t.len() ==> #[trigger] t[k] != '"',
    ensures
        place_after(s + (seq!['"'] + t)) is Quoted,
    decreases t.len(),
{
    let w = s + (seq!['"'] + t);
    if t.len() == 0 {
        assert(w.drop_last() =~= s);
    } else {
        let d = t.drop_last();
        lemma_place_inside(s, d);
        assert(w.drop_last() =~= s + (seq!['"'] + d));
        assert(w.last() == t[t.len() - 1]);
    }
}

proof fn lemma_place_behind_run(s: Seq<char>, t: Seq<char>)
    requires
        place_after(s) is Outside,
        forall|k: int| 0 <= k < t.len() ==> #[trigger] t[k] != '"',
    ensures
        place_after(s + quoted(t)) is Outside,
{
    lemma_place_inside(s, t);
    assert((s + quoted(t)).drop_last() =~= s + (seq!['"'] + t));
}

/// Document text is added behind what a section holds, ends outside every quoted run and
/// every escape however long it is, and keeps the section within bounds.
pub proof fn law_text_ends_outside_quotes(
    s: Seq<char>,
    raw: Seq<char>,
    percent: bool,
    after: bool,
)
    requires
        byte_len(s) <= MAX_BODY,
        place_after(s) is Outside,
    ensures
        byte_len(texted(s, raw, percent, after)) <= MAX_BODY,
        s.is_prefix_of(texted(s, raw, percent, after)),
        place_after(texted(s, raw, percent, after)) is Outside,
{
    law_text_stays_within_bounds(s, raw, percent, after);
    lemma_texted_extends(s, raw, percent, after);
    let code = texted(s, raw, percent, after);
    assert(s =~= code.subrange(0, s.len() as int));
    lemma_text_place(s, raw, percent, after);
}

proof fn lemma_text_place(s: Seq<char>, raw: Seq<char>, percent: bool, after: bool)
    requires
        place_after(s) is Outside,
    ensures
        place_after(texted(s, raw, percent, after)) is Outside,
    decreases raw.len(),
{
    if raw.len() > 0 {
        if raw[0] == '"' {
            let s2 = s + seq!['\\', '"'];
            assert(s2.drop_last() =~= s.push('\\'));
            assert(s.push('\\').drop_last() =~= s);
            assert(place_after(s.push('\\')) is Escaped);
            lemma_text_place(s2, raw.skip(1), percent, false);
        } else if percent && raw[0] == '%' {
            assert(s.push('%').drop_last() =~= s);
            lemma_text_place(s.push('%'), raw.skip(1), percent, false);
        } else {
            let left = MAX_BODY - byte_len(s) - 2;
            let n = fitting(raw, percent, left) as int;
            lemma_fitting(raw, percent, left);
            if n > 0 {
                let piece = raw.take(n);
                assert forall|k: int| 0 <= k < piece.len() implies #[trigger] piece[k] != '"' by {
                    assert(plain(raw[k], percent));
                }
                lemma_place_behind_run(s, piece);
                lemma_text_place(s + quoted(piece), raw.skip(n), percent, true);
            }
        }
    }
}

// ── document text shows as itself ────────────────────────────────────────────

/// The quotes in a text.
pub open spec fn quotes_in(raw: Seq<char>) -> nat
    decreases raw.len(),
{
    if raw.len() == 0 {
        0
    } else {
        quotes_in(raw.skip(1)) + if raw[0] == '"' {
            1nat
        } else {
            0nat
        }
    }
}

proof fn lemma_plain_part(raw: Seq<char>, left: int)
    requires
        byte_len(raw) <= left,
    ensures
        fitting(raw, false, left) == plain_run(raw, false),
        quotes_in(raw) == quotes_in(raw.skip(plain_run(raw, false) as int)),
        plain_run(raw, false) < raw.len() ==> raw[plain_run(raw, false) as int] == '"',
        raw.len() > 0 && raw[0] != '"' ==> plain_run(raw, false) > 0,
    decreases raw.len(),
{
    if raw.len() > 0 && raw[0] != '"' {
        let rest = raw.skip(1);
        assert(raw =~= seq![raw[0]] + rest);
        lemma_byte_len_joined(seq![raw[0]], rest);
        crate::chars::lemma_byte_len_one(raw[0]);
        lemma_plain_part(rest, left - crate::chars::char_bytes(raw[0]));
        let n = plain_run(rest, false) as int;
        lemma_fitting(rest, false, 0);
        assert(rest.skip(n) =~= raw.skip(n + 1));
        assert(n < rest.len() ==> rest[n] == raw[n + 1]);
    } else {
        assert(raw.skip(0) =~= raw);
    }
}

/// A text that has room is taken in whole. Behind a quoted run comes a quote or nothing.
proof fn lemma_all_taken(s: Seq<char>, raw: Seq<char>, after: bool)
    requires
        byte_len(s) + byte_len(raw) + 3 * quotes_in(raw) + (if after {
            0int
        } else {
            2
        }) <= MAX_BODY,
        after && raw.len() > 0 ==> raw[0] == '"',
    ensures
        taken(s, raw, false, after) == raw,
        raw.len() > 0 ==> texted(s, raw, false, after).len() > s.len(),
    decreases raw.len(),
{
    if raw.len() > 0 {
        if raw[0] == '"' {
            let rest = raw.skip(1);
            assert(raw =~= seq!['"'] + rest);
            lemma_byte_len_joined(seq!['"'], rest);
            crate::chars::lemma_byte_len_one('"');
            let s2 = s + seq!['\\', '"'];
            assert(s2 =~= s.push('\\').push('"'));
            lemma_byte_len_push(s, '\\');
            lemma_byte_len_push(s.push('\\'), '"');
            lemma_all_taken(s2, rest, false);
            lemma_texted_extends(s2, rest, false, false);
        } else {
            let left = MAX_BODY - byte_len(s) - 2;
            lemma_plain_part(raw, left);
            lemma_fitting(raw, false, left);
            let n = plain_run(raw, false) as int;
            let piece = raw.take(n);
            let rest = raw.skip(n);
            assert(raw =~= piece + rest);
            lemma_byte_len_joined(piece, rest);
            lemma_quoted_bytes(s, piece);
            lemma_all_taken(s + quoted(piece), rest, true);
            lemma_texted_extends(s + quoted(piece), rest, false, true);
        }
    }
}

proof fn lemma_one_literal(raw: Seq<char>)
    requires
        raw.len() > 0,
        ascii_lower_all(trimmed(raw)) != "general"@,
    ensures
        ({
            let toks = seq![Tok::Lit(raw)];
            let sec = finished(toks, None);
            &&& sec.kind == Kind::Number
            &&& sec.toks == toks
            &&& sec.color is None
            &&& !sec.num.has_digits
            &&& !sec.hides()
        }),
{
    let toks: Seq<Token> = seq![Tok::Lit(raw)];
    assert(toks.drop_last() =~= Seq::<Token>::empty());
    assert(toks.last() == Tok::<Seq<char>>::Lit(raw));
    reveal_with_fuel(count, 2);
    reveal_with_fuel(lit_text, 2);
    reveal_with_fuel(first, 2);
    assert(lit_text(toks) =~= raw);
    assert(!says_general(toks));
    assert(minutes_resolved(toks) =~= toks);
    assert(first(toks, 0, What::Datetime) == 1);
    assert(crate::numfmt::sections::frac_spec_of(toks) is None);
    assert(!num_spec_of(toks).has_digits) by {
        lemma_no_digits(toks);
    }
}

proof fn lemma_no_digits(toks: Seq<Token>)
    requires
        toks.len() == 1,
        toks[0] is Lit,
    ensures
        !num_spec_of(toks).has_digits,
{
    reveal_with_fuel(count, 2);
    reveal_with_fuel(first, 2);
    assert(toks.drop_last() =~= Seq::<Token>::empty());
    assert(toks.take(1) =~= toks);
}

/// Document text that has room is read back by the format engine as one section of one
/// literal, and that is what the format shows of every number: the text itself, behind a
/// minus sign for a number below zero. The one word that a section alone cannot show is
/// `General`, which means the General format.
pub proof fn law_document_text_shows_as_itself(
    raw: Seq<char>,
    sign: Sign,
    digits: Digits,
    date1904: bool,
)
    requires
        raw.len() > 0,
        byte_len(raw) + 3 * quotes_in(raw) + 2 <= MAX_BODY,
        ascii_lower_all(trimmed(raw)) != "general"@,
    ensures
        ({
            let sections = sections_of(texted(Seq::empty(), raw, false, false));
            &&& sections.len() == 1
            &&& sections[0].kind == Kind::Number
            &&& sections[0].toks == seq![Tok::Lit(raw)]
            &&& shown(sections, sign, Amount::Number(Some(digits)), date1904) == minus(
                sign == Sign::Negative,
            ) + raw
        }),
{
    let none = Seq::<char>::empty();
    assert(vstd::utf8::encode_utf8(none).len() == 0);
    lemma_all_taken(none, raw, false);
    law_text_stays_within_bounds(none, raw, false, false);
    let code = texted(none, raw, false, false);
    let add = added(none, raw, false);
    assert(add =~= code);
    assert(code.subrange(0, code.len() as int) =~= code);
    law_document_text_reads_back(
        none,
        raw,
        false,
        code,
        0,
        Seq::<SectionView>::empty(),
        Seq::<Token>::empty(),
        None,
    );
    let toks: Seq<Token> = seq![Tok::Lit(raw)];
    assert(with_lit(Seq::<Token>::empty(), raw) =~= toks);
    let sec = finished(toks, None);
    let sections = sections_of(code);
    assert(sections =~= seq![sec]);
    lemma_one_literal(raw);
    let f = fill_of(sec.num, digits);
    let force = sign == Sign::Negative;
    reveal_with_fuel(deal, 2);
    assert(toks.drop_last() =~= Seq::<Token>::empty());
    assert(toks.last() == Tok::<Seq<char>>::Lit(raw));
    assert(deal(toks, f, force).out =~= deal_start(force).out + raw);
}

// ── colours ──────────────────────────────────────────────────────────────────

proof fn lemma_ink_names()
    ensures
        ink_named("black"@) == Some(Ink::Black),
        ink_named("blue"@) == Some(Ink::Blue),
        ink_named("cyan"@) == Some(Ink::Cyan),
        ink_named("green"@) == Some(Ink::Green),
        ink_named("magenta"@) == Some(Ink::Magenta),
        ink_named("red"@) == Some(Ink::Red),
        ink_named("white"@) == Some(Ink::White),
        ink_named("yellow"@) == Some(Ink::Yellow),
{
    reveal_strlit("color");
    reveal_strlit("black");
    reveal_strlit("blue");
    reveal_strlit("cyan");
    reveal_strlit("green");
    reveal_strlit("magenta");
    reveal_strlit("red");
    reveal_strlit("white");
    reveal_strlit("yellow");
    assert("black"@[0] == 'b' && "green"@[0] == 'g' && "white"@[0] == 'w');
    assert("blue"@[0] == 'b' && "cyan"@[0] == 'c');
    assert("black"@.len() == 5 && "green"@.len() == 5 && "white"@.len() == 5);
    assert("blue"@.len() == 4 && "cyan"@.len() == 4 && "red"@.len() == 3);
    assert("magenta"@.len() == 7 && "yellow"@.len() == 6);
}

proof fn lemma_bracket_body(cs: Seq<char>, at: int, name: Seq<char>)
    requires
        0 <= at,
        name.len() > 0,
        at + name.len() + 2 <= cs.len(),
        cs.subrange(at, at + name.len() + 2) == seq!['['] + name + seq![']'],
        forall|k: int| 0 <= k < name.len() ==> #[trigger] name[k] != ']',
        !is_space(name[0]),
        !is_space(name.last()),
    ensures
        cs[at] == '[',
        until(cs, at + 1, ']') == at + name.len() + 1,
        trimmed(cs.subrange(at + 1, at + name.len() + 1)) == name,
{
    let n = name.len() as int;
    let b = seq!['['] + name + seq![']'];
    let q = cs.subrange(at, at + n + 2);
    assert(q[0] == cs[at] && b[0] == '[');
    assert(q[n + 1] == cs[at + n + 1] && b[n + 1] == ']');
    assert forall|k: int| at + 1 <= k < at + n + 1 implies cs[k] != ']' by {
        assert(q[k - at] == cs[k]);
        assert(b[k - at] == name[k - at - 1]);
    }
    lemma_until_is(cs, at + 1, ']', at + n + 1);
    assert(cs.subrange(at + 1, at + n + 1) =~= q.subrange(1, n + 1));
    assert(b.subrange(1, n + 1) =~= name);
    lemma_trimmed_already(name);
}

proof fn lemma_bracket_step(
    cs: Seq<char>,
    at: int,
    name: Seq<char>,
    ink: Ink,
    out: Seq<SectionView>,
    toks: Seq<Token>,
    color: Option<Ink>,
)
    requires
        0 <= at,
        name.len() > 0,
        at + name.len() + 2 <= cs.len(),
        cs.subrange(at, at + name.len() + 2) == seq!['['] + name + seq![']'],
        forall|k: int| 0 <= k < name.len() ==> #[trigger] name[k] != ']',
        !is_space(name[0]),
        !is_space(name.last()),
        ink_named(ascii_lower_all(name)) == Some(ink),
        out.len() < 4,
        toks.len() < MAX_TOKENS,
    ensures
        scanned(cs, at, out, toks, color) == scanned(
            cs,
            at + name.len() + 2,
            out,
            toks,
            Some(ink),
        ),
{
    lemma_bracket_body(cs, at, name);
    let next = at + name.len() + 2;
    assert(bracket_step(cs, at, toks, color) == stepped(toks, Some(ink), next));
    assert(token_step(cs, at, toks, color) == stepped(toks, Some(ink), next));
}

/// The colour bracket that a style is given is read back, wherever in a code it stands,
/// as the colour that the style states.
pub proof fn law_a_color_bracket_reads_back(
    hex: Seq<char>,
    cs: Seq<char>,
    at: int,
    out: Seq<SectionView>,
    toks: Seq<Token>,
    color: Option<Ink>,
)
    requires
        bracket_of(hex) is Some,
        0 <= at,
        at + bracket_of(hex)->0.len() <= cs.len(),
        cs.subrange(at, at + bracket_of(hex)->0.len()) == bracket_of(hex)->0,
        out.len() < 4,
        toks.len() < MAX_TOKENS,
    ensures
        exists|ink: Ink|
            #[trigger] ink.css_text() == ascii_lower_all(trimmed(hex)) && scanned(
                cs,
                at,
                out,
                toks,
                color,
            ) == scanned(cs, at + bracket_of(hex)->0.len(), out, toks, Some(ink)),
{
    lemma_ink_names();
    let h = ascii_lower_all(trimmed(hex));
    if h == "#000000"@ {
        reveal_strlit("Black");
        reveal_strlit("[Black]");
        reveal_strlit("black");
        assert("[Black]"@ =~= seq!['['] + "Black"@ + seq![']']);
        assert(ascii_lower_all("Black"@) =~= "black"@);
        lemma_bracket_step(cs, at, "Black"@, Ink::Black, out, toks, color);
        assert(Ink::Black.css_text() == h);
    } else if h == "#0000ff"@ {
        reveal_strlit("Blue");
        reveal_strlit("[Blue]");
        reveal_strlit("blue");
        assert("[Blue]"@ =~= seq!['['] + "Blue"@ + seq![']']);
        assert(ascii_lower_all("Blue"@) =~= "blue"@);
        lemma_bracket_step(cs, at, "Blue"@, Ink::Blue, out, toks, color);
        assert(Ink::Blue.css_text() == h);
    } else if h == "#00ffff"@ {
        reveal_strlit("Cyan");
        reveal_strlit("[Cyan]");
        reveal_strlit("cyan");
        assert("[Cyan]"@ =~= seq!['['] + "Cyan"@ + seq![']']);
        assert(ascii_lower_all("Cyan"@) =~= "cyan"@);
        lemma_bracket_step(cs, at, "Cyan"@, Ink::Cyan, out, toks, color);
        assert(Ink::Cyan.css_text() == h);
    } else if h == "#008000"@ {
        reveal_strlit("Green");
        reveal_strlit("[Green]");
        reveal_strlit("green");
        assert("[Green]"@ =~= seq!['['] + "Green"@ + seq![']']);
        assert(ascii_lower_all("Green"@) =~= "green"@);
        lemma_bracket_step(cs, at, "Green"@, Ink::Green, out, toks, color);
        assert(Ink::Green.css_text() == h);
    } else if h == "#ff00ff"@ {
        reveal_strlit("Magenta");
        reveal_strlit("[Magenta]");
        reveal_strlit("magenta");
        assert("[Magenta]"@ =~= seq!['['] + "Magenta"@ + seq![']']);
        assert(ascii_lower_all("Magenta"@) =~= "magenta"@);
        lemma_bracket_step(cs, at, "Magenta"@, Ink::Magenta, out, toks, color);
        assert(Ink::Magenta.css_text() == h);
    } else if h == "#ff0000"@ {
        reveal_strlit("Red");
        reveal_strlit("[Red]");
        reveal_strlit("red");
        assert("[Red]"@ =~= seq!['['] + "Red"@ + seq![']']);
        assert(ascii_lower_all("Red"@) =~= "red"@);
        lemma_bracket_step(cs, at, "Red"@, Ink::Red, out, toks, color);
        assert(Ink::Red.css_text() == h);
    } else if h == "#ffffff"@ {
        reveal_strlit("White");
        reveal_strlit("[White]");
        reveal_strlit("white");
        assert("[White]"@ =~= seq!['['] + "White"@ + seq![']']);
        assert(ascii_lower_all("White"@) =~= "white"@);
        lemma_bracket_step(cs, at, "White"@, Ink::White, out, toks, color);
        assert(Ink::White.css_text() == h);
    } else {
        reveal_strlit("Yellow");
        reveal_strlit("[Yellow]");
        reveal_strlit("yellow");
        assert("[Yellow]"@ =~= seq!['['] + "Yellow"@ + seq![']']);
        assert(ascii_lower_all("Yellow"@) =~= "yellow"@);
        lemma_bracket_step(cs, at, "Yellow"@, Ink::Yellow, out, toks, color);
        assert(Ink::Yellow.css_text() == h);
    }
}

/// A colour has a bracket where it is one of the eight that a code can name, and only
/// there: no other is taken for one of them.
pub proof fn law_only_named_colors_have_brackets(hex: Seq<char>)
    ensures
        bracket_of(hex) is Some <==> exists|ink: Ink|
            ink != Ink::Lime && #[trigger] ink.css_text() == ascii_lower_all(trimmed(hex)),
{
    let h = ascii_lower_all(trimmed(hex));
    if bracket_of(hex) is Some {
        if h == "#000000"@ {
            assert(Ink::Black.css_text() == h);
        } else if h == "#0000ff"@ {
            assert(Ink::Blue.css_text() == h);
        } else if h == "#00ffff"@ {
            assert(Ink::Cyan.css_text() == h);
        } else if h == "#008000"@ {
            assert(Ink::Green.css_text() == h);
        } else if h == "#ff00ff"@ {
            assert(Ink::Magenta.css_text() == h);
        } else if h == "#ff0000"@ {
            assert(Ink::Red.css_text() == h);
        } else if h == "#ffffff"@ {
            assert(Ink::White.css_text() == h);
        } else {
            assert(Ink::Yellow.css_text() == h);
        }
    }
}

} // verus!
