//! Number styles, which a document states as trees, turned into format codes.
//!
//! The format engine reads codes, so a style becomes a code and the engine does the
//! rest. What no token of a code can say (an era, a quarter, a week number, a condition
//! against anything but zero) adds nothing.

use vstd::prelude::*;
use crate::xml;
use crate::chars::{
    ascii_lower_all, byte_len, bytes_in, char_bytes, chars_of, decimal, is_space,
    lemma_byte_len_joined, lemma_byte_len_one, lemma_byte_len_push, push_all, push_text, push_u64,
    slice_of, space, string_of, text_is, to_lower_all, trim, trimmed, width_of,
};
use crate::names::{lemma_place_of, lookup, place_of, stored, Names};
use crate::numfmt::Format;
use crate::numfmt::digits::{push_repeated, repeated};
use crate::numfmt::sections::{scanned, sections_of, SectionView, MAX_TOKENS};
use crate::numfmt::tokens::{until, with_lit, Ink, Token};
use crate::xml::{document, trees, Element, Tree};

pub mod codes;
pub mod laws;

verus! {

/// Number styles kept.
pub const MAX_STYLES: usize = 1024;

/// Bytes per section, so that four of them and what parts them are still a code that
/// is read.
pub const MAX_BODY: usize = 120;

/// The longest code of a style: three sections, what parts them, and a minus sign.
pub const MAX_STYLE_CODE: usize = 363;

/// Conditions read per style.
pub const MAX_MAPS: usize = 8;

/// Placeholders written for one attribute.
pub const MAX_DIGITS: u32 = 20;

/// Characters of a name kept.
pub const MAX_NAME: usize = 128;

// ── a section under construction ─────────────────────────────────────────────

/// Whether `n` more bytes fit.
pub open spec fn room(s: Seq<char>, n: nat) -> bool {
    byte_len(s) + n <= MAX_BODY
}

/// The section with a piece of code after it, where it fits whole.
pub open spec fn coded(s: Seq<char>, piece: Seq<char>) -> Seq<char> {
    if room(s, byte_len(piece)) {
        s + piece
    } else {
        s
    }
}

pub open spec fn least(a: nat, b: nat) -> nat {
    if a < b {
        a
    } else {
        b
    }
}

/// The section with up to `n` placeholders after it, as many as fit.
pub open spec fn with_digits(s: Seq<char>, ch: char, n: u32) -> Seq<char> {
    let left = MAX_BODY - byte_len(s);
    let wanted = least(n as nat, MAX_DIGITS as nat);
    s + repeated(
        ch,
        if wanted < left {
            wanted as int
        } else {
            left
        },
    )
}

/// A character of document text that can stand in a quoted run.
pub open spec fn plain(c: char, percent: bool) -> bool {
    c != '"' && !(percent && c == '%')
}

/// How many characters the text starts with that can stand in a quoted run.
pub open spec fn plain_run(raw: Seq<char>, percent: bool) -> nat
    decreases raw.len(),
{
    if raw.len() > 0 && plain(raw[0], percent) {
        1 + plain_run(raw.skip(1), percent)
    } else {
        0
    }
}

/// How many of the first characters fit into a quoted run of at most `left` bytes.
pub open spec fn fitting(raw: Seq<char>, percent: bool, left: int) -> nat
    decreases raw.len(),
{
    if raw.len() > 0 && plain(raw[0], percent) && char_bytes(raw[0]) <= left {
        1 + fitting(raw.skip(1), percent, left - char_bytes(raw[0]))
    } else {
        0
    }
}

pub open spec fn quoted(s: Seq<char>) -> Seq<char> {
    seq!['"'] + s + seq!['"']
}

/// The section with document text after it: quoted runs, with each quote of the text
/// behind a backslash. The text ends where the next character has no room. In a
/// percentage style a percent sign is a token of its own. `after` says that a quoted
/// run stands right before.
pub open spec fn texted(s: Seq<char>, raw: Seq<char>, percent: bool, after: bool) -> Seq<char>
    decreases raw.len(),
{
    if raw.len() == 0 {
        s
    } else if raw[0] == '"' {
        if room(s, 2) {
            texted(s + seq!['\\', '"'], raw.skip(1), percent, false)
        } else {
            s
        }
    } else if percent && raw[0] == '%' {
        if room(
            s,
            if after {
                1
            } else {
                2
            },
        ) {
            texted(s.push('%'), raw.skip(1), percent, false)
        } else {
            s
        }
    } else {
        let n = fitting(raw, percent, MAX_BODY - byte_len(s) - 2);
        if n == 0 {
            s
        } else if n < plain_run(raw, percent) || n > raw.len() {
            s + quoted(raw.take(n as int))
        } else {
            texted(s + quoted(raw.take(n as int)), raw.skip(n as int), percent, true)
        }
    }
}

/// The part of document text that `texted` takes in.
pub open spec fn taken(s: Seq<char>, raw: Seq<char>, percent: bool, after: bool) -> Seq<char>
    decreases raw.len(),
{
    if raw.len() == 0 {
        Seq::empty()
    } else if raw[0] == '"' {
        if room(s, 2) {
            seq!['"'] + taken(s + seq!['\\', '"'], raw.skip(1), percent, false)
        } else {
            Seq::empty()
        }
    } else if percent && raw[0] == '%' {
        if room(
            s,
            if after {
                1
            } else {
                2
            },
        ) {
            seq!['%'] + taken(s.push('%'), raw.skip(1), percent, false)
        } else {
            Seq::empty()
        }
    } else {
        let n = fitting(raw, percent, MAX_BODY - byte_len(s) - 2);
        if n == 0 {
            Seq::empty()
        } else if n < plain_run(raw, percent) || n > raw.len() {
            raw.take(n as int)
        } else {
            raw.take(n as int) + taken(
                s + quoted(raw.take(n as int)),
                raw.skip(n as int),
                percent,
                true,
            )
        }
    }
}

pub proof fn lemma_fitting(raw: Seq<char>, percent: bool, left: int)
    ensures
        fitting(raw, percent, left) <= plain_run(raw, percent) <= raw.len(),
        forall|k: int|
            0 <= k < plain_run(raw, percent) ==> plain(#[trigger] raw[k], percent),
        left >= 0 ==> byte_len(raw.take(fitting(raw, percent, left) as int)) <= left,
    decreases raw.len(),
{
    assert(raw.take(0) =~= Seq::<char>::empty());
    if raw.len() > 0 && plain(raw[0], percent) {
        lemma_fitting(raw.skip(1), percent, left - char_bytes(raw[0]));
        let rest = raw.skip(1);
        let n = fitting(rest, percent, left - char_bytes(raw[0])) as int;
        assert forall|k: int| 0 <= k < plain_run(raw, percent) implies plain(
            #[trigger] raw[k],
            percent,
        ) by {
            if k > 0 {
                assert(rest[k - 1] == raw[k]);
            }
        }
        if char_bytes(raw[0]) <= left {
            assert(raw.take(n + 1) =~= seq![raw[0]] + rest.take(n));
            lemma_byte_len_joined(seq![raw[0]], rest.take(n));
            lemma_byte_len_one(raw[0]);
        }
    }
}

/// Document text never makes a section longer than is allowed.
pub proof fn law_text_stays_within_bounds(s: Seq<char>, raw: Seq<char>, percent: bool, after: bool)
    requires
        byte_len(s) <= MAX_BODY,
    ensures
        byte_len(texted(s, raw, percent, after)) <= MAX_BODY,
    decreases raw.len(),
{
    if raw.len() > 0 {
        if raw[0] == '"' {
            if room(s, 2) {
                lemma_byte_len_push(s, '\\');
                lemma_byte_len_push(s.push('\\'), '"');
                assert(s + seq!['\\', '"'] =~= s.push('\\').push('"'));
                law_text_stays_within_bounds(s + seq!['\\', '"'], raw.skip(1), percent, false);
            }
        } else if percent && raw[0] == '%' {
            if room(
                s,
                if after {
                    1
                } else {
                    2
                },
            ) {
                lemma_byte_len_push(s, '%');
                law_text_stays_within_bounds(s.push('%'), raw.skip(1), percent, false);
            }
        } else {
            let left = MAX_BODY - byte_len(s) - 2;
            let n = fitting(raw, percent, left);
            lemma_fitting(raw, percent, left);
            if n > 0 {
                lemma_quoted_bytes(s, raw.take(n as int));
                if n == plain_run(raw, percent) {
                    law_text_stays_within_bounds(
                        s + quoted(raw.take(n as int)),
                        raw.skip(n as int),
                        percent,
                        true,
                    );
                }
            }
        }
    }
}

proof fn lemma_quoted_bytes(s: Seq<char>, t: Seq<char>)
    ensures
        byte_len(s + quoted(t)) == byte_len(s) + byte_len(t) + 2,
{
    lemma_byte_len_joined(s, quoted(t));
    lemma_byte_len_joined(seq!['"'] + t, seq!['"']);
    lemma_byte_len_joined(seq!['"'], t);
    lemma_byte_len_one('"');
}

// ── document text reads back as itself ───────────────────────────────────────

proof fn lemma_with_lit_joined(toks: Seq<Token>, a: Seq<char>, b: Seq<char>)
    ensures
        with_lit(with_lit(toks, a), b) == with_lit(toks, a + b),
        with_lit(toks, a).len() <= toks.len() + 1,
        toks.len() > 0 && toks.last() is Lit ==> with_lit(toks, a).len() == toks.len(),
        a.len() > 0 ==> with_lit(toks, a).len() > 0 && with_lit(toks, a).last() is Lit,
{
    if a.len() == 0 {
        assert(a + b =~= b);
    } else if b.len() == 0 {
        assert(a + b =~= a);
    } else if toks.len() > 0 && toks.last() is Lit {
        let p = toks.last()->Lit_0;
        assert(p + a + b =~= p + (a + b));
        assert(with_lit(toks, a).drop_last() =~= toks.drop_last());
    } else {
        assert(with_lit(toks, a).drop_last() =~= toks);
    }
}

proof fn lemma_until_is(cs: Seq<char>, i: int, c: char, at: int)
    requires
        0 <= i <= at < cs.len(),
        cs[at] == c,
        forall|k: int| i <= k < at ==> cs[k] != c,
    ensures
        until(cs, i, c) == at,
    decreases at - i,
{
    if i < at {
        lemma_until_is(cs, i + 1, c, at);
    }
}

/// An escaped quote is read as a literal quote.
proof fn lemma_escape_step(
    cs: Seq<char>,
    at: int,
    out: Seq<SectionView>,
    toks: Seq<Token>,
    color: Option<Ink>,
)
    requires
        0 <= at,
        at + 2 <= cs.len(),
        cs.subrange(at, at + 2) == seq!['\\', '"'],
        out.len() < 4,
        toks.len() < MAX_TOKENS,
    ensures
        scanned(cs, at, out, toks, color) == scanned(
            cs,
            at + 2,
            out,
            with_lit(toks, seq!['"']),
            color,
        ),
{
    let q = cs.subrange(at, at + 2);
    assert(q[0] == cs[at] && q[1] == cs[at + 1]);
    assert(seq![cs[at + 1]] =~= seq!['"']);
}

/// A quoted run is read as a literal.
proof fn lemma_quoted_step(
    cs: Seq<char>,
    at: int,
    piece: Seq<char>,
    out: Seq<SectionView>,
    toks: Seq<Token>,
    color: Option<Ink>,
)
    requires
        0 <= at,
        at + piece.len() + 2 <= cs.len(),
        cs.subrange(at, at + piece.len() + 2) == quoted(piece),
        forall|k: int| 0 <= k < piece.len() ==> #[trigger] piece[k] != '"',
        out.len() < 4,
        toks.len() < MAX_TOKENS,
    ensures
        scanned(cs, at, out, toks, color) == scanned(
            cs,
            at + piece.len() + 2,
            out,
            with_lit(toks, piece),
            color,
        ),
{
    let n = piece.len() as int;
    let q = cs.subrange(at, at + n + 2);
    assert(q[0] == cs[at] && q[n + 1] == cs[at + n + 1]);
    assert forall|k: int| at + 1 <= k < at + n + 1 implies cs[k] != '"' by {
        assert(q[k - at] == cs[k]);
        assert(quoted(piece)[k - at] == piece[k - at - 1]);
    }
    lemma_until_is(cs, at + 1, '"', at + n + 1);
    assert(cs.subrange(at + 1, at + n + 1) =~= q.subrange(1, n + 1));
    assert(quoted(piece).subrange(1, n + 1) =~= piece);
}

proof fn lemma_two_parts(cs: Seq<char>, at: int, a: Seq<char>, b: Seq<char>)
    requires
        0 <= at,
        at + a.len() + b.len() <= cs.len(),
        cs.subrange(at, at + a.len() + b.len()) == a + b,
    ensures
        cs.subrange(at, at + a.len()) == a,
        cs.subrange(at + a.len(), at + a.len() + b.len()) == b,
{
    let w = cs.subrange(at, at + a.len() + b.len());
    assert(cs.subrange(at, at + a.len()) =~= w.take(a.len() as int));
    assert((a + b).take(a.len() as int) =~= a);
    assert(cs.subrange(at + a.len(), at + a.len() + b.len()) =~= w.skip(a.len() as int));
    assert((a + b).skip(a.len() as int) =~= b);
}

/// What document text adds to a section.
pub open spec fn added(s: Seq<char>, raw: Seq<char>, after: bool) -> Seq<char> {
    texted(s, raw, false, after).skip(s.len() as int)
}

proof fn lemma_added_step(s: Seq<char>, unit: Seq<char>, rest: Seq<char>, after: bool)
    ensures
        texted(s + unit, rest, false, after).skip(s.len() as int) == unit + added(
            s + unit,
            rest,
            after,
        ),
{
    lemma_texted_extends(s + unit, rest, false, after);
    let code = texted(s + unit, rest, false, after);
    let n = (s + unit).len() as int;
    assert(code =~= code.take(n) + code.skip(n));
    assert(code.skip(s.len() as int) =~= unit + code.skip(n));
}

/// The code that document text becomes is read back, wherever in a code it stands, as a
/// literal that holds the part of the text that was taken in, and as nothing else: it
/// opens no section, no bracket and no placeholder. (`at` is where the text's code
/// starts, `toks` what was read before it.)
pub proof fn law_document_text_reads_back(
    s: Seq<char>,
    raw: Seq<char>,
    after: bool,
    cs: Seq<char>,
    at: int,
    out: Seq<SectionView>,
    toks: Seq<Token>,
    color: Option<Ink>,
)
    requires
        byte_len(s) <= MAX_BODY,
        0 <= at,
        at + added(s, raw, after).len() <= cs.len(),
        cs.subrange(at, at + added(s, raw, after).len()) == added(s, raw, after),
        out.len() < 4,
        toks.len() < MAX_TOKENS,
        toks.len() + 1 < MAX_TOKENS || toks.last() is Lit,
    ensures
        scanned(cs, at, out, toks, color) == scanned(
            cs,
            at + added(s, raw, after).len(),
            out,
            with_lit(toks, taken(s, raw, false, after)),
            color,
        ),
    decreases raw.len(),
{
    if raw.len() > 0 && raw[0] == '"' && room(s, 2) {
        let unit = seq!['\\', '"'];
        let rest = raw.skip(1);
        lemma_byte_len_push(s, '\\');
        lemma_byte_len_push(s.push('\\'), '"');
        assert(s + unit =~= s.push('\\').push('"'));
        lemma_added_step(s, unit, rest, false);
        lemma_two_parts(cs, at, unit, added(s + unit, rest, false));
        lemma_escape_step(cs, at, out, toks, color);
        let toks2 = with_lit(toks, seq!['"']);
        lemma_with_lit_joined(toks, seq!['"'], taken(s + unit, rest, false, false));
        law_document_text_reads_back(s + unit, rest, false, cs, at + 2, out, toks2, color);
    } else if raw.len() > 0 && raw[0] != '"' && fitting(raw, false, MAX_BODY - byte_len(s) - 2)
        > 0 {
        let left = MAX_BODY - byte_len(s) - 2;
        let n = fitting(raw, false, left) as int;
        lemma_fitting(raw, false, left);
        let piece = raw.take(n);
        let unit = quoted(piece);
        assert forall|k: int| 0 <= k < piece.len() implies #[trigger] piece[k] != '"' by {
            assert(plain(raw[k], false));
        }
        lemma_quoted_bytes(s, piece);
        if n == plain_run(raw, false) {
            let rest = raw.skip(n);
            lemma_added_step(s, unit, rest, true);
            lemma_two_parts(cs, at, unit, added(s + unit, rest, true));
            lemma_quoted_step(cs, at, piece, out, toks, color);
            let toks2 = with_lit(toks, piece);
            lemma_with_lit_joined(toks, piece, taken(s + unit, rest, false, true));
            law_document_text_reads_back(
                s + unit,
                rest,
                true,
                cs,
                at + n + 2,
                out,
                toks2,
                color,
            );
        } else {
            assert((s + unit).skip(s.len() as int) =~= unit);
            lemma_quoted_step(cs, at, piece, out, toks, color);
        }
    } else {
        assert(s.skip(s.len() as int) =~= Seq::<char>::empty());
        assert(with_lit(toks, Seq::<char>::empty()) == toks);
    }
}

/// Document text only adds to what a section holds.
pub proof fn lemma_texted_extends(s: Seq<char>, raw: Seq<char>, percent: bool, after: bool)
    ensures
        texted(s, raw, percent, after).len() >= s.len(),
        texted(s, raw, percent, after).take(s.len() as int) == s,
    decreases raw.len(),
{
    let code = texted(s, raw, percent, after);
    assert(s.take(s.len() as int) =~= s);
    if raw.len() > 0 {
        let (s2, rest): (Seq<char>, Seq<char>) = if raw[0] == '"' {
            (s + seq!['\\', '"'], raw.skip(1))
        } else if percent && raw[0] == '%' {
            (s.push('%'), raw.skip(1))
        } else {
            let n = fitting(raw, percent, MAX_BODY - byte_len(s) - 2);
            (s + quoted(raw.take(n as int)), raw.skip(n as int))
        };
        lemma_fitting(raw, percent, MAX_BODY - byte_len(s) - 2);
        assert(s2.take(s.len() as int) =~= s);
        if rest.len() < raw.len() {
            lemma_texted_extends(s2, rest, percent, false);
            lemma_texted_extends(s2, rest, percent, true);
            assert(texted(s2, rest, percent, true).take(s.len() as int) =~= texted(
                s2,
                rest,
                percent,
                true,
            ).take(s2.len() as int).take(s.len() as int));
            assert(texted(s2, rest, percent, false).take(s.len() as int) =~= texted(
                s2,
                rest,
                percent,
                false,
            ).take(s2.len() as int).take(s.len() as int));
        }
    }
}

/// One section of a code under construction. `code` adds text that this module wrote,
/// `text` adds a document's text and escapes it. Neither stops in the middle of a
/// quoted run or of an escape.
#[derive(Debug)]
pub struct Body {
    s: Vec<char>,
    bytes: usize,
}

impl View for Body {
    type V = Seq<char>;

    closed spec fn view(&self) -> Seq<char> {
        self.s@
    }
}

proof fn lemma_repeated_bytes(c: char, n: int)
    requires
        char_bytes(c) == 1,
        n >= 0,
    ensures
        byte_len(repeated(c, n)) == n,
    decreases n,
{
    if n == 0 {
        assert(repeated(c, 0) =~= Seq::<char>::empty());
        assert(vstd::utf8::encode_utf8(Seq::<char>::empty()).len() == 0);
    } else {
        lemma_repeated_bytes(c, n - 1);
        assert(repeated(c, n) =~= repeated(c, n - 1).push(c));
        lemma_byte_len_push(repeated(c, n - 1), c);
    }
}

impl Body {
    /// The section is no longer than is allowed, and its length is known.
    pub closed spec fn ok(&self) -> bool {
        self.bytes == byte_len(self.s@) && self.bytes <= MAX_BODY
    }

    pub fn new() -> (b: Body)
        ensures
            b.ok(),
            b@ == Seq::<char>::empty(),
    {
        let s: Vec<char> = Vec::new();
        assert(s@ =~= Seq::<char>::empty());
        assert(vstd::utf8::encode_utf8(Seq::<char>::empty()).len() == 0);
        Body { s, bytes: 0 }
    }

    /// Whether `n` more bytes fit.
    pub fn room(&self, n: usize) -> (r: bool)
        requires
            self.ok(),
        ensures
            r == room(self@, n as nat),
    {
        n <= MAX_BODY && self.bytes + n <= MAX_BODY
    }

    /// Adds a piece of code, where it fits whole.
    pub fn code(&mut self, piece: &str)
        requires
            old(self).ok(),
        ensures
            final(self).ok(),
            final(self)@ == coded(old(self)@, piece@),
    {
        let n: usize = bytes_in(piece);
        if self.room(n) {
            proof {
                lemma_byte_len_joined(self.s@, piece@);
            }
            push_text(&mut self.s, piece);
            self.bytes = self.bytes + n;
        }
    }

    /// Adds up to `n` placeholders.
    pub fn digits(&mut self, ch: char, n: u32)
        requires
            old(self).ok(),
            char_bytes(ch) == 1,
        ensures
            final(self).ok(),
            final(self)@ == with_digits(old(self)@, ch, n),
    {
        let left: usize = MAX_BODY - self.bytes;
        let wanted: usize = if n < MAX_DIGITS {
            n as usize
        } else {
            MAX_DIGITS as usize
        };
        let more: usize = if wanted < left {
            wanted
        } else {
            left
        };
        proof {
            lemma_repeated_bytes(ch, more as int);
            lemma_byte_len_joined(self.s@, repeated(ch, more as int));
        }
        push_repeated(&mut self.s, ch, more);
        self.bytes = self.bytes + more;
    }

    /// Adds a document's text as literals. `percent` lets a percent sign through as the
    /// token that it is.
    pub fn text(&mut self, raw: &Vec<char>, percent: bool)
        requires
            old(self).ok(),
        ensures
            final(self).ok(),
            final(self)@ == texted(old(self)@, raw@, percent, false),
    {
        let ghost start = self@;
        let total: usize = raw.len();
        let mut i: usize = 0;
        let mut after: bool = false;
        assert(raw@.skip(0) =~= raw@);
        while i < total
            invariant
                i <= total,
                total == raw@.len(),
                self.ok(),
                texted(self@, raw@.skip(i as int), percent, after) == texted(
                    start,
                    raw@,
                    percent,
                    false,
                ),
                start == old(self)@,
            decreases total - i,
        {
            let c: char = raw[i];
            let ghost rest = raw@.skip(i as int);
            assert(rest[0] == c);
            assert(rest.skip(1) =~= raw@.skip(i + 1));
            if c == '"' {
                if !self.room(2) {
                    return;
                }
                proof {
                    lemma_byte_len_push(self.s@, '\\');
                    lemma_byte_len_push(self.s@.push('\\'), '"');
                    assert(self.s@ + seq!['\\', '"'] =~= self.s@.push('\\').push('"'));
                }
                self.s.push('\\');
                self.s.push('"');
                self.bytes = self.bytes + 2;
                i = i + 1;
                after = false;
            } else if percent && c == '%' {
                if !self.room(
                    if after {
                        1
                    } else {
                        2
                    },
                ) {
                    return;
                }
                proof {
                    lemma_byte_len_push(self.s@, '%');
                }
                self.s.push('%');
                self.bytes = self.bytes + 1;
                i = i + 1;
                after = false;
            } else {
                let j: usize = self.fit(raw, i, percent);
                let ghost n = j - i;
                if j == i {
                    return;
                }
                let piece: Vec<char> = slice_of(raw, i, j);
                assert(piece@ =~= rest.take(n));
                proof {
                    lemma_fitting(rest, percent, MAX_BODY - byte_len(self@) - 2);
                    lemma_quoted_bytes(self@, piece@);
                }
                let ghost before = self@;
                self.s.push('"');
                let mut used: usize = 0;
                let mut k: usize = 0;
                assert(piece@.take(0) =~= Seq::<char>::empty());
                assert(vstd::utf8::encode_utf8(Seq::<char>::empty()).len() == 0);
                while k < piece.len()
                    invariant
                        k <= piece@.len(),
                        used == byte_len(piece@.take(k as int)),
                        used <= 4 * k,
                        piece@.len() <= MAX_BODY,
                    decreases piece@.len() - k,
                {
                    proof {
                        lemma_byte_len_push(piece@.take(k as int), piece@[k as int]);
                        assert(piece@.take(k + 1) =~= piece@.take(k as int).push(
                            piece@[k as int],
                        ));
                    }
                    used = used + width_of(piece[k]);
                    k = k + 1;
                }
                assert(piece@.take(piece@.len() as int) =~= piece@);
                push_all(&mut self.s, &piece);
                self.s.push('"');
                assert(self.s@ =~= before + quoted(piece@));
                self.bytes = self.bytes + used + 2;
                assert(rest.skip(n) =~= raw@.skip(j as int));
                if j < total && raw[j] != '"' && !(percent && raw[j] == '%') {
                    return;
                }
                i = j;
                after = true;
            }
        }
    }

    /// Where the part of the text from `i` on that fits into a quoted run ends.
    fn fit(&self, raw: &Vec<char>, i: usize, percent: bool) -> (j: usize)
        requires
            self.ok(),
            i < raw@.len(),
        ensures
            i <= j <= raw@.len(),
            j - i == fitting(raw@.skip(i as int), percent, MAX_BODY - byte_len(self@) - 2),
            j - i <= MAX_BODY,
            (j - i < plain_run(raw@.skip(i as int), percent)) == (j < raw@.len() && plain(
                raw@[j as int],
                percent,
            )),
    {
        let ghost rest = raw@.skip(i as int);
        let ghost all: int = MAX_BODY - byte_len(self@) - 2;
        let mut left: usize = if self.bytes + 2 <= MAX_BODY {
            MAX_BODY - 2 - self.bytes
        } else {
            0
        };
        let none: bool = self.bytes + 2 > MAX_BODY;
        let mut j: usize = i;
        assert(rest.skip(0) =~= rest);
        while j < raw.len() && !none && raw[j] != '"' && !(percent && raw[j] == '%') && width_of(
            raw[j],
        ) <= left
            invariant
                i <= j <= raw@.len(),
                rest == raw@.skip(i as int),
                all == MAX_BODY - byte_len(self@) - 2,
                none == (all < 0),
                left + (j - i) <= MAX_BODY,
                fitting(rest, percent, all) == (j - i) + fitting(
                    rest.skip(j - i),
                    percent,
                    if none {
                        all
                    } else {
                        left as int
                    },
                ),
                plain_run(rest, percent) == (j - i) + plain_run(rest.skip(j - i), percent),
            decreases raw@.len() - j,
        {
            assert(rest.skip(j - i)[0] == raw@[j as int]);
            assert(rest.skip(j - i).skip(1) =~= rest.skip(j - i + 1));
            left = left - width_of(raw[j]);
            j = j + 1;
        }
        if j < raw.len() {
            assert(rest.skip(j - i)[0] == raw@[j as int]);
        }
        j
    }

    pub fn finish(self) -> (r: String)
        requires
            self.ok(),
        ensures
            r@ == self@,
            byte_len(r@) <= MAX_BODY,
    {
        string_of(&self.s)
    }
}

// ── styles ───────────────────────────────────────────────────────────────────

#[derive(Clone, Copy, PartialEq, Eq, Debug, Structural)]
pub enum Kind {
    Number,
    Percentage,
    Currency,
    Date,
    Time,
    Boolean,
    Text,
}

pub open spec fn kind_named(local: Seq<char>) -> Option<Kind> {
    if local == "number-style"@ {
        Some(Kind::Number)
    } else if local == "percentage-style"@ {
        Some(Kind::Percentage)
    } else if local == "currency-style"@ {
        Some(Kind::Currency)
    } else if local == "date-style"@ {
        Some(Kind::Date)
    } else if local == "time-style"@ {
        Some(Kind::Time)
    } else if local == "boolean-style"@ {
        Some(Kind::Boolean)
    } else if local == "text-style"@ {
        Some(Kind::Text)
    } else {
        None
    }
}

fn kind_of(e: &Element) -> (r: Option<Kind>)
    ensures
        r == kind_named(e@.name),
{
    if e.is("number-style") {
        Some(Kind::Number)
    } else if e.is("percentage-style") {
        Some(Kind::Percentage)
    } else if e.is("currency-style") {
        Some(Kind::Currency)
    } else if e.is("date-style") {
        Some(Kind::Date)
    } else if e.is("time-style") {
        Some(Kind::Time)
    } else if e.is("boolean-style") {
        Some(Kind::Boolean)
    } else if e.is("text-style") {
        Some(Kind::Text)
    } else {
        None
    }
}

/// Which values a condition is about.
#[derive(Clone, Copy, PartialEq, Eq, Debug, Structural)]
pub enum Cond {
    Positive,
    Negative,
    Zero,
}

/// A text without its white space.
pub open spec fn without_space(v: Seq<char>) -> Seq<char>
    decreases v.len(),
{
    if v.len() == 0 {
        Seq::empty()
    } else if is_space(v.last()) {
        without_space(v.drop_last())
    } else {
        without_space(v.drop_last()).push(v.last())
    }
}

/// What a condition selects. A threshold other than zero selects nothing.
pub open spec fn cond_of(v: Seq<char>) -> Option<Cond> {
    let s = without_space(v);
    if s == "value()>=0"@ || s == "value()>0"@ {
        Some(Cond::Positive)
    } else if s == "value()<0"@ || s == "value()<=0"@ {
        Some(Cond::Negative)
    } else if s == "value()=0"@ || s == "value()==0"@ {
        Some(Cond::Zero)
    } else {
        None
    }
}

fn condition(v: &str) -> (r: Option<Cond>)
    ensures
        r == cond_of(v@),
{
    let cs: Vec<char> = chars_of(v);
    let mut s: Vec<char> = Vec::new();
    for i in 0..cs.len()
        invariant
            s@ == without_space(cs@.take(i as int)),
    {
        assert(cs@.take(i + 1).drop_last() =~= cs@.take(i as int));
        if !space(cs[i]) {
            s.push(cs[i]);
        }
    }
    assert(cs@.take(cs@.len() as int) =~= cs@);
    if text_is(&s, "value()>=0") || text_is(&s, "value()>0") {
        Some(Cond::Positive)
    } else if text_is(&s, "value()<0") || text_is(&s, "value()<=0") {
        Some(Cond::Negative)
    } else if text_is(&s, "value()=0") || text_is(&s, "value()==0") {
        Some(Cond::Zero)
    } else {
        None
    }
}

/// The colour bracket of one of the eight colours that a code can name; no other
/// colour is taken for one of them.
pub open spec fn bracket_of(hex: Seq<char>) -> Option<Seq<char>> {
    let h = ascii_lower_all(trimmed(hex));
    if h == "#000000"@ {
        Some("[Black]"@)
    } else if h == "#0000ff"@ {
        Some("[Blue]"@)
    } else if h == "#00ffff"@ {
        Some("[Cyan]"@)
    } else if h == "#008000"@ {
        Some("[Green]"@)
    } else if h == "#ff00ff"@ {
        Some("[Magenta]"@)
    } else if h == "#ff0000"@ {
        Some("[Red]"@)
    } else if h == "#ffffff"@ {
        Some("[White]"@)
    } else if h == "#ffff00"@ {
        Some("[Yellow]"@)
    } else {
        None
    }
}

/// The bracket that sets a colour, where it is one of those that have a name.
pub fn bracket_color(hex: &str) -> (r: Option<&'static str>)
    ensures
        r is Some == bracket_of(hex@) is Some,
        r matches Some(b) ==> b@ == bracket_of(hex@)->0,
{
    let h: Vec<char> = to_lower_all(&trim(&chars_of(hex)));
    if text_is(&h, "#000000") {
        Some("[Black]")
    } else if text_is(&h, "#0000ff") {
        Some("[Blue]")
    } else if text_is(&h, "#00ffff") {
        Some("[Cyan]")
    } else if text_is(&h, "#008000") {
        Some("[Green]")
    } else if text_is(&h, "#ff00ff") {
        Some("[Magenta]")
    } else if text_is(&h, "#ff0000") {
        Some("[Red]")
    } else if text_is(&h, "#ffffff") {
        Some("[White]")
    } else if text_is(&h, "#ffff00") {
        Some("[Yellow]")
    } else {
        None
    }
}

/// A name out of a document: trimmed, cut to length, and not empty.
pub open spec fn name_from(v: Option<Seq<char>>, most: nat) -> Option<Seq<char>> {
    match v {
        Some(v) => {
            let t = trimmed(v);
            if t.len() == 0 {
                None
            } else {
                Some(
                    t.take(
                        if t.len() < most {
                            t.len() as int
                        } else {
                            most as int
                        },
                    ),
                )
            }
        },
        None => None,
    }
}

/// The name that an attribute holds.
pub fn name_of(e: &Element, attr: &str, most: usize) -> (r: Option<String>)
    ensures
        r is Some == name_from(e@.attr(attr@), most as nat) is Some,
        r matches Some(s) ==> s@ == name_from(e@.attr(attr@), most as nat)->0,
{
    match e.attr_local(attr) {
        Some(v) => {
            let t: Vec<char> = trim(&chars_of(v));
            if t.len() == 0 {
                return None;
            }
            let n: usize = if t.len() < most {
                t.len()
            } else {
                most
            };
            assert(t@.subrange(0, n as int) =~= t@.take(n as int));
            Some(string_of(&slice_of(&t, 0, n)))
        },
        None => None,
    }
}

// ── what the parts of a style write ──────────────────────────────────────────

/// A digit count, kept within reason.
pub open spec fn digits_attr(e: Tree, attr: Seq<char>) -> Option<u32> {
    match e.attr_u32(attr) {
        Some(v) => Some(
            if v < MAX_DIGITS {
                v
            } else {
                MAX_DIGITS
            },
        ),
        None => None,
    }
}

fn digits(e: &Element, attr: &str) -> (r: Option<u32>)
    ensures
        r == digits_attr(e@, attr@),
{
    match e.attr_u32(attr) {
        Some(v) => Some(
            if v < MAX_DIGITS {
                v
            } else {
                MAX_DIGITS
            },
        ),
        None => None,
    }
}

pub open spec fn or_else(v: Option<u32>, d: u32) -> u32 {
    match v {
        Some(v) => v,
        None => d,
    }
}

pub open spec fn one_at_least(v: u32) -> u32 {
    if v < 1 {
        1
    } else {
        v
    }
}

pub open spec fn is_long(e: Tree) -> bool {
    e.attr("style"@) matches Some(v) && trimmed(v) == "long"@
}

fn long(e: &Element) -> (r: bool)
    ensures
        r == is_long(e@),
{
    match e.attr_local("style") {
        Some(v) => text_is(&trim(&chars_of(v)), "long"),
        None => false,
    }
}

pub open spec fn flag_or(v: Option<bool>, d: bool) -> bool {
    match v {
        Some(v) => v,
        None => d,
    }
}

pub open spec fn decimals_code(s: Seq<char>, e: Tree) -> Seq<char> {
    let dec = or_else(digits_attr(e, "decimal-places"@), 0);
    if dec > 0 {
        with_digits(coded(s, "."@), '0', dec)
    } else {
        s
    }
}

fn decimals(b: &mut Body, e: &Element)
    requires
        old(b).ok(),
    ensures
        final(b).ok(),
        final(b)@ == decimals_code(old(b)@, e@),
{
    let dec: u32 = digits(e, "decimal-places").unwrap_or(0);
    if dec > 0 {
        b.code(".");
        b.digits('0', dec);
    }
}

/// A plain number: grouping, integer placeholders, decimals.
pub open spec fn number_code(s: Seq<char>, e: Tree) -> Seq<char> {
    let ints = or_else(digits_attr(e, "min-integer-digits"@), 1);
    let grouping = flag_or(e.attr_bool("grouping"@), false);
    let a = if grouping {
        coded(s, "#,##"@)
    } else {
        s
    };
    let b = if ints > 0 {
        with_digits(a, '0', ints)
    } else if grouping {
        a
    } else {
        coded(a, "#"@)
    };
    decimals_code(b, e)
}

fn number(b: &mut Body, e: &Element)
    requires
        old(b).ok(),
    ensures
        final(b).ok(),
        final(b)@ == number_code(old(b)@, e@),
{
    let ints: u32 = digits(e, "min-integer-digits").unwrap_or(1);
    let grouping: bool = e.attr_bool("grouping").unwrap_or(false);
    if grouping {
        b.code("#,##");
    }
    if ints == 0 {
        if !grouping {
            b.code("#");
        }
    } else {
        b.digits('0', ints);
    }
    decimals(b, e);
}

pub open spec fn scientific_code(s: Seq<char>, e: Tree) -> Seq<char> {
    let a = decimals_code(
        with_digits(s, '0', one_at_least(or_else(digits_attr(e, "min-integer-digits"@), 1))),
        e,
    );
    let b = coded(
        a,
        if flag_or(e.attr_bool("forced-exponent-sign"@), true) {
            "E+"@
        } else {
            "E-"@
        },
    );
    with_digits(b, '0', one_at_least(or_else(digits_attr(e, "min-exponent-digits"@), 2)))
}

fn at_least_one(v: u32) -> (r: u32)
    ensures
        r == one_at_least(v),
{
    if v < 1 {
        1
    } else {
        v
    }
}

fn scientific(b: &mut Body, e: &Element)
    requires
        old(b).ok(),
    ensures
        final(b).ok(),
        final(b)@ == scientific_code(old(b)@, e@),
{
    b.digits('0', at_least_one(digits(e, "min-integer-digits").unwrap_or(1)));
    decimals(b, e);
    if e.attr_bool("forced-exponent-sign").unwrap_or(true) {
        b.code("E+");
    } else {
        b.code("E-");
    }
    b.digits('0', at_least_one(digits(e, "min-exponent-digits").unwrap_or(2)));
}

/// A denominator that the style fixes, quoted so that no digit of it is read as a
/// placeholder.
pub open spec fn fixed_den(e: Tree) -> Option<Seq<char>> {
    match e.attr_u32("denominator-value"@) {
        Some(v) => if v > 0 {
            Some(
                quoted(
                    decimal(
                        if v < 9999 {
                            v as nat
                        } else {
                            9999
                        },
                    ),
                ),
            )
        } else {
            None
        },
        None => None,
    }
}

pub open spec fn fraction_code(s: Seq<char>, e: Tree) -> Seq<char> {
    let ints = or_else(digits_attr(e, "min-integer-digits"@), 0);
    let a = if ints > 0 {
        coded(with_digits(s, '0', ints), " "@)
    } else {
        s
    };
    let b = coded(
        with_digits(a, '?', one_at_least(or_else(digits_attr(e, "min-numerator-digits"@), 1))),
        "/"@,
    );
    match fixed_den(e) {
        Some(den) => coded(b, den),
        None => with_digits(
            b,
            '?',
            one_at_least(or_else(digits_attr(e, "min-denominator-digits"@), 1)),
        ),
    }
}

fn fraction(b: &mut Body, e: &Element)
    requires
        old(b).ok(),
    ensures
        final(b).ok(),
        final(b)@ == fraction_code(old(b)@, e@),
{
    let ints: u32 = digits(e, "min-integer-digits").unwrap_or(0);
    if ints > 0 {
        b.digits('0', ints);
        b.code(" ");
    }
    b.digits('?', at_least_one(digits(e, "min-numerator-digits").unwrap_or(1)));
    b.code("/");
    let fixed: u32 = e.attr_u32("denominator-value").unwrap_or(0);
    if fixed > 0 {
        let mut den: Vec<char> = Vec::new();
        den.push('"');
        let shown: u64 = if fixed < 9999 {
            fixed as u64
        } else {
            9999
        };
        push_u64(&mut den, shown);
        den.push('"');
        assert(den@ =~= fixed_den(e@)->0);
        b.code(string_of(&den).as_str());
    } else {
        b.digits('?', at_least_one(digits(e, "min-denominator-digits").unwrap_or(1)));
    }
}

pub open spec fn two(long: bool, a: Seq<char>, b: Seq<char>) -> Seq<char> {
    if long {
        a
    } else {
        b
    }
}

/// What one child of a style adds to the section.
pub open spec fn part_code(s: Seq<char>, c: Tree, percent: bool, boolean: Seq<char>) -> Seq<char> {
    let long = is_long(c);
    if c.name == "text"@ {
        texted(s, c.inner_text(), percent, false)
    } else if c.name == "currency-symbol"@ {
        texted(s, c.inner_text(), false, false)
    } else if c.name == "number"@ {
        number_code(s, c)
    } else if c.name == "scientific-number"@ {
        scientific_code(s, c)
    } else if c.name == "fraction"@ {
        fraction_code(s, c)
    } else if c.name == "year"@ {
        coded(s, two(long, "yyyy"@, "yy"@))
    } else if c.name == "month"@ {
        coded(
            s,
            if flag_or(c.attr_bool("textual"@), false) {
                two(long, "mmmm"@, "mmm"@)
            } else {
                two(long, "mm"@, "m"@)
            },
        )
    } else if c.name == "day"@ {
        coded(s, two(long, "dd"@, "d"@))
    } else if c.name == "day-of-week"@ {
        coded(s, two(long, "dddd"@, "ddd"@))
    } else if c.name == "hours"@ {
        coded(s, two(long, "hh"@, "h"@))
    } else if c.name == "minutes"@ {
        coded(s, two(long, "mm"@, "m"@))
    } else if c.name == "seconds"@ {
        decimals_code(coded(s, two(long, "ss"@, "s"@)), c)
    } else if c.name == "am-pm"@ {
        coded(s, "AM/PM"@)
    } else if c.name == "boolean"@ {
        texted(s, boolean, false, false)
    } else if c.name == "text-content"@ {
        coded(s, "@"@)
    } else {
        s
    }
}

/// What the children of a style add, in document order.
pub open spec fn parts_code(
    s: Seq<char>,
    v: Seq<Tree>,
    percent: bool,
    boolean: Seq<char>,
) -> Seq<char>
    decreases v.len(),
{
    if v.len() == 0 {
        s
    } else {
        part_code(parts_code(s, v.drop_last(), percent, boolean), v.last(), percent, boolean)
    }
}

/// The section of a style: its colour bracket, then its parts.
pub open spec fn section_code(
    e: Tree,
    kind: Kind,
    color: Option<Seq<char>>,
    boolean: Seq<char>,
) -> Seq<char> {
    let start = match color {
        Some(c) => coded(Seq::empty(), c),
        None => Seq::empty(),
    };
    parts_code(start, e.elems(), kind == Kind::Percentage, boolean)
}

fn push_two(b: &mut Body, long: bool, one: &str, other: &str)
    requires
        old(b).ok(),
    ensures
        final(b).ok(),
        final(b)@ == coded(old(b)@, two(long, one@, other@)),
{
    if long {
        b.code(one);
    } else {
        b.code(other);
    }
}

fn part(b: &mut Body, c: &Element, percent: bool, boolean: &str)
    requires
        old(b).ok(),
    ensures
        final(b).ok(),
        final(b)@ == part_code(old(b)@, c@, percent, boolean@),
{
    if c.is("text") {
        b.text(&c.inner_text(), percent);
    } else if c.is("currency-symbol") {
        b.text(&c.inner_text(), false);
    } else if c.is("number") {
        number(b, c);
    } else if c.is("scientific-number") {
        scientific(b, c);
    } else if c.is("fraction") {
        fraction(b, c);
    } else if c.is("year") {
        push_two(b, long(c), "yyyy", "yy");
    } else if c.is("month") {
        if c.attr_bool("textual").unwrap_or(false) {
            push_two(b, long(c), "mmmm", "mmm");
        } else {
            push_two(b, long(c), "mm", "m");
        }
    } else if c.is("day") {
        push_two(b, long(c), "dd", "d");
    } else if c.is("day-of-week") {
        push_two(b, long(c), "dddd", "ddd");
    } else if c.is("hours") {
        push_two(b, long(c), "hh", "h");
    } else if c.is("minutes") {
        push_two(b, long(c), "mm", "m");
    } else if c.is("seconds") {
        push_two(b, long(c), "ss", "s");
        decimals(b, c);
    } else if c.is("am-pm") {
        b.code("AM/PM");
    } else if c.is("boolean") {
        b.text(&chars_of(boolean), false);
    } else if c.is("text-content") {
        b.code("@");
    }
}

fn body(e: &Element, kind: Kind, color: Option<&'static str>, boolean: &str) -> (r: String)
    ensures
        r@ == section_code(
            e@,
            kind,
            match color {
                Some(c) => Some(c@),
                None => None,
            },
            boolean@,
        ),
        byte_len(r@) <= MAX_BODY,
{
    let mut b: Body = Body::new();
    if let Some(c) = color {
        b.code(c);
    }
    let percent: bool = kind == Kind::Percentage;
    let v: Vec<&Element> = e.elems();
    let ghost ts = trees(v@);
    let ghost start = b@;
    assert(ts.take(0) =~= Seq::<Tree>::empty());
    for i in 0..v.len()
        invariant
            b.ok(),
            ts == trees(v@),
            b@ == parts_code(start, ts.take(i as int), percent, boolean@),
    {
        assert(ts.take(i + 1).drop_last() =~= ts.take(i as int));
        assert(ts.take(i + 1).last() == v@[i as int]@);
        part(&mut b, v[i], percent, boolean);
    }
    assert(ts.take(ts.len() as int) =~= ts);
    b.finish()
}

// ── definitions ──────────────────────────────────────────────────────────────

/// A condition and the style that it hands a value to.
#[derive(Debug)]
pub struct Mapping {
    pub cond: Cond,
    pub target: String,
}

/// One number style, reduced to sections.
#[derive(Debug)]
pub struct Def {
    /// What the style itself shows.
    pub section: String,
    /// A section for negative values that the style states on its own.
    pub neg: Option<String>,
    /// A section for zero that the style states on its own.
    pub zero: Option<String>,
    pub maps: Vec<Mapping>,
    /// The section is for text cells.
    pub text: bool,
}

#[verifier::ext_equal]
pub struct DefView {
    pub section: Seq<char>,
    pub neg: Option<Seq<char>>,
    pub zero: Option<Seq<char>>,
    pub maps: Seq<(Cond, Seq<char>)>,
    pub text: bool,
}

pub open spec fn text_view(s: Option<String>) -> Option<Seq<char>> {
    match s {
        Some(s) => Some(s@),
        None => None,
    }
}

pub open spec fn map_views(v: Seq<Mapping>) -> Seq<(Cond, Seq<char>)> {
    v.map_values(|m: Mapping| (m.cond, m.target@))
}

impl View for Def {
    type V = DefView;

    open spec fn view(&self) -> DefView {
        DefView {
            section: self.section@,
            neg: text_view(self.neg),
            zero: text_view(self.zero),
            maps: map_views(self.maps@),
            text: self.text,
        }
    }
}

impl DefView {
    /// Every section is within bounds.
    pub open spec fn bounded(self) -> bool {
        &&& byte_len(self.section) <= MAX_BODY
        &&& self.neg matches Some(s) ==> byte_len(s) <= MAX_BODY
        &&& self.zero matches Some(s) ==> byte_len(s) <= MAX_BODY
    }
}

/// The conditions among a style's children, of the first `MAX_MAPS` that it states.
pub open spec fn maps_of(v: Seq<Tree>) -> Seq<(Cond, Seq<char>)>
    decreases v.len(),
{
    if v.len() == 0 {
        Seq::empty()
    } else {
        let m = v.last();
        let before = maps_of(v.drop_last());
        let cond = match m.attr("condition"@) {
            Some(c) => cond_of(c),
            None => None,
        };
        let target = name_from(m.attr("apply-style-name"@), MAX_NAME as nat);
        if m.name == "map"@ && maps_stated(v.drop_last()) < MAX_MAPS && cond is Some
            && target is Some {
            before.push((cond->0, target->0))
        } else {
            before
        }
    }
}

pub open spec fn maps_stated(v: Seq<Tree>) -> nat
    decreases v.len(),
{
    if v.len() == 0 {
        0
    } else {
        maps_stated(v.drop_last()) + if v.last().name == "map"@ {
            1nat
        } else {
            0
        }
    }
}

/// The definition that a style element makes.
pub open spec fn def_of(e: Tree, kind: Kind) -> DefView {
    let color = match e.child("text-properties"@) {
        Some(t) => match t.attr("color"@) {
            Some(c) => bracket_of(c),
            None => None,
        },
        None => None,
    };
    let boolean = kind == Kind::Boolean;
    DefView {
        section: section_code(e, kind, color, "TRUE"@),
        neg: if boolean {
            Some(section_code(e, kind, color, "TRUE"@))
        } else {
            None
        },
        zero: if boolean {
            Some(section_code(e, kind, color, "FALSE"@))
        } else {
            None
        },
        maps: maps_of(e.elems()),
        text: kind == Kind::Text,
    }
}

fn maps_in(e: &Element) -> (r: Vec<Mapping>)
    ensures
        map_views(r@) == maps_of(e@.elems()),
{
    let v: Vec<&Element> = e.elems();
    let ghost ts = trees(v@);
    let mut r: Vec<Mapping> = Vec::new();
    let mut seen: usize = 0;
    assert(ts.take(0) =~= Seq::<Tree>::empty());
    assert(map_views(r@) =~= Seq::<(Cond, Seq<char>)>::empty());
    for i in 0..v.len()
        invariant
            ts == trees(v@),
            seen <= i,
            seen == maps_stated(ts.take(i as int)),
            map_views(r@) == maps_of(ts.take(i as int)),
    {
        assert(ts.take(i + 1).drop_last() =~= ts.take(i as int));
        assert(ts.take(i + 1).last() == v@[i as int]@);
        let m: &Element = v[i];
        if m.is("map") {
            if seen < MAX_MAPS {
                let cond: Option<Cond> = match m.attr_local("condition") {
                    Some(c) => condition(c),
                    None => None,
                };
                let target: Option<String> = name_of(m, "apply-style-name", MAX_NAME);
                if let Some(cond) = cond {
                    if let Some(target) = target {
                        let ghost before = r@;
                        r.push(Mapping { cond, target });
                        assert(map_views(r@) =~= map_views(before).push((cond, target@)));
                    }
                }
            }
            seen = seen + 1;
        }
    }
    assert(ts.take(ts.len() as int) =~= ts);
    r
}

fn build(e: &Element, kind: Kind) -> (d: Def)
    ensures
        d@ == def_of(e@, kind),
        d@.bounded(),
{
    let color: Option<&'static str> = match e.child("text-properties") {
        Some(t) => match t.attr_local("color") {
            Some(c) => bracket_color(c),
            None => None,
        },
        None => None,
    };
    let boolean: bool = kind == Kind::Boolean;
    let d = Def {
        section: body(e, kind, color, "TRUE"),
        neg: if boolean {
            Some(body(e, kind, color, "TRUE"))
        } else {
            None
        },
        zero: if boolean {
            Some(body(e, kind, color, "FALSE"))
        } else {
            None
        },
        maps: maps_in(e),
        text: kind == Kind::Text,
    };
    assert(d@ =~= def_of(e@, kind));
    d
}

// ── the document's styles ────────────────────────────────────────────────────

/// The number styles of a document, by name.
pub type DefRows = Seq<(Seq<char>, DefView)>;

/// The styles after one more style element. Past `MAX_STYLES` none is kept.
pub open spec fn with_style(defs: DefRows, e: Tree) -> DefRows {
    let name = name_from(e.attr("name"@), MAX_NAME as nat);
    if defs.len() >= MAX_STYLES || kind_named(e.name) is None || name is None {
        defs
    } else {
        stored(defs, name->0, def_of(e, kind_named(e.name)->0))
    }
}

pub open spec fn with_styles(defs: DefRows, v: Seq<Tree>) -> DefRows
    decreases v.len(),
{
    if v.len() == 0 {
        defs
    } else {
        with_style(with_styles(defs, v.drop_last()), v.last())
    }
}

pub open spec fn holds_styles(e: Tree) -> bool {
    e.name == "styles"@ || e.name == "automatic-styles"@
}

/// The styles after the style containers among some elements.
pub open spec fn with_containers(defs: DefRows, v: Seq<Tree>) -> DefRows
    decreases v.len(),
{
    if v.len() == 0 {
        defs
    } else {
        let before = with_containers(defs, v.drop_last());
        if holds_styles(v.last()) {
            with_styles(before, v.last().elems())
        } else {
            before
        }
    }
}

/// The styles after one part of a document; a part that cannot be read adds none.
pub open spec fn with_part(defs: DefRows, part: Option<Tree>) -> DefRows {
    match part {
        Some(root) => with_containers(defs, root.elems()),
        None => defs,
    }
}

/// A document's number styles. The body's own win over the stylesheet's.
#[derive(Debug)]
pub struct Numbers {
    defs: Names<Def>,
}

/// Every section of every style is within bounds.
pub open spec fn all_bounded(defs: DefRows) -> bool {
    forall|k: int| 0 <= k < defs.len() ==> (#[trigger] defs[k]).1.bounded()
}

/// The section of the style that the first condition of this kind hands over to. One
/// step only: what that style itself maps is not followed, and a text style has no
/// section for values.
pub open spec fn mapped_section(defs: DefRows, d: DefView, cond: Cond) -> Option<Seq<char>> {
    let i = map_at(d.maps, cond, 0);
    if i < d.maps.len() {
        match lookup(defs, d.maps[i].1) {
            Some(t) => if t.text {
                None
            } else {
                Some(t.section)
            },
            None => None,
        }
    } else {
        None
    }
}

pub open spec fn map_at(maps: Seq<(Cond, Seq<char>)>, cond: Cond, i: int) -> int
    decreases maps.len() - i,
{
    if 0 <= i < maps.len() && maps[i].0 != cond {
        map_at(maps, cond, i + 1)
    } else {
        i
    }
}

/// The code of a style: its section for positive values, then those for negative ones
/// and for zero where there are any. Where a condition claims the positive values, the
/// style's own section is the one for negative values.
pub open spec fn code_of(defs: DefRows, d: DefView) -> Seq<char> {
    let semi = seq![';'];
    if d.text {
        "General;General;General;"@ + d.section
    } else {
        let claimed = mapped_section(defs, d, Cond::Positive);
        let pos = match claimed {
            Some(s) => s,
            None => d.section,
        };
        let neg = match mapped_section(defs, d, Cond::Negative) {
            Some(s) => Some(s),
            None => if claimed is Some {
                Some(d.section)
            } else {
                d.neg
            },
        };
        let zero = match mapped_section(defs, d, Cond::Zero) {
            Some(s) => Some(s),
            None => d.zero,
        };
        match (neg, zero) {
            (None, None) => pos,
            (Some(n), None) => pos + semi + n,
            (None, Some(z)) => pos + semi + seq!['-'] + pos + semi + z,
            (Some(n), Some(z)) => pos + semi + n + semi + z,
        }
    }
}

impl Numbers {
    pub closed spec fn rows(&self) -> DefRows {
        self.defs@
    }

    #[verifier::type_invariant]
    spec fn inv(&self) -> bool {
        all_bounded(self.defs@)
    }

    /// A document without number styles.
    pub fn empty() -> (r: Numbers)
        ensures
            r.rows() == DefRows::empty(),
    {
        let defs: Names<Def> = Names::new();
        assert(defs@ =~= DefRows::empty());
        Numbers { defs }
    }

    /// The number styles of a stylesheet, if there is one, and of a body.
    pub fn parse(styles_xml: Option<&str>, content_xml: &str) -> (r: Numbers)
        ensures
            r.rows() == with_part(
                match styles_xml {
                    Some(s) => with_part(DefRows::empty(), document(s@)),
                    None => DefRows::empty(),
                },
                document(content_xml@),
            ),
    {
        let mut out: Numbers = Numbers::empty();
        if let Some(s) = styles_xml {
            if let Some(root) = xml::parse(s) {
                out = out.load(&root);
            }
        }
        if let Some(root) = xml::parse(content_xml) {
            out = out.load(&root);
        }
        out
    }

    /// The styles with those of one more part.
    pub fn load(self, root: &Element) -> (r: Numbers)
        ensures
            r.rows() == with_part(self.rows(), Some(root@)),
    {
        proof {
            use_type_invariant(&self);
        }
        let ghost start = self.rows();
        let mut defs: Names<Def> = self.defs;
        let v: Vec<&Element> = root.elems();
        let ghost ts = trees(v@);
        assert(ts.take(0) =~= Seq::<Tree>::empty());
        for i in 0..v.len()
            invariant
                ts == trees(v@),
                all_bounded(defs@),
                defs@ == with_containers(start, ts.take(i as int)),
        {
            assert(ts.take(i + 1).drop_last() =~= ts.take(i as int));
            assert(ts.take(i + 1).last() == v@[i as int]@);
            let c: &Element = v[i];
            if c.is("styles") || c.is("automatic-styles") {
                load_styles(&mut defs, c);
            }
        }
        assert(ts.take(ts.len() as int) =~= ts);
        Numbers { defs }
    }

    pub fn has(&self, name: &str) -> (r: bool)
        ensures
            r == lookup(self.rows(), name@) is Some,
    {
        self.defs.has(name)
    }

    /// The code that a style makes, sections and all. It is short enough for the format
    /// engine, so that no style silently becomes General.
    pub fn code(&self, name: &str) -> (r: Option<String>)
        ensures
            r is Some == lookup(self.rows(), name@) is Some,
            r matches Some(s) ==> s@ == code_of(self.rows(), lookup(self.rows(), name@)->0),
            r matches Some(s) ==> byte_len(s@) <= MAX_STYLE_CODE,
    {
        proof {
            use_type_invariant(&*self);
            lemma_bounded_at(self.rows(), name@);
        }
        let d: &Def = match self.defs.get(name) {
            Some(d) => d,
            None => {
                return None;
            },
        };
        let mut out: Vec<char> = Vec::new();
        if d.text {
            push_text(&mut out, "General;General;General;");
            push_text(&mut out, d.section.as_str());
            assert(out@ =~= code_of(self.rows(), d@));
            proof {
                lemma_general_prefix(d.section@);
            }
            return Some(string_of(&out));
        }
        let claimed: Option<&str> = self.mapped(d, Cond::Positive);
        let pos: &str = match claimed {
            Some(s) => s,
            None => d.section.as_str(),
        };
        let neg: Option<&str> = match self.mapped(d, Cond::Negative) {
            Some(s) => Some(s),
            None => if claimed.is_some() {
                Some(d.section.as_str())
            } else {
                match &d.neg {
                    Some(s) => Some(s.as_str()),
                    None => None,
                }
            },
        };
        let zero: Option<&str> = match self.mapped(d, Cond::Zero) {
            Some(s) => Some(s),
            None => match &d.zero {
                Some(s) => Some(s.as_str()),
                None => None,
            },
        };
        push_text(&mut out, pos);
        match (neg, zero) {
            (None, None) => {},
            (Some(n), None) => {
                out.push(';');
                push_text(&mut out, n);
            },
            (None, Some(z)) => {
                out.push(';');
                out.push('-');
                push_text(&mut out, pos);
                out.push(';');
                push_text(&mut out, z);
            },
            (Some(n), Some(z)) => {
                out.push(';');
                push_text(&mut out, n);
                out.push(';');
                push_text(&mut out, z);
            },
        }
        assert(out@ =~= code_of(self.rows(), d@));
        proof {
            lemma_code_bytes(self.rows(), d@);
        }
        Some(string_of(&out))
    }

    /// The style's code, parsed. `None` only for a style that the document lacks.
    pub fn format(&self, name: &str) -> (r: Option<Format>)
        ensures
            r is Some == lookup(self.rows(), name@) is Some,
            r matches Some(f) ==> f.sections() == sections_of(
                code_of(self.rows(), lookup(self.rows(), name@)->0),
            ) && !f.epoch_1904(),
    {
        match self.code(name) {
            Some(code) => Some(Format::parse(code.as_str())),
            None => None,
        }
    }

    fn mapped(&self, d: &Def, cond: Cond) -> (r: Option<&str>)
        ensures
            r is Some == mapped_section(self.rows(), d@, cond) is Some,
            r matches Some(s) ==> s@ == mapped_section(self.rows(), d@, cond)->0,
            r matches Some(s) ==> byte_len(s@) <= MAX_BODY,
    {
        proof {
            use_type_invariant(&*self);
        }
        let ghost mv = map_views(d.maps@);
        let mut i: usize = 0;
        while i < d.maps.len() && d.maps[i].cond != cond
            invariant
                i <= d.maps@.len(),
                mv == map_views(d.maps@),
                map_at(mv, cond, i as int) == map_at(mv, cond, 0),
            decreases d.maps@.len() - i,
        {
            assert(mv[i as int] == (d.maps@[i as int].cond, d.maps@[i as int].target@));
            i = i + 1;
        }
        if i >= d.maps.len() {
            return None;
        }
        assert(mv[i as int] == (d.maps@[i as int].cond, d.maps@[i as int].target@));
        let name: &String = &d.maps[i].target;
        proof {
            lemma_bounded_at(self.rows(), name@);
        }
        match self.defs.get(name.as_str()) {
            Some(t) => if t.text {
                None
            } else {
                Some(t.section.as_str())
            },
            None => None,
        }
    }
}

proof fn lemma_bounded_at(defs: DefRows, name: Seq<char>)
    requires
        all_bounded(defs),
    ensures
        lookup(defs, name) matches Some(d) ==> d.bounded(),
{
    lemma_place_of(defs, name, 0);
    let i = place_of(defs, name, 0);
    if i < defs.len() {
        assert(defs[i].1.bounded());
    }
}

proof fn lemma_general_prefix(s: Seq<char>)
    requires
        byte_len(s) <= MAX_BODY,
    ensures
        byte_len("General;General;General;"@ + s) <= MAX_STYLE_CODE,
{
    reveal_strlit("General;General;General;");
    let g = "General;General;General;"@;
    lemma_byte_len_joined(g, s);
    vstd::utf8::is_ascii_chars_encode_utf8(g);
    assert(byte_len(g) == 24);
}

proof fn lemma_code_bytes(defs: DefRows, d: DefView)
    requires
        all_bounded(defs),
        d.bounded(),
        !d.text,
    ensures
        byte_len(code_of(defs, d)) <= MAX_STYLE_CODE,
{
    let semi = seq![';'];
    lemma_byte_len_one(';');
    lemma_byte_len_one('-');
    let claimed = mapped_section(defs, d, Cond::Positive);
    lemma_mapped_bytes(defs, d, Cond::Positive);
    lemma_mapped_bytes(defs, d, Cond::Negative);
    lemma_mapped_bytes(defs, d, Cond::Zero);
    let pos = match claimed {
        Some(s) => s,
        None => d.section,
    };
    let neg = match mapped_section(defs, d, Cond::Negative) {
        Some(s) => Some(s),
        None => if claimed is Some {
            Some(d.section)
        } else {
            d.neg
        },
    };
    let zero = match mapped_section(defs, d, Cond::Zero) {
        Some(s) => Some(s),
        None => d.zero,
    };
    match (neg, zero) {
        (None, None) => {},
        (Some(n), None) => {
            lemma_byte_len_joined(pos + semi, n);
            lemma_byte_len_joined(pos, semi);
        },
        (None, Some(z)) => {
            lemma_byte_len_joined(pos + semi + seq!['-'] + pos + semi, z);
            lemma_byte_len_joined(pos + semi + seq!['-'] + pos, semi);
            lemma_byte_len_joined(pos + semi + seq!['-'], pos);
            lemma_byte_len_joined(pos + semi, seq!['-']);
            lemma_byte_len_joined(pos, semi);
        },
        (Some(n), Some(z)) => {
            lemma_byte_len_joined(pos + semi + n + semi, z);
            lemma_byte_len_joined(pos + semi + n, semi);
            lemma_byte_len_joined(pos + semi, n);
            lemma_byte_len_joined(pos, semi);
        },
    }
}

proof fn lemma_mapped_bytes(defs: DefRows, d: DefView, cond: Cond)
    requires
        all_bounded(defs),
    ensures
        mapped_section(defs, d, cond) matches Some(s) ==> byte_len(s) <= MAX_BODY,
{
    let i = map_at(d.maps, cond, 0);
    if i < d.maps.len() {
        lemma_bounded_at(defs, d.maps[i].1);
    }
}

fn load_styles(defs: &mut Names<Def>, container: &Element)
    requires
        all_bounded(old(defs)@),
    ensures
        all_bounded(final(defs)@),
        final(defs)@ == with_styles(old(defs)@, container@.elems()),
{
    let ghost start = defs@;
    let v: Vec<&Element> = container.elems();
    let ghost ts = trees(v@);
    assert(ts.take(0) =~= Seq::<Tree>::empty());
    for i in 0..v.len()
        invariant
            ts == trees(v@),
            all_bounded(defs@),
            defs@ == with_styles(start, ts.take(i as int)),
    {
        assert(ts.take(i + 1).drop_last() =~= ts.take(i as int));
        assert(ts.take(i + 1).last() == v@[i as int]@);
        let e: &Element = v[i];
        if defs.len() < MAX_STYLES {
            if let Some(kind) = kind_of(e) {
                if let Some(name) = name_of(e, "name", MAX_NAME) {
                    let d: Def = build(e, kind);
                    let ghost before = defs@;
                    proof {
                        lemma_place_of(before, name@, 0);
                    }
                    let ghost key = name@;
                    defs.put(name, d);
                    assert forall|k: int| 0 <= k < defs@.len() implies (
                    #[trigger] defs@[k]).1.bounded() by {
                        let at = place_of(before, key, 0);
                        if k != at {
                            assert(defs@[k] == before[k]);
                        }
                    }
                }
            }
        }
    }
    assert(ts.take(ts.len() as int) =~= ts);
}

} // verus!
