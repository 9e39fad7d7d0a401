//! Search terms, and the marks they get in a text.

use vstd::prelude::*;
use crate::chars::{
    ascii_lower_all, chars_of, decimal, is_ascii_alpha, is_digit, is_space, law_decimal_reads_back,
    push_text, push_u64, slice_of, space, string_of, to_lower_all, trim, trimmed,
};
use crate::html::{escaped, escaped_char, lemma_escaped_is_balanced, push_escaped};
use crate::markup::{
    are_attrs, balanced, close_text, law_balanced_joined, law_element_is_balanced,
    lemma_plain_is_balanced, lemma_plain_joined, lemma_tags, open_text, plain,
};

pub mod laws;

verus! {

/// The terms of a query, in lower case.
#[derive(Debug)]
pub struct Terms {
    words: Vec<Vec<char>>,
}

pub open spec fn word_views(v: Seq<Vec<char>>) -> Seq<Seq<char>> {
    v.map_values(|w: Vec<char>| w@)
}

/// The terms among some texts: trimmed, in lower case, without the empty ones.
pub open spec fn terms_of(v: Seq<String>) -> Seq<Seq<char>>
    decreases v.len(),
{
    if v.len() == 0 {
        Seq::empty()
    } else {
        let t = ascii_lower_all(trimmed(v.last()@));
        if t.len() == 0 {
            terms_of(v.drop_last())
        } else {
            terms_of(v.drop_last()).push(t)
        }
    }
}

impl View for Terms {
    type V = Seq<Seq<char>>;

    closed spec fn view(&self) -> Seq<Seq<char>> {
        word_views(self.words@)
    }
}

/// A character that words are made of.
pub open spec fn is_word(c: char) -> bool {
    is_ascii_alpha(c) || is_digit(c) || (c as u32 >= 0x80 && !is_space(c))
}

fn word_char(c: char) -> (r: bool)
    ensures
        r == is_word(c),
{
    ('A' <= c && c <= 'Z') || ('a' <= c && c <= 'z') || ('0' <= c && c <= '9') || (c as u32 >= 0x80
        && !space(c))
}

/// Where the word at `i` ends.
pub open spec fn word_end(s: Seq<char>, i: int) -> int
    decreases s.len() - i,
{
    if 0 <= i < s.len() && is_word(s[i]) {
        word_end(s, i + 1)
    } else {
        i
    }
}

pub proof fn lemma_word_end(s: Seq<char>, i: int)
    requires
        0 <= i <= s.len(),
    ensures
        i <= word_end(s, i) <= s.len(),
    decreases s.len() - i,
{
    if i < s.len() && is_word(s[i]) {
        lemma_word_end(s, i + 1);
    }
}

/// Whether a word starts with one of the terms, whatever its case.
pub open spec fn hits(w: Seq<char>, terms: Seq<Seq<char>>) -> bool {
    exists|k: int| 0 <= k < terms.len() && (#[trigger] terms[k]).is_prefix_of(ascii_lower_all(w))
}

/// The id of the `n`th mark.
pub open spec fn mark_id(n: u64) -> Seq<char> {
    "pm-"@ + decimal(n as nat)
}

pub open spec fn mark_text(w: Seq<char>, n: u64) -> Seq<char> {
    "<mark class=\"preview-hl\" id=\""@ + mark_id(n) + "\">"@ + escaped(w, false) + "</mark>"@
}

pub open spec fn next_mark(n: u64) -> u64 {
    if n < u64::MAX {
        (n + 1) as u64
    } else {
        n
    }
}

/// The HTML of a text from `i` on, with the words that a term hits marked, and the
/// number of the next mark.
pub open spec fn marked_from(s: Seq<char>, i: int, terms: Seq<Seq<char>>, n: u64) -> (
    Seq<char>,
    u64,
)
    decreases s.len() - i,
{
    if i < 0 || i >= s.len() {
        (Seq::empty(), n)
    } else if is_word(s[i]) {
        proof {
            lemma_word_end(s, i + 1);
        }
        let end = word_end(s, i);
        let w = s.subrange(i, end);
        if hits(w, terms) {
            let rest = marked_from(s, end, terms, next_mark(n));
            (mark_text(w, n) + rest.0, rest.1)
        } else {
            let rest = marked_from(s, end, terms, n);
            (escaped(w, false) + rest.0, rest.1)
        }
    } else {
        let rest = marked_from(s, i + 1, terms, n);
        (escaped_char(s[i], false) + rest.0, rest.1)
    }
}

/// The HTML of a text with the words that a term hits marked.
pub open spec fn marked(s: Seq<char>, terms: Seq<Seq<char>>, n: u64) -> (Seq<char>, u64) {
    marked_from(s, 0, terms, n)
}

impl Terms {
    pub fn new(terms: &[String]) -> (r: Terms)
        ensures
            r@ == terms_of(terms@),
    {
        let mut words: Vec<Vec<char>> = Vec::new();
        assert(terms@.take(0) =~= Seq::<String>::empty());
        assert(word_views(words@) =~= Seq::<Seq<char>>::empty());
        for i in 0..terms.len()
            invariant
                word_views(words@) == terms_of(terms@.take(i as int)),
        {
            assert(terms@.take(i + 1).drop_last() =~= terms@.take(i as int));
            assert(terms@.take(i + 1).last() == terms@[i as int]);
            let t: Vec<char> = to_lower_all(&trim(&chars_of(terms[i].as_str())));
            if t.len() > 0 {
                let ghost before = words@;
                words.push(t);
                assert(word_views(words@) =~= word_views(before).push(t@));
            }
        }
        assert(terms@.take(terms@.len() as int) =~= terms@);
        Terms { words }
    }

    fn hit(&self, w: &Vec<char>) -> (r: bool)
        ensures
            r == hits(w@, self@),
    {
        let lower: Vec<char> = to_lower_all(w);
        for k in 0..self.words.len()
            invariant
                lower@ == ascii_lower_all(w@),
                forall|j: int| 0 <= j < k ==> !(#[trigger] self@[j]).is_prefix_of(lower@),
        {
            assert(self@[k as int] == self.words@[k as int]@);
            if begins(&lower, &self.words[k]) {
                return true;
            }
        }
        false
    }
}

fn begins(v: &Vec<char>, w: &Vec<char>) -> (r: bool)
    ensures
        r == w@.is_prefix_of(v@),
{
    if v.len() < w.len() {
        return false;
    }
    for i in 0..w.len()
        invariant
            v@.len() >= w@.len(),
            forall|k: int| 0 <= k < i ==> v@[k] == w@[k],
    {
        if v[i] != w[i] {
            return false;
        }
    }
    assert(v@.subrange(0, w@.len() as int) =~= w@);
    true
}

/// Numbers the marks of one document.
#[derive(Debug)]
pub struct Marker {
    count: u64,
}

impl View for Marker {
    type V = u64;

    closed spec fn view(&self) -> u64 {
        self.count
    }
}

impl Marker {
    pub fn new() -> (m: Marker)
        ensures
            m@ == 0,
    {
        Marker { count: 0 }
    }

    /// The HTML of a text with the words that a term hits marked.
    pub fn mark(&mut self, text: &str, terms: &Terms) -> (r: Vec<char>)
        ensures
            (r@, final(self)@) == marked(text@, terms@, old(self)@),
            balanced(r@),
    {
        proof {
            law_marked_text_is_balanced(text@, 0, terms@, self.count);
        }
        let s: Vec<char> = chars_of(text);
        let ghost goal = marked(s@, terms@, self.count);
        let mut out: Vec<char> = Vec::new();
        let mut i: usize = 0;
        assert(out@ + goal.0 =~= goal.0);
        while i < s.len()
            invariant
                i <= s@.len(),
                out@ + marked_from(s@, i as int, terms@, self.count).0 == goal.0,
                marked_from(s@, i as int, terms@, self.count).1 == goal.1,
            decreases s@.len() - i,
        {
            let ghost so_far = out@;
            if word_char(s[i]) {
                let start: usize = i;
                while i < s.len() && word_char(s[i])
                    invariant
                        start <= i <= s@.len(),
                        word_end(s@, i as int) == word_end(s@, start as int),
                    decreases s@.len() - i,
                {
                    i = i + 1;
                }
                proof {
                    lemma_word_end(s@, start + 1);
                }
                let w: Vec<char> = slice_of(&s, start, i);
                if terms.hit(&w) {
                    push_text(&mut out, "<mark class=\"preview-hl\" id=\"");
                    push_text(&mut out, "pm-");
                    push_u64(&mut out, self.count);
                    push_text(&mut out, "\">");
                    push_escaped(&mut out, &w, false);
                    push_text(&mut out, "</mark>");
                    assert(out@ =~= so_far + mark_text(w@, self.count));
                    assert(out@ + marked_from(s@, i as int, terms@, next_mark(self.count)).0
                        =~= so_far + marked_from(s@, start as int, terms@, self.count).0);
                    if self.count < u64::MAX {
                        self.count = self.count + 1;
                    }
                } else {
                    push_escaped(&mut out, &w, false);
                    assert(out@ + marked_from(s@, i as int, terms@, self.count).0 =~= so_far
                        + marked_from(s@, start as int, terms@, self.count).0);
                }
            } else {
                let c: Vec<char> = slice_of(&s, i, i + 1);
                push_escaped(&mut out, &c, false);
                proof {
                    assert(c@ =~= seq![s@[i as int]]);
                    lemma_escaped_one(s@[i as int]);
                }
                assert(out@ + marked_from(s@, i + 1, terms@, self.count).0 =~= so_far
                    + marked_from(s@, i as int, terms@, self.count).0);
                i = i + 1;
            }
        }
        assert(out@ + marked_from(s@, i as int, terms@, self.count).0 =~= out@);
        out
    }

    /// The mark to jump to: the first one.
    pub fn best_mark_id(&self) -> (r: Option<String>)
        ensures
            r is Some == (self@ > 0),
            r matches Some(s) ==> s@ == mark_id(0),
    {
        if self.count == 0 {
            return None;
        }
        let mut v: Vec<char> = Vec::new();
        push_text(&mut v, "pm-");
        push_u64(&mut v, 0);
        Some(string_of(&v))
    }
}

proof fn lemma_mark_is_balanced(w: Seq<char>, n: u64)
    ensures
        balanced(mark_text(w, n)),
{
    let head = "<mark class=\"preview-hl\" id=\""@;
    let attrs = head.skip(5) + mark_id(n) + "\""@;
    reveal_strlit("<mark class=\"preview-hl\" id=\"");
    reveal_strlit("\"");
    reveal_strlit("\">");
    reveal_strlit("</mark>");
    reveal_strlit("</");
    reveal_strlit("mark");
    reveal_strlit("pm-");
    reveal(plain);
    reveal(are_attrs);
    law_decimal_reads_back(n as nat);
    assert(plain(decimal(n as nat))) by {
        assert forall|k: int| 0 <= k < decimal(n as nat).len() implies decimal(n as nat)[k] != '<'
            && decimal(n as nat)[k] != '>' by {
            assert(is_digit(decimal(n as nat)[k]));
        }
    }
    lemma_plain_joined("pm-"@, decimal(n as nat));
    assert(plain(head.skip(5)));
    lemma_plain_joined(head.skip(5), mark_id(n));
    lemma_plain_joined(head.skip(5) + mark_id(n), "\""@);
    lemma_tags();
    lemma_escaped_is_balanced(w);
    law_element_is_balanced("mark"@, attrs, escaped(w, false));
    assert(mark_text(w, n) =~= open_text("mark"@, attrs) + escaped(w, false) + close_text(
        "mark"@,
    ));
}

/// A marked text closes the marks that it opens, and has no other tags in it.
pub proof fn law_marked_text_is_balanced(s: Seq<char>, i: int, terms: Seq<Seq<char>>, n: u64)
    ensures
        balanced(marked_from(s, i, terms, n).0),
    decreases s.len() - i,
{
    if i < 0 || i >= s.len() {
        reveal(plain);
        lemma_plain_is_balanced(Seq::empty());
    } else if is_word(s[i]) {
        lemma_word_end(s, i + 1);
        let end = word_end(s, i);
        let w = s.subrange(i, end);
        if hits(w, terms) {
            law_marked_text_is_balanced(s, end, terms, next_mark(n));
            lemma_mark_is_balanced(w, n);
            law_balanced_joined(mark_text(w, n), marked_from(s, end, terms, next_mark(n)).0);
        } else {
            law_marked_text_is_balanced(s, end, terms, n);
            lemma_escaped_is_balanced(w);
            law_balanced_joined(escaped(w, false), marked_from(s, end, terms, n).0);
        }
    } else {
        law_marked_text_is_balanced(s, i + 1, terms, n);
        lemma_escaped_one(s[i]);
        lemma_escaped_is_balanced(seq![s[i]]);
        law_balanced_joined(escaped_char(s[i], false), marked_from(s, i + 1, terms, n).0);
    }
}

/// Without terms nothing is marked: the text is just escaped.
pub proof fn law_no_terms_no_marks(s: Seq<char>, i: int, n: u64)
    requires
        0 <= i <= s.len(),
    ensures
        marked_from(s, i, Seq::empty(), n) == (escaped(s.skip(i), false), n),
    decreases s.len() - i,
{
    if i < s.len() {
        let none = Seq::<Seq<char>>::empty();
        if is_word(s[i]) {
            lemma_word_end(s, i + 1);
            let end = word_end(s, i);
            assert(end > i);
            law_no_terms_no_marks(s, end, n);
            lemma_escaped_joined(s.subrange(i, end), s.skip(end));
            assert(s.subrange(i, end) + s.skip(end) =~= s.skip(i));
            assert(!hits(s.subrange(i, end), none));
        } else {
            law_no_terms_no_marks(s, i + 1, n);
            let one = seq![s[i]];
            lemma_escaped_one(s[i]);
            lemma_escaped_joined(one, s.skip(i + 1));
            assert(one + s.skip(i + 1) =~= s.skip(i));
        }
    } else {
        assert(s.skip(i) =~= Seq::<char>::empty());
    }
}

proof fn lemma_escaped_one(c: char)
    ensures
        escaped(seq![c], false) == escaped_char(c, false),
{
    assert(seq![c].drop_last() =~= Seq::<char>::empty());
    assert(escaped(Seq::<char>::empty(), false) =~= Seq::<char>::empty());
    assert(escaped(seq![c], false) =~= escaped_char(c, false));
}

proof fn lemma_escaped_joined(a: Seq<char>, b: Seq<char>)
    ensures
        escaped(a + b, false) == escaped(a, false) + escaped(b, false),
    decreases b.len(),
{
    if b.len() == 0 {
        assert(a + b =~= a);
        assert(escaped(a, false) + escaped(b, false) =~= escaped(a, false));
    } else {
        lemma_escaped_joined(a, b.drop_last());
        assert((a + b).drop_last() =~= a + b.drop_last());
        assert(escaped(a + b, false) =~= escaped(a, false) + escaped(b, false));
    }
}

} // verus!
