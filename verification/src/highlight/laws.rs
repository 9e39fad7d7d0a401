//! Marking words changes nothing of a text but their look.

use vstd::prelude::*;
use crate::chars::{ascii_lower_all, trimmed};
use crate::highlight::{
    hits, is_word, lemma_escaped_joined, lemma_escaped_one, lemma_word_end, mark_id, mark_text,
    marked, marked_from, next_mark, terms_of, word_end,
};
use crate::html::{escaped, escaped_char, law_escaped_text_is_inert};

verus! {

/// What can be seen of some HTML: the characters outside its tags, and whether it ends
/// inside one.
pub open spec fn seen_from(r: (Seq<char>, bool), s: Seq<char>) -> (Seq<char>, bool)
    decreases s.len(),
{
    if s.len() == 0 {
        r
    } else {
        let b = seen_from(r, s.drop_last());
        if b.1 {
            (b.0, s.last() != '>')
        } else if s.last() == '<' {
            (b.0, true)
        } else {
            (b.0.push(s.last()), false)
        }
    }
}

pub open spec fn seen(s: Seq<char>) -> Seq<char> {
    seen_from((Seq::empty(), false), s).0
}

proof fn lemma_seen_joined(r: (Seq<char>, bool), a: Seq<char>, b: Seq<char>)
    ensures
        seen_from(r, a + b) == seen_from(seen_from(r, a), b),
    decreases b.len(),
{
    if b.len() == 0 {
        assert(a + b =~= a);
    } else {
        assert((a + b).drop_last() =~= a + b.drop_last());
        lemma_seen_joined(r, a, b.drop_last());
    }
}

proof fn lemma_seen_plain(t: Seq<char>, s: Seq<char>)
    requires
        !s.contains('<'),
    ensures
        seen_from((t, false), s) == (t + s, false),
    decreases s.len(),
{
    if s.len() == 0 {
        assert(t + s =~= t);
    } else {
        let d = s.drop_last();
        assert(s[s.len() - 1] != '<');
        assert(!d.contains('<')) by {
            if d.contains('<') {
                let k = choose|k: int| 0 <= k < d.len() && d[k] == '<';
                assert(s[k] == '<');
            }
        }
        lemma_seen_plain(t, d);
        assert(t + s =~= (t + d).push(s.last()));
    }
}

proof fn lemma_seen_inside(t: Seq<char>, s: Seq<char>)
    requires
        !s.contains('>'),
    ensures
        seen_from((t, true), s) == (t, true),
    decreases s.len(),
{
    if s.len() > 0 {
        let d = s.drop_last();
        assert(s[s.len() - 1] != '>');
        assert(!d.contains('>')) by {
            if d.contains('>') {
                let k = choose|k: int| 0 <= k < d.len() && d[k] == '>';
                assert(s[k] == '>');
            }
        }
        lemma_seen_inside(t, d);
    }
}

/// A tag shows nothing.
proof fn lemma_seen_tag(t: Seq<char>, inner: Seq<char>)
    requires
        !inner.contains('>'),
    ensures
        seen_from((t, false), seq!['<'] + inner + seq!['>']) == (t, false),
{
    let a = seq!['<'];
    assert(a.drop_last() =~= Seq::<char>::empty());
    assert(seen_from((t, false), a.drop_last()) == (t, false));
    assert(seen_from((t, false), a) == (t, true));
    lemma_seen_joined((t, false), a, inner);
    lemma_seen_inside(t, inner);
    let b = seq!['>'];
    assert(b.drop_last() =~= Seq::<char>::empty());
    assert(seen_from((t, true), b.drop_last()) == (t, true));
    assert(seen_from((t, true), b) == (t, false));
    lemma_seen_joined((t, false), a + inner, b);
}

proof fn lemma_seen_mark(t: Seq<char>, w: Seq<char>, n: u64)
    ensures
        seen_from((t, false), mark_text(w, n)) == (t + escaped(w, false), false),
{
    let head = "<mark class=\"preview-hl\" id=\""@;
    reveal_strlit("<mark class=\"preview-hl\" id=\"");
    reveal_strlit("\">");
    reveal_strlit("</mark>");
    reveal_strlit("pm-");
    let id = mark_id(n);
    crate::chars::law_decimal_reads_back(n as nat);
    assert(!id.contains('>')) by {
        if id.contains('>') {
            let k = choose|k: int| 0 <= k < id.len() && id[k] == '>';
            let d = crate::chars::decimal(n as nat);
            if k >= 3 {
                assert(crate::chars::is_digit(d[k - 3]));
            }
        }
    }
    let inner = head.skip(1) + id + seq!['"'];
    assert(!inner.contains('>')) by {
        if inner.contains('>') {
            let k = choose|k: int| 0 <= k < inner.len() && inner[k] == '>';
            if k < head.len() - 1 {
                assert(head[k + 1] == '>');
            } else if k < head.len() - 1 + id.len() {
                assert(id[k - (head.len() - 1)] == '>');
            }
        }
    }
    let open = seq!['<'] + inner + seq!['>'];
    assert(head + id + "\">"@ =~= open);
    lemma_seen_tag(t, inner);
    let e = escaped(w, false);
    law_escaped_text_is_inert(w);
    lemma_seen_plain(t, e);
    lemma_seen_joined((t, false), open, e);
    let back = seq!['/', 'm', 'a', 'r', 'k'];
    assert(!back.contains('>')) by {
        if back.contains('>') {
            let k = choose|k: int| 0 <= k < back.len() && back[k] == '>';
        }
    }
    assert("</mark>"@ =~= seq!['<'] + back + seq!['>']);
    lemma_seen_tag(t + e, back);
    lemma_seen_joined((t, false), open + e, "</mark>"@);
    assert(mark_text(w, n) =~= open + e + "</mark>"@);
}

proof fn lemma_seen_marked(t: Seq<char>, s: Seq<char>, i: int, terms: Seq<Seq<char>>, n: u64)
    requires
        0 <= i <= s.len(),
    ensures
        seen_from((t, false), marked_from(s, i, terms, n).0) == (t
            + escaped(s.skip(i), false), false),
    decreases s.len() - i,
{
    if i == s.len() {
        assert(s.skip(i) =~= Seq::<char>::empty());
        assert(t + escaped(s.skip(i), false) =~= t);
    } else if is_word(s[i]) {
        lemma_word_end(s, i + 1);
        let end = word_end(s, i);
        let w = s.subrange(i, end);
        let e = escaped(w, false);
        let m = if hits(w, terms) {
            next_mark(n)
        } else {
            n
        };
        let head = if hits(w, terms) {
            mark_text(w, n)
        } else {
            e
        };
        lemma_seen_mark(t, w, n);
        law_escaped_text_is_inert(w);
        lemma_seen_plain(t, e);
        lemma_seen_marked(t + e, s, end, terms, m);
        lemma_seen_joined((t, false), head, marked_from(s, end, terms, m).0);
        lemma_escaped_joined(w, s.skip(end));
        assert(w + s.skip(end) =~= s.skip(i));
        assert(t + e + escaped(s.skip(end), false) =~= t + escaped(s.skip(i), false));
    } else {
        let c = seq![s[i]];
        let e = escaped_char(s[i], false);
        lemma_escaped_one(s[i]);
        law_escaped_text_is_inert(c);
        lemma_seen_plain(t, e);
        lemma_seen_marked(t + e, s, i + 1, terms, n);
        lemma_seen_joined((t, false), e, marked_from(s, i + 1, terms, n).0);
        lemma_escaped_joined(c, s.skip(i + 1));
        assert(c + s.skip(i + 1) =~= s.skip(i));
        assert(t + e + escaped(s.skip(i + 1), false) =~= t + escaped(s.skip(i), false));
    }
}

/// Whatever words are searched for, a text that is marked shows the same characters as one
/// that is not.
pub proof fn law_marked_text_shows_the_same(s: Seq<char>, terms: Seq<Seq<char>>, n: u64)
    ensures
        seen(marked(s, terms, n).0) == escaped(s, false),
{
    let none = Seq::<char>::empty();
    lemma_seen_marked(none, s, 0, terms, n);
    assert(s.skip(0) =~= s);
    assert(none + escaped(s, false) =~= escaped(s, false));
}

/// A word is hit by a term that it begins with, whatever the case of its letters, and by no
/// other.
pub proof fn law_words_are_hit_by_their_beginnings(w: Seq<char>, terms: Seq<Seq<char>>, k: int)
    ensures
        0 <= k < terms.len() && terms[k].len() <= w.len() && ascii_lower_all(w).take(
            terms[k].len() as int,
        ) == terms[k] ==> hits(w, terms),
        (forall|j: int|
            0 <= j < terms.len() ==> (#[trigger] terms[j]).len() > w.len() || ascii_lower_all(
                w,
            ).take(terms[j].len() as int) != terms[j]) ==> !hits(w, terms),
        ascii_lower_all(w) == ascii_lower_all(ascii_lower_all(w)),
{
    let l = ascii_lower_all(w);
    assert(l =~= ascii_lower_all(l));
    if 0 <= k < terms.len() && terms[k].len() <= w.len() && l.take(terms[k].len() as int)
        == terms[k] {
        assert forall|i: int| 0 <= i < terms[k].len() implies terms[k][i] == l[i] by {
            assert(l.take(terms[k].len() as int)[i] == l[i]);
        }
        assert(terms[k].is_prefix_of(l));
    }
    if hits(w, terms) {
        let j = choose|j: int|
            0 <= j < terms.len() && (#[trigger] terms[j]).is_prefix_of(ascii_lower_all(w));
        assert(l.take(terms[j].len() as int) =~= terms[j]);
    }
}

/// A word that is hit has a mark of its own, and the marks are numbered one after the
/// other; what is not hit has none.
pub proof fn law_marks_are_numbered(s: Seq<char>, terms: Seq<Seq<char>>, n: u64)
    requires
        s.len() > 0,
        is_word(s[0]),
        word_end(s, 0) == s.len(),
        n < u64::MAX,
    ensures
        hits(s, terms) ==> marked(s, terms, n) == (
            "<mark class=\"preview-hl\" id=\"pm-"@ + crate::chars::decimal(n as nat) + "\">"@
                + escaped(s, false) + "</mark>"@,
            (n + 1) as u64,
        ),
        !hits(s, terms) ==> marked(s, terms, n) == (escaped(s, false), n),
{
    assert(s.subrange(0, s.len() as int) =~= s);
    reveal_with_fuel(marked_from, 2);
    reveal_strlit("<mark class=\"preview-hl\" id=\"pm-");
    reveal_strlit("<mark class=\"preview-hl\" id=\"");
    reveal_strlit("pm-");
    assert("<mark class=\"preview-hl\" id=\"pm-"@ =~= "<mark class=\"preview-hl\" id=\""@ + "pm-"@);
    let m = marked(s, terms, n);
    if hits(s, terms) {
        assert(m.0 =~= "<mark class=\"preview-hl\" id=\"pm-"@ + crate::chars::decimal(n as nat)
            + "\">"@ + escaped(s, false) + "</mark>"@);
    } else {
        assert(m.0 =~= escaped(s, false));
    }
}

/// Each text that is searched for is a term of its own, in lower case and without the
/// spaces around it; one of spaces alone is none.
pub proof fn law_terms(v: Seq<String>, t: String)
    ensures
        trimmed(t@).len() > 0 ==> terms_of(v.push(t)) == terms_of(v).push(
            ascii_lower_all(trimmed(t@)),
        ),
        trimmed(t@).len() == 0 ==> terms_of(v.push(t)) == terms_of(v),
{
    assert(v.push(t).drop_last() =~= v);
    assert(ascii_lower_all(trimmed(t@)).len() == trimmed(t@).len());
}

} // verus!
