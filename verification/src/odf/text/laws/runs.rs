//! What the pieces of a paragraph come to.

use vstd::prelude::*;
use crate::chars::decimal;
use crate::link::destination_of;
use crate::listnum::roman_text;
use crate::model::{Break, Run, Script};
use crate::odf::length::Px;
use crate::odf::list::times;
use crate::odf::style::{merged_text, Family, TextPropsView};
use crate::odf::text::runs::{
    citation_of, count_kind, is_silent, note_drawn, run_drawn, runs_drawn, spaces_of, Drawn,
};
use crate::odf::text::{EnvView, NoteView, MAX_NOTES_SHOWN};
use crate::xml::{Item, Tree};

verus! {

/// A text is a run of it, as it is, with what is stated of it: its weight and its slant,
/// the lines under and through it, and where it leads. A link is underlined, whatever is
/// stated.
pub proof fn law_a_text_is_a_run(
    k: EnvView,
    d: Drawn,
    s: Seq<char>,
    t: TextPropsView,
    base_pt: Px,
    below: usize,
    link: Option<Seq<char>>,
    boxes: usize,
)
    requires
        s.len() > 0,
    ensures
        ({
            let e = run_drawn(k, d, Item::Text(s), t, base_pt, below, link, boxes);
            let r = e.out.last();
            &&& e.out.len() == d.out.len() + 1 && e.out.drop_last() == d.out
            &&& r is Text && r->Text_0.text == s
            &&& r->Text_0.bold <==> t.bold == Some(true)
            &&& r->Text_0.italic <==> t.italic == Some(true)
            &&& r->Text_0.strike <==> t.strike == Some(true)
            &&& r->Text_0.underline <==> t.underline == Some(true) || link is Some
            &&& r->Text_0.link == link
            &&& t.font is None ==> r->Text_0.font is None
            &&& t.font is Some && t.font != k.default_font ==> r->Text_0.font == t.font
            &&& t.font is Some && t.font == k.default_font ==> r->Text_0.font is None
        }),
{
    let e = run_drawn(k, d, Item::Text(s), t, base_pt, below, link, boxes);
    assert(e.out.drop_last() =~= d.out);
}

proof fn lemma_run_names()
    ensures
        "s"@ != "span"@ && "s"@ != "a"@ && "tab"@ != "span"@ && "tab"@ != "a"@ && "tab"@ != "s"@
            && "line-break"@ != "span"@ && "line-break"@ != "a"@ && "line-break"@ != "s"@
            && "line-break"@ != "tab"@ && "a"@ != "span"@ && "note"@ != "span"@ && "note"@ != "a"@
            && "note"@ != "s"@ && "note"@ != "tab"@ && "note"@ != "line-break"@,
{
    reveal_strlit("s");
    reveal_strlit("span");
    reveal_strlit("a");
    reveal_strlit("tab");
    reveal_strlit("line-break");
    reveal_strlit("note");
    assert("s"@.len() == 1 && "span"@.len() == 4 && "a"@.len() == 1 && "tab"@.len() == 3
        && "line-break"@.len() == 10 && "note"@.len() == 4);
    assert("s"@[0] == 's' && "a"@[0] == 'a' && "span"@[0] == 's' && "note"@[0] == 'n');
}

/// What stands for blanks and breaks: as many blanks as are counted, one where none are; a
/// tab; a new line.
pub proof fn law_blanks_and_breaks(
    k: EnvView,
    d: Drawn,
    c: Tree,
    t: TextPropsView,
    base_pt: Px,
    below: usize,
    link: Option<Seq<char>>,
    boxes: usize,
)
    ensures
        ({
            let e = run_drawn(k, d, Item::Element(c), t, base_pt, below, link, boxes);
            let n = c.attr_u32("c"@);
            &&& c.name == "tab"@ ==> e.out == d.out.push(Run::Tab) && e.s == d.s
            &&& c.name == "line-break"@ ==> e.out == d.out.push(Run::Break(Break::Line)) && e.s
                == d.s
            &&& c.name == "s"@ ==> e.out.len() == d.out.len() + 1 && e.out.last() is Text
            &&& c.name == "s"@ && n is None ==> e.out.last()->Text_0.text == seq![' ']
            &&& c.name == "s"@ && n is Some && n->0 <= 200 ==> e.out.last()->Text_0.text.len()
                == n->0 && forall|j: int|
                0 <= j < n->0 ==> #[trigger] e.out.last()->Text_0.text[j] == ' '
        }),
{
    lemma_run_names();
    lemma_blanks(spaces_of(c) as nat);
    assert(times(seq![' '], 1) =~= seq![' ']) by {
        reveal_with_fuel(times, 2);
    }
}

proof fn lemma_blanks(n: nat)
    ensures
        times(seq![' '], n).len() == n,
        forall|j: int| 0 <= j < n ==> #[trigger] times(seq![' '], n)[j] == ' ',
    decreases n,
{
    if n > 0 {
        lemma_blanks((n - 1) as nat);
    }
}

/// What is inside a span or a link is drawn with what the span states over what stands
/// around it; what is inside a link leads where the link leads; and what is inside any
/// element that is not known is drawn as if it stood there itself.
pub proof fn law_spans_and_links(
    k: EnvView,
    d: Drawn,
    c: Tree,
    t: TextPropsView,
    base_pt: Px,
    below: usize,
    link: Option<Seq<char>>,
    boxes: usize,
)
    ensures
        ({
            let e = run_drawn(k, d, Item::Element(c), t, base_pt, below, link, boxes);
            let style = c.attr("style-name"@);
            let inner = if style is Some {
                merged_text(t, k.styles.resolved(Family::Text, style->0).text)
            } else {
                t
            };
            let href = c.attr("href"@);
            &&& c.name == "span"@ ==> e == runs_drawn(k, d, c, inner, base_pt, below, link, boxes)
            &&& c.name == "a"@ && href is Some ==> e == runs_drawn(
                k,
                d,
                c,
                inner,
                base_pt,
                below,
                destination_of(href->0),
                boxes,
            )
            &&& c.name == "ruby"@ || c.name == "page-number"@ || c.name == "date"@ ==> e
                == runs_drawn(k, d, c, t, base_pt, below, link, boxes)
            &&& c.name == "annotation"@ || c.name == "hidden-text"@ || c.name == "change"@ || c.name
                == "bookmark-end"@ || c.name == "soft-page-break"@ || c.name == "toc-mark"@ ==> e
                == d
        }),
{
    lemma_run_names();
    lemma_other_names(c.name);
}

proof fn lemma_other_names(n: Seq<char>)
    ensures
        n == "annotation"@ || n == "hidden-text"@ || n == "change"@ || n == "bookmark-end"@ || n
                == "soft-page-break"@ || n == "toc-mark"@ ==> is_silent(n) && n != "span"@ && n
                != "a"@ && n != "s"@ && n != "tab"@ && n != "line-break"@ && n != "note"@ && n
                != "frame"@ && n != "bookmark-start"@ && n != "bookmark"@,
        n == "ruby"@ || n == "page-number"@ || n == "date"@ ==> !is_silent(n) && n != "span"@
                && n != "a"@ && n != "s"@ && n != "tab"@ && n != "line-break"@ && n != "note"@ && n
                != "frame"@ && n != "bookmark-start"@ && n != "bookmark"@,
{
    reveal_strlit("annotation");
    reveal_strlit("hidden-text");
    reveal_strlit("change");
    reveal_strlit("bookmark-end");
    reveal_strlit("soft-page-break");
    reveal_strlit("toc-mark");
    reveal_strlit("ruby");
    reveal_strlit("page-number");
    reveal_strlit("date");
    reveal_strlit("span");
    reveal_strlit("a");
    reveal_strlit("s");
    reveal_strlit("tab");
    reveal_strlit("line-break");
    reveal_strlit("note");
    reveal_strlit("frame");
    reveal_strlit("bookmark-start");
    reveal_strlit("bookmark");
    reveal_strlit("reference-mark");
    reveal_strlit("reference-mark-start");
    reveal_strlit("reference-mark-end");
    reveal_strlit("change-start");
    reveal_strlit("change-end");
    reveal_strlit("number");
    reveal_strlit("alphabetical-index-mark");
    reveal_strlit("alphabetical-index-mark-start");
    reveal_strlit("alphabetical-index-mark-end");
    reveal_strlit("toc-mark-start");
    reveal_strlit("toc-mark-end");
    reveal_strlit("user-index-mark");
    reveal_strlit("user-index-mark-start");
    reveal_strlit("user-index-mark-end");
    reveal_strlit("annotation-end");
    reveal_strlit("hidden-paragraph");
    assert("annotation"@.len() == 10 && "hidden-text"@.len() == 11 && "change"@.len() == 6
        && "bookmark-end"@.len() == 12 && "soft-page-break"@.len() == 15 && "toc-mark"@.len() == 8
        && "ruby"@.len() == 4 && "page-number"@.len() == 11 && "date"@.len() == 4 && "span"@.len()
        == 4 && "a"@.len() == 1 && "s"@.len() == 1 && "tab"@.len() == 3 && "line-break"@.len() == 10
        && "note"@.len() == 4 && "frame"@.len() == 5 && "bookmark-start"@.len() == 14
        && "bookmark"@.len() == 8);
    assert("annotation"@[0] == 'a' && "line-break"@[0] == 'l' && "toc-mark"@[0] == 't'
        && "bookmark"@[0] == 'b' && "ruby"@[0] == 'r' && "date"@[0] == 'd' && "span"@[0] == 's'
        && "note"@[0] == 'n' && "page-number"@[0] == 'p');
    assert("reference-mark"@[0] == 'r' && "reference-mark"@.len() == 14
        && "reference-mark-start"@.len() == 20 && "reference-mark-end"@.len() == 18
        && "change-start"@[0] == 'c' && "change-end"@[0] == 'c' && "number"@[0] == 'n'
        && "alphabetical-index-mark"@[0] == 'a' && "alphabetical-index-mark-start"@[0] == 'a'
        && "alphabetical-index-mark-end"@[0] == 'a' && "toc-mark-start"@[0] == 't'
        && "toc-mark-end"@[0] == 't' && "user-index-mark"@[0] == 'u' && "user-index-mark-start"@[0]
        == 'u' && "user-index-mark-end"@[0] == 'u' && "annotation-end"@[0] == 'a'
        && "hidden-paragraph"@[0] == 'h' && "bookmark-end"@[0] == 'b'
            && "soft-page-break"@[0] == 's'
        && "hidden-text"@[0] == 'h');
}

/// A note in the text is a raised mark that leads to the note, and the place that the note
/// leads back to. Notes at the foot and notes at the end are counted apart, from one on; a
/// note that states no mark has its number, in small Roman numerals where it is at the
/// end.
pub proof fn law_notes_and_their_marks(
    k: EnvView,
    d: Drawn,
    n: Tree,
    body: Tree,
    t: TextPropsView,
    base_pt: Px,
)
    requires
        n.child("note-body"@) == Some(body),
        !d.s.in_note,
        d.s.note_refs.len() < MAX_NOTES_SHOWN,
    ensures
        ({
            let e = note_drawn(k, d, n, t, base_pt);
            let endnote = n.attr("note-class"@) == Some("endnote"@);
            let r = e.s.note_refs.last();
            let mark = e.out.last();
            &&& e.s.note_refs.drop_last() == d.s.note_refs
            &&& e.out.len() == d.out.len() + 2
            &&& r.endnote == endnote
            &&& r.body == body
            &&& count_kind(d.s.note_refs, endnote) < usize::MAX ==> r.num == count_kind(
                d.s.note_refs,
                endnote,
            ) + 1
            &&& citation_of(n) is Some ==> r.label == citation_of(n)->0
            &&& citation_of(n) is None && endnote ==> r.label == roman_text(r.num as nat, false)
            &&& citation_of(n) is None && !endnote ==> r.label == decimal(r.num as nat)
            &&& e.out[d.out.len() as int] == Run::<Seq<char>>::Anchor(r.ref_anchor())
            &&& mark is Text && mark->Text_0.text == r.label && mark->Text_0.script == Some(
                Script::Super,
            ) && mark->Text_0.link == Some(seq!['#'] + r.anchor())
            &&& !endnote ==> r.anchor() == "of-fn-"@ + decimal(r.num as nat) && r.ref_anchor()
                == "of-fn-"@ + "ref-"@ + decimal(r.num as nat)
            &&& endnote ==> r.anchor() == "of-en-"@ + decimal(r.num as nat) && r.ref_anchor()
                == "of-en-"@ + "ref-"@ + decimal(r.num as nat)
        }),
{
    let e = note_drawn(k, d, n, t, base_pt);
    assert(e.s.note_refs.drop_last() =~= d.s.note_refs);
}

/// Notes of a kind are counted by themselves.
pub proof fn law_notes_are_counted_by_kind(v: Seq<NoteView>, r: NoteView, endnote: bool)
    ensures
        r.endnote == endnote ==> count_kind(v.push(r), endnote) == count_kind(v, endnote) + 1,
        r.endnote != endnote ==> count_kind(v.push(r), endnote) == count_kind(v, endnote),
        count_kind(Seq::empty(), endnote) == 0,
{
    assert(v.push(r).drop_last() =~= v);
}

} // verus!
