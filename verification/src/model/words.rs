//! What the model holds can be read in the page: every run, label and picture of a
//! paragraph is written, inside the paragraph's element, unless the page is full.

use vstd::prelude::*;
use crate::chars::decimal;
use crate::highlight::marked;
use crate::html::{
    attr_text, class_text, escaped, goes_on, group_goes_on, lemma_stays, style_text, Written,
};
use crate::markup::open_text;
use crate::model::{
    graphic_css, graphic_written, law_paragraphs_go_on, lemma_piece_goes_on, lemma_runs_go_on,
    marker_css, marker_written, para_css, para_inked, para_tag, paras_inked, piece_inked, run_css,
    run_inked, runs_inked, Break, HtmlStyle, Inked, ParaView, Run, RunView,
};
use crate::odf::length::Px;

verus! {

/// A text stands somewhere in another, all of it in one piece.
pub open spec fn holds(text: Seq<char>, piece: Seq<char>) -> bool {
    exists|i: int| holds_at(text, piece, i)
}

pub open spec fn holds_at(text: Seq<char>, piece: Seq<char>, i: int) -> bool {
    0 <= i && i + piece.len() <= text.len() && text.subrange(i, i + piece.len()) == piece
}

/// What stands in a text still stands in it once more is written.
pub proof fn lemma_still_holds(a: Written, b: Written, piece: Seq<char>)
    requires
        goes_on(a, b),
        holds(a.text, piece),
    ensures
        holds(b.text, piece),
{
    reveal(goes_on);
    let i = choose|i: int| holds_at(a.text, piece, i);
    assert(b.text.subrange(i, i + piece.len()) =~= a.text.subrange(i, i + piece.len()));
    assert(holds_at(b.text, piece, i));
}

/// What is written stands in the text, and so does every part of it.
pub proof fn lemma_raw_holds(w: Written, s: Seq<char>)
    requires
        !w.raw(s).full,
    ensures
        holds(w.raw(s).text, s),
{
    let t = w.raw(s).text;
    assert(t.subrange(w.text.len() as int, (w.text.len() + s.len()) as int) =~= s);
    assert(holds_at(t, s, w.text.len() as int));
}

pub proof fn lemma_opened_holds(w: Written, tag: Seq<char>, attrs: Seq<char>)
    requires
        !w.opened(tag, attrs).full,
    ensures
        holds(w.opened(tag, attrs).text, open_text(tag, attrs)),
{
    let s = open_text(tag, attrs);
    let t = w.opened(tag, attrs).text;
    assert(t.subrange(w.text.len() as int, (w.text.len() + s.len()) as int) =~= s);
    assert(holds_at(t, s, w.text.len() as int));
}

pub proof fn lemma_part_holds(text: Seq<char>, whole: Seq<char>, a: Seq<char>, b: Seq<char>)
    requires
        holds(text, whole),
        whole == a + b,
    ensures
        holds(text, a),
        holds(text, b),
{
    let i = choose|i: int| holds_at(text, whole, i);
    assert(text.subrange(i, i + a.len()) =~= whole.subrange(0, a.len() as int));
    assert(whole.subrange(0, a.len() as int) =~= a);
    assert(holds_at(text, a, i));
    let j = i + a.len();
    assert(text.subrange(j, j + b.len()) =~= whole.subrange(a.len() as int, whole.len() as int));
    assert(whole.subrange(a.len() as int, whole.len() as int) =~= b);
    assert(holds_at(text, b, j));
}

// ── nothing stays open ───────────────────────────────────────────────────────

/// From one writer to another every tag that was opened was closed again, unless the
/// bound was reached.
pub open spec fn even(a: Written, b: Written) -> bool {
    a.muted == 0 && !b.full ==> b.muted == 0 && b.open == a.open && !a.full
}

proof fn lemma_run_is_even(
    x: Inked,
    r: RunView,
    base_pt: Px,
    st: HtmlStyle,
    terms: Seq<Seq<char>>,
)
    ensures
        even(x.w, piece_inked(x, r, base_pt, st, terms).w),
{
    reveal(piece_inked);
    let y = piece_inked(x, r, base_pt, st, terms);
    if x.w.muted == 0 && !y.w.full {
        match r {
            Run::Text(t) => if t.text.len() > 0 {
                let m = marked(t.text, terms, x.marks);
                let css = run_css(t, base_pt, st.scalable);
                let w0 = match t.link {
                    Some(href) => x.w.opened(
                        "a"@,
                        attr_text("href"@, href) + attr_text("title"@, href),
                    ),
                    None => x.w,
                };
                let w1 = if css.len() == 0 {
                    w0.raw(m.0)
                } else {
                    w0.opened("span"@, style_text(css)).raw(m.0).closed()
                };
                assert(y == run_inked(x, t, base_pt, st.scalable, terms));
                assert(!w1.full);
                assert(!w0.full);
                assert(w0.open.push("span"@).drop_last() =~= w0.open);
                assert(x.w.open.push("a"@).drop_last() =~= x.w.open);
            },
            _ => {
                assert(x.w.open.push("span"@).drop_last() =~= x.w.open);
            },
        }
    }
}

proof fn lemma_runs_are_even(
    x: Inked,
    runs: Seq<RunView>,
    base_pt: Px,
    st: HtmlStyle,
    terms: Seq<Seq<char>>,
)
    ensures
        even(x.w, runs_inked(x, runs, base_pt, st, terms).w),
    decreases runs.len(),
{
    if runs.len() > 0 {
        let before = runs_inked(x, runs.drop_last(), base_pt, st, terms);
        lemma_runs_are_even(x, runs.drop_last(), base_pt, st, terms);
        lemma_run_is_even(before, runs.last(), base_pt, st, terms);
        lemma_piece_goes_on(before, runs.last(), base_pt, st, terms);
        reveal(goes_on);
    }
}

// ── runs ─────────────────────────────────────────────────────────────────────

/// What stands in the page of a run: a text, with the words that are searched for
/// marked; a tab; a break; a picture with its address and its label, or a box with the
/// label; the place that a link leads to.
pub open spec fn reads(text: Seq<char>, r: RunView, st: HtmlStyle, terms: Seq<Seq<char>>) -> bool {
    match r {
        Run::Text(t) => t.text.len() > 0 ==> exists|n: u64|
            holds(text, (#[trigger] marked(t.text, terms, n)).0),
        Run::Tab => holds(text, "\t"@),
        Run::Break(Break::Line) => holds(text, "<br>"@),
        Run::Break(_) => holds(text, open_text("br"@, class_text(st.break_class@))),
        Run::Graphic(g) => match g.src {
            Some(src) => holds(
                text,
                "<img"@ + class_text(st.img_class@) + attr_text("src"@, src) + attr_text(
                    "alt"@,
                    g.label,
                ),
            ),
            None => holds(text, escaped(g.label, false)),
        },
        Run::Anchor(id) => holds(text, "<span"@ + attr_text("id"@, id) + ">"@),
    }
}

pub proof fn lemma_still_reads(a: Written, b: Written, r: RunView, st: HtmlStyle, terms: Seq<Seq<char>>)
    requires
        goes_on(a, b),
        reads(a.text, r, st, terms),
    ensures
        reads(b.text, r, st, terms),
{
    match r {
        Run::Text(t) => if t.text.len() > 0 {
            let n = choose|n: u64| holds(a.text, (#[trigger] marked(t.text, terms, n)).0);
            lemma_still_holds(a, b, marked(t.text, terms, n).0);
        },
        Run::Tab => lemma_still_holds(a, b, "\t"@),
        Run::Break(Break::Line) => lemma_still_holds(a, b, "<br>"@),
        Run::Break(_) => lemma_still_holds(
            a,
            b,
            open_text("br"@, class_text(st.break_class@)),
        ),
        Run::Graphic(g) => match g.src {
            Some(src) => lemma_still_holds(
                a,
                b,
                "<img"@ + class_text(st.img_class@) + attr_text("src"@, src) + attr_text(
                    "alt"@,
                    g.label,
                ),
            ),
            None => lemma_still_holds(a, b, escaped(g.label, false)),
        },
        Run::Anchor(id) => lemma_still_holds(a, b, "<span"@ + attr_text("id"@, id) + ">"@),
    }
}

proof fn lemma_text_reads(
    x: Inked,
    r: RunView,
    base_pt: Px,
    st: HtmlStyle,
    terms: Seq<Seq<char>>,
)
    requires
        r is Text,
        !piece_inked(x, r, base_pt, st, terms).w.full,
    ensures
        reads(piece_inked(x, r, base_pt, st, terms).w.text, r, st, terms),
{
    broadcast use group_goes_on;

    reveal(piece_inked);
    let y = piece_inked(x, r, base_pt, st, terms);
    let t = r->Text_0;
    if t.text.len() > 0 {
        let m = marked(t.text, terms, x.marks);
        let css = run_css(t, base_pt, st.scalable);
        let w0 = match t.link {
            Some(href) => x.w.opened("a"@, attr_text("href"@, href) + attr_text("title"@, href)),
            None => x.w,
        };
        let v = if css.len() == 0 {
            w0
        } else {
            w0.opened("span"@, style_text(css))
        };
        assert(y == run_inked(x, t, base_pt, st.scalable, terms));
        assert(!v.raw(m.0).full);
        lemma_raw_holds(v, m.0);
        lemma_stays(v.raw(m.0));
        assert(goes_on(v.raw(m.0), y.w));
        lemma_still_holds(v.raw(m.0), y.w, m.0);
    }
}

proof fn lemma_tab_or_break_reads(
    x: Inked,
    r: RunView,
    base_pt: Px,
    st: HtmlStyle,
    terms: Seq<Seq<char>>,
)
    requires
        r is Tab || r is Break,
        !piece_inked(x, r, base_pt, st, terms).w.full,
    ensures
        reads(piece_inked(x, r, base_pt, st, terms).w.text, r, st, terms),
{
    reveal(piece_inked);
    if r is Tab {
        reveal_strlit("\t");
        assert(escaped("\t"@, false) =~= "\t"@) by {
            assert("\t"@.drop_last() =~= Seq::<char>::empty());
            assert(escaped("\t"@.drop_last(), false) =~= Seq::<char>::empty());
        }
        lemma_raw_holds(x.w, "\t"@);
    } else {
        reveal_strlit("br");
        reveal_strlit("<br>");
        assert(open_text("br"@, Seq::empty()) =~= "<br>"@);
        let attrs = if r->Break_0 == Break::Line {
            Seq::empty()
        } else {
            class_text(st.break_class@)
        };
        lemma_raw_holds(x.w, open_text("br"@, attrs));
    }
}

proof fn lemma_graphic_reads(
    x: Inked,
    r: RunView,
    base_pt: Px,
    st: HtmlStyle,
    terms: Seq<Seq<char>>,
)
    requires
        r is Graphic,
        !piece_inked(x, r, base_pt, st, terms).w.full,
    ensures
        reads(piece_inked(x, r, base_pt, st, terms).w.text, r, st, terms),
{
    reveal(piece_inked);
    let y = piece_inked(x, r, base_pt, st, terms);
    let g = r->Graphic_0;
    let css = graphic_css(g);
    assert(y.w == graphic_written(x.w, g, st));
    match g.src {
        Some(src) => {
            let class = class_text(st.img_class@);
            let from = attr_text("src"@, src);
            let alt = attr_text("alt"@, g.label);
            lemma_img(class, from, alt, style_text(css));
            lemma_raw_holds(x.w, open_text("img"@, class + from + alt + style_text(css)));
            lemma_part_holds(
                y.w.text,
                open_text("img"@, class + from + alt + style_text(css)),
                "<img"@ + class + from + alt,
                style_text(css) + seq!['>'],
            );
        },
        None => {
            let o = x.w.opened("span"@, class_text(st.graphic_class@) + style_text(css));
            let l = o.text(g.label);
            assert(!l.full);
            lemma_raw_holds(o, escaped(g.label, false));
            crate::html::lemma_closed_goes_on(l);
            lemma_still_holds(l, y.w, escaped(g.label, false));
        },
    }
}

proof fn lemma_img(a: Seq<char>, b: Seq<char>, c: Seq<char>, d: Seq<char>)
    ensures
        open_text("img"@, a + b + c + d) == ("<img"@ + a + b + c) + (d + seq!['>']),
{
    reveal_strlit("img");
    reveal_strlit("<img");
    assert("<img"@ =~= seq!['<'] + "img"@);
    assert(open_text("img"@, a + b + c + d) =~= ("<img"@ + a + b + c) + (d + seq!['>']));
}

proof fn lemma_anchor_reads(
    x: Inked,
    r: RunView,
    base_pt: Px,
    st: HtmlStyle,
    terms: Seq<Seq<char>>,
)
    requires
        r is Anchor,
        !piece_inked(x, r, base_pt, st, terms).w.full,
    ensures
        reads(piece_inked(x, r, base_pt, st, terms).w.text, r, st, terms),
{
    reveal(piece_inked);
    let id = attr_text("id"@, r->Anchor_0);
    let o = x.w.opened("span"@, id);
    reveal_strlit("span");
    reveal_strlit("<span");
    reveal_strlit(">");
    assert("<span"@ + id + ">"@ =~= open_text("span"@, id));
    assert(!o.full);
    lemma_opened_holds(x.w, "span"@, id);
    crate::html::lemma_closed_goes_on(o);
    lemma_still_holds(o, o.closed(), open_text("span"@, id));
}

/// A run that was written can be read.
proof fn lemma_run_reads(
    x: Inked,
    r: RunView,
    base_pt: Px,
    st: HtmlStyle,
    terms: Seq<Seq<char>>,
)
    requires
        !piece_inked(x, r, base_pt, st, terms).w.full,
    ensures
        reads(piece_inked(x, r, base_pt, st, terms).w.text, r, st, terms),
{
    match r {
        Run::Text(_) => lemma_text_reads(x, r, base_pt, st, terms),
        Run::Tab | Run::Break(_) => lemma_tab_or_break_reads(x, r, base_pt, st, terms),
        Run::Graphic(_) => lemma_graphic_reads(x, r, base_pt, st, terms),
        Run::Anchor(_) => lemma_anchor_reads(x, r, base_pt, st, terms),
    }
}

/// Every run of a sequence can be read once all are written.
proof fn lemma_runs_read(
    x: Inked,
    runs: Seq<RunView>,
    base_pt: Px,
    st: HtmlStyle,
    terms: Seq<Seq<char>>,
    j: int,
)
    requires
        0 <= j < runs.len(),
        !runs_inked(x, runs, base_pt, st, terms).w.full,
    ensures
        reads(runs_inked(x, runs, base_pt, st, terms).w.text, runs[j], st, terms),
    decreases runs.len(),
{
    let before = runs_inked(x, runs.drop_last(), base_pt, st, terms);
    let all = runs_inked(x, runs, base_pt, st, terms);
    lemma_piece_goes_on(before, runs.last(), base_pt, st, terms);
    assert(!before.w.full) by {
        reveal(goes_on);
    }
    if j == runs.len() - 1 {
        lemma_run_reads(before, runs.last(), base_pt, st, terms);
    } else {
        lemma_runs_read(x, runs.drop_last(), base_pt, st, terms, j);
        lemma_still_reads(before.w, all.w, runs[j], st, terms);
    }
}

// ── paragraphs ───────────────────────────────────────────────────────────────

/// What a paragraph adds is one element of that name and class, and nothing around it.
pub open spec fn is_element(
    before: Seq<char>,
    after: Seq<char>,
    tag: Seq<char>,
    class: Seq<char>,
) -> bool {
    let open = seq!['<'] + tag + attr_text("class"@, class);
    let close = "</"@ + tag + seq!['>'];
    &&& before.len() + open.len() + close.len() <= after.len()
    &&& after.take(before.len() as int) == before
    &&& after.subrange(before.len() as int, (before.len() + open.len()) as int) == open
    &&& after.skip(after.len() - close.len()) == close
}

/// Everything that a paragraph has can be read: every run, and the label in front of it.
/// It is in one element of the paragraph's class, and nothing of the paragraph is outside
/// that element.
#[verifier::rlimit(60)]
pub proof fn law_a_paragraph_can_be_read(
    x: Inked,
    p: ParaView,
    st: HtmlStyle,
    terms: Seq<Seq<char>>,
)
    requires
        !para_inked(x, p, st, terms).w.full,
    ensures
        ({
            let y = para_inked(x, p, st, terms).w;
            let class = if p.marker is Some {
                st.list_class@
            } else {
                st.para_class@
            };
            &&& forall|j: int|
                0 <= j < p.runs.len() ==> reads(y.text, #[trigger] p.runs[j], st, terms)
            &&& p.marker is Some ==> holds(y.text, escaped(p.marker->0.label, false))
            &&& holds(y.text, seq!['<'] + para_tag(p.heading) + attr_text("class"@, class))
            &&& x.w.muted == 0 ==> is_element(x.w.text, y.text, para_tag(p.heading), class)
                && y.open == x.w.open && y.muted == 0
        }),
{
    broadcast use group_goes_on;

    reveal(para_inked);
    let class = if p.marker is Some {
        st.list_class@
    } else {
        st.para_class@
    };
    let tag = para_tag(p.heading);
    let attrs = attr_text("class"@, class) + style_text(para_css(p, st.scalable));
    let w0 = x.w.opened(tag, attrs);
    let w1 = match p.marker {
        Some(m) => marker_written(w0, m, st, p.first_line_px).opened(
            "span"@,
            attr_text("class"@, st.text_class@),
        ),
        None => w0,
    };
    let w2 = if p.runs.len() == 0 {
        w1.text("\u{00a0}"@)
    } else {
        w1
    };
    let r = runs_inked(Inked { w: w2, ..x }, p.runs, p.size_pt, st, terms);
    let w3 = if p.marker is Some {
        r.w.closed()
    } else {
        r.w
    };
    let y = para_inked(x, p, st, terms).w;
    assert(y == w3.closed());
    assert(!w3.full && !r.w.full);
    lemma_runs_go_on(Inked { w: w2, ..x }, p.runs, p.size_pt, st, terms);
    lemma_runs_are_even(Inked { w: w2, ..x }, p.runs, p.size_pt, st, terms);
    lemma_stays(w1);
    assert(goes_on(w1, w2));
    assert(!w2.full) by {
        reveal(goes_on);
    }
    assert(!w1.full) by {
        reveal(goes_on);
    }
    if let Some(m) = p.marker {
        let o = w0.opened(
            "span"@,
            attr_text("class"@, st.marker_class@) + style_text(
                marker_css(m, p.first_line_px, st.scalable),
            ),
        );
        let l = o.text(m.label);
        assert(!l.full && !o.full && !w0.full);
        lemma_raw_holds(o, escaped(m.label, false));
        assert(goes_on(l, w1));
        assert(goes_on(w1, r.w));
        lemma_stays(r.w);
        assert(goes_on(r.w, y));
        lemma_still_holds(l, y, escaped(m.label, false));
        assert(w0.open.push("span"@).drop_last() =~= w0.open);
        assert(goes_on(w0, w1));
    } else {
        lemma_stays(w0);
    }
    assert(!w0.full);
    if x.w.muted == 0 {
        assert(w0.muted == 0 && w0.open == x.w.open.push(tag));
        assert(w3.open =~= w0.open);
        assert(x.w.open.push(tag).drop_last() =~= x.w.open);
    }
    assert forall|j: int| 0 <= j < p.runs.len() implies reads(
        y.text,
        #[trigger] p.runs[j],
        st,
        terms,
    ) by {
        lemma_runs_read(Inked { w: w2, ..x }, p.runs, p.size_pt, st, terms, j);
        lemma_stays(r.w);
        assert(goes_on(r.w, w3));
        assert(goes_on(r.w, y));
        lemma_still_reads(r.w, y, p.runs[j], st, terms);
    }
    lemma_stays(r.w);
    assert(goes_on(w0, w3));
    let open = seq!['<'] + tag + attr_text("class"@, class);
    assert(open_text(tag, attrs) =~= open + (style_text(para_css(p, st.scalable)) + seq!['>']));
    lemma_opened_holds(x.w, tag, attrs);
    lemma_part_holds(
        w0.text,
        open_text(tag, attrs),
        open,
        style_text(para_css(p, st.scalable)) + seq!['>'],
    );
    assert(goes_on(w0, y));
    lemma_still_holds(w0, y, open);
    if x.w.muted == 0 {
        reveal(goes_on);
        let close = "</"@ + tag + seq!['>'];
        assert(y.text =~= w3.text + close);
        assert(y.text.take(x.w.text.len() as int) =~= x.w.text) by {
            assert forall|i: int| 0 <= i < x.w.text.len() implies y.text[i] == x.w.text[i] by {
                assert(w0.text[i] == x.w.text[i]);
                assert(w3.text[i] == w0.text[i]);
            }
        }
        let at = x.w.text.len() as int;
        assert(y.text.subrange(at, at + open.len()) =~= open) by {
            assert forall|i: int| 0 <= i < open.len() implies y.text[at + i] == open[i] by {
                assert(w0.text[at + i] == open[i]);
                assert(w3.text[at + i] == w0.text[at + i]);
            }
        }
        assert(y.text.skip(y.text.len() - close.len()) =~= close);
    }
}

/// The element of a heading is named by its level, from `h1` to `h6`; what is no heading
/// is a `p`.
pub proof fn law_elements_by_level(heading: Option<u8>, other: Option<u8>)
    ensures
        heading is Some && 1 <= heading->0 <= 6 ==> para_tag(heading) == seq!['h'] + decimal(
            heading->0 as nat,
        ),
        heading is None ==> para_tag(heading) == "p"@,
        heading is Some && 1 <= heading->0 <= 6 && heading != other ==> para_tag(heading)
            != para_tag(other),
{
    reveal_strlit("h1");
    reveal_strlit("h2");
    reveal_strlit("h3");
    reveal_strlit("h4");
    reveal_strlit("h5");
    reveal_strlit("h6");
    reveal_strlit("p");
    if let Some(n) = heading {
        if 1 <= n <= 6 {
            assert(decimal(n as nat) =~= seq![crate::chars::digit_char(n as int)]);
            assert(para_tag(heading) =~= seq!['h'] + decimal(n as nat));
            assert(para_tag(heading)[1] == (n + 48) as u8 as char);
        }
    }
    if let Some(m) = other {
        if 1 <= m <= 6 {
            assert(para_tag(other)[1] == (m + 48) as u8 as char);
        }
    }
}

/// Each paragraph of some can be read once all are written.
pub proof fn law_paragraphs_can_be_read(
    x: Inked,
    v: Seq<ParaView>,
    st: HtmlStyle,
    terms: Seq<Seq<char>>,
    i: int,
    j: int,
)
    requires
        0 <= i < v.len(),
        0 <= j < v[i].runs.len(),
        !paras_inked(x, v, st, terms).w.full,
    ensures
        reads(paras_inked(x, v, st, terms).w.text, v[i].runs[j], st, terms),
    decreases v.len(),
{
    let next = para_inked(x, v[0], st, terms);
    let all = paras_inked(x, v, st, terms);
    law_paragraphs_go_on(next, v.skip(1), st, terms);
    assert(!next.w.full) by {
        reveal(goes_on);
    }
    law_a_paragraph_can_be_read(x, v[0], st, terms);
    if i == 0 {
        lemma_still_reads(next.w, all.w, v[0].runs[j], st, terms);
    } else {
        assert(v.skip(1)[i - 1] == v[i]);
        law_paragraphs_can_be_read(next, v.skip(1), st, terms, i - 1, j);
    }
}

} // verus!
