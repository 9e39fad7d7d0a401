//! What a heading changes.

use vstd::prelude::*;
use crate::highlight::marked;
use crate::html::{
    attr_text, begins, class_text, escaped, goes_on, group_goes_on, lemma_stays, style_text,
    Written,
};
use crate::markup::{close_text, open_text};
use crate::model::{
    graphic_css, lemma_piece_goes_on, lemma_runs_go_on, marker_css, marker_written, para_css,
    para_inked, para_tag, piece_inked, run_css, run_inked, runs_inked, Break, HtmlStyle, Inked,
    Para, ParaView, Run, RunView, TextView,
};
use crate::odf::length::Px;

verus! {

/// What two writers have in common that went on from one state, each with an element of
/// its own: behind `open` and `other` they wrote the same text, and the same tags stand
/// open inside the two elements. Neither is full.
pub struct Twins {
    pub open: Seq<char>,
    pub other: Seq<char>,
    /// How many tags stand open up to the element.
    pub depth: nat,
}

#[verifier::opaque]
pub open spec fn alike(t: Twins, a: Written, b: Written) -> bool {
    &&& !a.full && !b.full
    &&& a.muted == 0 && b.muted == 0
    &&& a.text.len() - t.open.len() == b.text.len() - t.other.len()
    &&& begins(t.open, a.text)
    &&& begins(t.other, b.text)
    &&& a.text.skip(t.open.len() as int) == b.text.skip(t.other.len() as int)
    &&& a.open.len() == b.open.len()
    &&& a.open.len() >= t.depth
    &&& a.open.skip(t.depth as int) == b.open.skip(t.depth as int)
    &&& a.open.len() > t.depth ==> a.open.last() == b.open.last()
}

proof fn lemma_raw_alike(t: Twins, a: Written, b: Written, s: Seq<char>)
    requires
        alike(t, a, b),
        !a.raw(s).full,
        !b.raw(s).full,
    ensures
        alike(t, a.raw(s), b.raw(s)),
        a.raw(s).open == a.open,
        b.raw(s).open == b.open,
{
    reveal(alike);
    assert(a.raw(s).text.skip(t.open.len() as int) =~= a.text.skip(t.open.len() as int) + s);
    assert(b.raw(s).text.skip(t.other.len() as int) =~= b.text.skip(t.other.len() as int) + s);
}

proof fn lemma_opened_alike(t: Twins, a: Written, b: Written, tag: Seq<char>, attrs: Seq<char>)
    requires
        alike(t, a, b),
        !a.opened(tag, attrs).full,
        !b.opened(tag, attrs).full,
    ensures
        alike(t, a.opened(tag, attrs), b.opened(tag, attrs)),
        a.opened(tag, attrs).open == a.open.push(tag),
        b.opened(tag, attrs).open == b.open.push(tag),
{
    reveal(alike);
    let s = open_text(tag, attrs);
    let x = a.opened(tag, attrs);
    let y = b.opened(tag, attrs);
    assert(x.text.skip(t.open.len() as int) =~= a.text.skip(t.open.len() as int) + s);
    assert(y.text.skip(t.other.len() as int) =~= b.text.skip(t.other.len() as int) + s);
    assert(x.open.skip(t.depth as int) =~= a.open.skip(t.depth as int).push(tag));
    assert(y.open.skip(t.depth as int) =~= b.open.skip(t.depth as int).push(tag));
}

proof fn lemma_closed_alike(t: Twins, a: Written, b: Written)
    requires
        alike(t, a, b),
        a.open.len() > t.depth,
    ensures
        alike(t, a.closed(), b.closed()),
        a.closed().open == a.open.drop_last(),
        b.closed().open == b.open.drop_last(),
        !a.closed().full,
        !b.closed().full,
{
    reveal(alike);
    let x = a.closed();
    let y = b.closed();
    let s = close_text(a.open.last());
    assert(x.text.skip(t.open.len() as int) =~= a.text.skip(t.open.len() as int) + s);
    assert(y.text.skip(t.other.len() as int) =~= b.text.skip(t.other.len() as int) + s);
    assert(x.open.skip(t.depth as int) =~= a.open.skip(t.depth as int).drop_last());
    assert(y.open.skip(t.depth as int) =~= b.open.skip(t.depth as int).drop_last());
    if x.open.len() > t.depth {
        let k = x.open.len() - 1 - t.depth;
        assert(x.open.last() == x.open.skip(t.depth as int)[k]);
        assert(y.open.last() == y.open.skip(t.depth as int)[k]);
    }
}

/// An element with some text in it.
proof fn lemma_element_alike(
    t: Twins,
    a: Written,
    b: Written,
    tag: Seq<char>,
    attrs: Seq<char>,
    s: Seq<char>,
)
    requires
        alike(t, a, b),
        !a.opened(tag, attrs).raw(s).closed().full,
        !b.opened(tag, attrs).raw(s).closed().full,
    ensures
        alike(
            t,
            a.opened(tag, attrs).raw(s).closed(),
            b.opened(tag, attrs).raw(s).closed(),
        ),
        a.opened(tag, attrs).raw(s).closed().open == a.open,
        b.opened(tag, attrs).raw(s).closed().open == b.open,
{
    assert(a.open.len() >= t.depth) by {
        reveal(alike);
    }
    lemma_opened_alike(t, a, b, tag, attrs);
    let x = a.opened(tag, attrs);
    let y = b.opened(tag, attrs);
    lemma_raw_alike(t, x, y, s);
    lemma_closed_alike(t, x.raw(s), y.raw(s));
    assert(x.open.drop_last() =~= a.open);
    assert(y.open.drop_last() =~= b.open);
}

proof fn lemma_run_alike(
    t: Twins,
    a: Inked,
    b: Inked,
    r: TextView,
    base_pt: Px,
    scalable: bool,
    terms: Seq<Seq<char>>,
)
    requires
        alike(t, a.w, b.w),
        a.marks == b.marks,
        !run_inked(a, r, base_pt, scalable, terms).w.full,
        !run_inked(b, r, base_pt, scalable, terms).w.full,
    ensures
        ({
            let x = run_inked(a, r, base_pt, scalable, terms);
            let y = run_inked(b, r, base_pt, scalable, terms);
            &&& alike(t, x.w, y.w)
            &&& x.marks == y.marks
            &&& x.w.open == a.w.open
            &&& y.w.open == b.w.open
        }),
{
    let css = run_css(r, base_pt, scalable);
    let m = marked(r.text, terms, a.marks);
    assert(a.w.open.len() >= t.depth) by {
        reveal(alike);
    }
    match r.link {
        Some(href) => {
            let attrs = attr_text("href"@, href) + attr_text("title"@, href);
            let a0 = a.w.opened("a"@, attrs);
            let b0 = b.w.opened("a"@, attrs);
            lemma_opened_alike(t, a.w, b.w, "a"@, attrs);
            if css.len() == 0 {
                lemma_raw_alike(t, a0, b0, m.0);
                lemma_closed_alike(t, a0.raw(m.0), b0.raw(m.0));
            } else {
                lemma_element_alike(t, a0, b0, "span"@, style_text(css), m.0);
                lemma_closed_alike(
                    t,
                    a0.opened("span"@, style_text(css)).raw(m.0).closed(),
                    b0.opened("span"@, style_text(css)).raw(m.0).closed(),
                );
            }
            assert(a0.open.drop_last() =~= a.w.open);
            assert(b0.open.drop_last() =~= b.w.open);
        },
        None => {
            if css.len() == 0 {
                lemma_raw_alike(t, a.w, b.w, m.0);
            } else {
                lemma_element_alike(t, a.w, b.w, "span"@, style_text(css), m.0);
            }
        },
    }
}

proof fn lemma_piece_alike(
    t: Twins,
    a: Inked,
    b: Inked,
    r: RunView,
    base_pt: Px,
    st: HtmlStyle,
    terms: Seq<Seq<char>>,
)
    requires
        alike(t, a.w, b.w),
        a.marks == b.marks,
        !piece_inked(a, r, base_pt, st, terms).w.full,
        !piece_inked(b, r, base_pt, st, terms).w.full,
    ensures
        ({
            let x = piece_inked(a, r, base_pt, st, terms);
            let y = piece_inked(b, r, base_pt, st, terms);
            &&& alike(t, x.w, y.w)
            &&& x.marks == y.marks
            &&& x.w.open == a.w.open
            &&& y.w.open == b.w.open
        }),
{
    reveal(piece_inked);
    match r {
        Run::Break(k) => {
            let attrs = if k == Break::Line {
                Seq::empty()
            } else {
                class_text(st.break_class@)
            };
            lemma_raw_alike(t, a.w, b.w, open_text("br"@, attrs));
        },
        Run::Tab => {
            lemma_raw_alike(t, a.w, b.w, escaped("\t"@, false));
        },
        Run::Graphic(g) => {
            let css = graphic_css(g);
            match g.src {
                Some(src) => {
                    let attrs = class_text(st.img_class@) + attr_text("src"@, src) + attr_text(
                        "alt"@,
                        g.label,
                    ) + style_text(css);
                    lemma_raw_alike(t, a.w, b.w, open_text("img"@, attrs));
                },
                None => {
                    lemma_element_alike(
                        t,
                        a.w,
                        b.w,
                        "span"@,
                        class_text(st.graphic_class@) + style_text(css),
                        escaped(g.label, false),
                    );
                },
            }
        },
        Run::Anchor(id) => {
            let attrs = attr_text("id"@, id);
            assert(a.w.open.len() >= t.depth) by {
                reveal(alike);
            }
            lemma_opened_alike(t, a.w, b.w, "span"@, attrs);
            lemma_closed_alike(t, a.w.opened("span"@, attrs), b.w.opened("span"@, attrs));
            assert(a.w.open.push("span"@).drop_last() =~= a.w.open);
            assert(b.w.open.push("span"@).drop_last() =~= b.w.open);
        },
        Run::Text(x) => {
            if x.text.len() > 0 {
                lemma_run_alike(t, a, b, x, base_pt, st.scalable, terms);
            }
        },
    }
}

proof fn lemma_runs_alike(
    t: Twins,
    a: Inked,
    b: Inked,
    runs: Seq<RunView>,
    base_pt: Px,
    st: HtmlStyle,
    terms: Seq<Seq<char>>,
)
    requires
        alike(t, a.w, b.w),
        a.marks == b.marks,
        !runs_inked(a, runs, base_pt, st, terms).w.full,
        !runs_inked(b, runs, base_pt, st, terms).w.full,
    ensures
        ({
            let x = runs_inked(a, runs, base_pt, st, terms);
            let y = runs_inked(b, runs, base_pt, st, terms);
            &&& alike(t, x.w, y.w)
            &&& x.marks == y.marks
            &&& x.w.open == a.w.open
            &&& y.w.open == b.w.open
        }),
    decreases runs.len(),
{
    if runs.len() > 0 {
        let d = runs.drop_last();
        let x = runs_inked(a, d, base_pt, st, terms);
        let y = runs_inked(b, d, base_pt, st, terms);
        lemma_piece_goes_on(x, runs.last(), base_pt, st, terms);
        lemma_piece_goes_on(y, runs.last(), base_pt, st, terms);
        reveal(goes_on);
        lemma_runs_alike(t, a, b, d, base_pt, st, terms);
        lemma_piece_alike(t, x, y, runs.last(), base_pt, st, terms);
    }
}

/// The attributes of a paragraph's element.
pub open spec fn para_attrs(p: ParaView, st: HtmlStyle) -> Seq<char> {
    attr_text(
        "class"@,
        if p.marker is Some {
            st.list_class@
        } else {
            st.para_class@
        },
    ) + style_text(para_css(p, st.scalable))
}

/// An element: its tag, what stands inside it, and the tag that closes it.
pub open spec fn element_text(tag: Seq<char>, attrs: Seq<char>, inside: Seq<char>) -> Seq<char> {
    open_text(tag, attrs) + inside + close_text(tag)
}

/// What is written inside a paragraph's element, before the element is closed.
#[verifier::opaque]
pub open spec fn para_inside(
    x: Inked,
    p: ParaView,
    st: HtmlStyle,
    terms: Seq<Seq<char>>,
) -> Inked {
    let w1 = match p.marker {
        Some(m) => marker_written(x.w, m, st, p.first_line_px).opened(
            "span"@,
            attr_text("class"@, st.text_class@),
        ),
        None => x.w,
    };
    let w2 = if p.runs.len() == 0 {
        w1.text("\u{00a0}"@)
    } else {
        w1
    };
    let y = runs_inked(Inked { w: w2, ..x }, p.runs, p.size_pt, st, terms);
    Inked {
        w: if p.marker is Some {
            y.w.closed()
        } else {
            y.w
        },
        ..y
    }
}

proof fn lemma_para_parts(x: Inked, p: ParaView, st: HtmlStyle, terms: Seq<Seq<char>>)
    ensures
        ({
            let start = Inked { w: x.w.opened(para_tag(p.heading), para_attrs(p, st)), ..x };
            let y = para_inside(start, p, st, terms);
            para_inked(x, p, st, terms) == (Inked { w: y.w.closed(), ..y })
        }),
{
    reveal(para_inked);
    reveal(para_inside);
}

proof fn lemma_heading_aside(
    x: Inked,
    p: ParaView,
    heading: Option<u8>,
    st: HtmlStyle,
    terms: Seq<Seq<char>>,
)
    ensures
        para_inside(x, Para { heading, ..p }, st, terms) == para_inside(x, p, st, terms),
        para_attrs(Para { heading, ..p }, st) == para_attrs(p, st),
{
    reveal(para_inside);
}

proof fn lemma_alike_closed(
    t: Twins,
    x: Written,
    y: Written,
    z: Written,
    tag: Seq<char>,
    other: Seq<char>,
    attrs: Seq<char>,
)
    requires
        alike(t, y, z),
        t.open == x.text + open_text(tag, attrs),
        t.other == x.text + open_text(other, attrs),
        y.open == x.open.push(tag),
        z.open == x.open.push(other),
    ensures
        y.closed().open == x.open,
        z.closed().open == x.open,
        exists|inside: Seq<char>|
            y.closed().text == x.text + #[trigger] element_text(tag, attrs, inside)
                && z.closed().text == x.text + element_text(other, attrs, inside),
{
    reveal(alike);
    let inside = y.text.skip(t.open.len() as int);
    assert(y.text =~= t.open + inside);
    assert(z.text =~= t.other + inside);
    assert(y.open.drop_last() =~= x.open);
    assert(z.open.drop_last() =~= x.open);
    assert(y.closed().text =~= x.text + element_text(tag, attrs, inside));
    assert(z.closed().text =~= x.text + element_text(other, attrs, inside));
}

proof fn lemma_inside_goes_on(x: Inked, p: ParaView, st: HtmlStyle, terms: Seq<Seq<char>>)
    ensures
        goes_on(x.w, para_inside(x, p, st, terms).w),
{
    broadcast use group_goes_on;

    reveal(para_inside);
    let w1 = match p.marker {
        Some(m) => marker_written(x.w, m, st, p.first_line_px).opened(
            "span"@,
            attr_text("class"@, st.text_class@),
        ),
        None => x.w,
    };
    let w2 = if p.runs.len() == 0 {
        w1.text("\u{00a0}"@)
    } else {
        w1
    };
    lemma_stays(x.w);
    assert(goes_on(x.w, w1));
    assert(goes_on(x.w, w2));
    lemma_runs_go_on(Inked { w: w2, ..x }, p.runs, p.size_pt, st, terms);
}

proof fn lemma_inside_alike(
    t: Twins,
    a: Inked,
    b: Inked,
    p: ParaView,
    st: HtmlStyle,
    terms: Seq<Seq<char>>,
)
    requires
        alike(t, a.w, b.w),
        a.marks == b.marks,
        !para_inside(a, p, st, terms).w.full,
        !para_inside(b, p, st, terms).w.full,
    ensures
        ({
            let x = para_inside(a, p, st, terms);
            let y = para_inside(b, p, st, terms);
            &&& alike(t, x.w, y.w)
            &&& x.marks == y.marks
            &&& x.w.open == a.w.open
            &&& y.w.open == b.w.open
        }),
{
    reveal(para_inside);
    let span = attr_text("class"@, st.text_class@);
    let (a1, b1) = match p.marker {
        Some(m) => (
            marker_written(a.w, m, st, p.first_line_px).opened("span"@, span),
            marker_written(b.w, m, st, p.first_line_px).opened("span"@, span),
        ),
        None => (a.w, b.w),
    };
    let blank = "\u{00a0}"@;
    let (a2, b2) = if p.runs.len() == 0 {
        (a1.text(blank), b1.text(blank))
    } else {
        (a1, b1)
    };
    let x = runs_inked(Inked { w: a2, ..a }, p.runs, p.size_pt, st, terms);
    let y = runs_inked(Inked { w: b2, ..b }, p.runs, p.size_pt, st, terms);
    assert(!a2.full && !b2.full) by {
        lemma_runs_go_on(Inked { w: a2, ..a }, p.runs, p.size_pt, st, terms);
        lemma_runs_go_on(Inked { w: b2, ..b }, p.runs, p.size_pt, st, terms);
        reveal(goes_on);
    }
    assert(a.w.open.len() >= t.depth) by {
        reveal(alike);
    }
    if let Some(m) = p.marker {
        let attrs = attr_text("class"@, st.marker_class@) + style_text(
            marker_css(m, p.first_line_px, st.scalable),
        );
        lemma_element_alike(t, a.w, b.w, "span"@, attrs, escaped(m.label, false));
        lemma_opened_alike(
            t,
            marker_written(a.w, m, st, p.first_line_px),
            marker_written(b.w, m, st, p.first_line_px),
            "span"@,
            span,
        );
    }
    if p.runs.len() == 0 {
        lemma_raw_alike(t, a1, b1, escaped(blank, false));
    }
    lemma_runs_alike(t, Inked { w: a2, ..a }, Inked { w: b2, ..b }, p.runs, p.size_pt, st, terms);
    if p.marker is Some {
        lemma_closed_alike(t, x.w, y.w);
        assert(a.w.open.push("span"@).drop_last() =~= a.w.open);
        assert(b.w.open.push("span"@).drop_last() =~= b.w.open);
    }
}

/// A heading changes a paragraph's element and nothing else: where both fit, the heading
/// is `h1` to `h6` with the attributes and the content that the paragraph has in `p`, and
/// a level that HTML has no heading for is a plain paragraph.
pub proof fn law_a_heading_changes_the_element_alone(
    x: Inked,
    p: ParaView,
    level: u8,
    st: HtmlStyle,
    terms: Seq<Seq<char>>,
)
    requires
        x.w.muted == 0,
        !para_inked(x, Para { heading: Some(level), ..p }, st, terms).w.full,
        !para_inked(x, Para { heading: None, ..p }, st, terms).w.full,
    ensures
        ({
            let h = para_inked(x, Para { heading: Some(level), ..p }, st, terms);
            let q = para_inked(x, Para { heading: None, ..p }, st, terms);
            &&& !(1 <= level <= 6) ==> h == q
            &&& h.marks == q.marks
            &&& h.w.open == x.w.open
            &&& q.w.open == x.w.open
            &&& exists|inside: Seq<char>|
                h.w.text == x.w.text + #[trigger] element_text(
                    para_tag(Some(level)),
                    para_attrs(p, st),
                    inside,
                ) && q.w.text == x.w.text + element_text("p"@, para_attrs(p, st), inside)
        }),
{
    let ph = Para { heading: Some(level), ..p };
    let pq = Para { heading: None, ..p };
    let tag = para_tag(Some(level));
    let attrs = para_attrs(p, st);
    lemma_para_parts(x, ph, st, terms);
    lemma_para_parts(x, pq, st, terms);
    if !(1 <= level <= 6) {
        assert(tag == "p"@);
    }
    let a = Inked { w: x.w.opened(tag, attrs), ..x };
    let b = Inked { w: x.w.opened("p"@, attrs), ..x };
    let y = para_inside(a, p, st, terms);
    let z = para_inside(b, p, st, terms);
    lemma_heading_aside(a, p, Some(level), st, terms);
    lemma_heading_aside(b, p, None, st, terms);
    assert(!a.w.full && !b.w.full) by {
        lemma_inside_goes_on(a, p, st, terms);
        lemma_inside_goes_on(b, p, st, terms);
        reveal(goes_on);
    }
    let t = Twins { open: a.w.text, other: b.w.text, depth: x.w.open.len() + 1 };
    assert(alike(t, a.w, b.w)) by {
        reveal(alike);
        assert(a.w.text.skip(t.open.len() as int) =~= b.w.text.skip(t.other.len() as int));
        assert(a.w.open.skip(t.depth as int) =~= b.w.open.skip(t.depth as int));
    }
    lemma_inside_alike(t, a, b, p, st, terms);
    lemma_alike_closed(t, x.w, y.w, z.w, tag, "p"@, attrs);
}

} // verus!
