//! What a document says can be read in its preview: the text of every paragraph that a
//! walk comes to is written, whatever lists and sections it stands in, unless a bound is
//! reached.

use vstd::prelude::*;
use crate::chars::decimal;
use crate::highlight::marked;
use crate::html::{attr_text, begins, goes_on, group_goes_on, lemma_stays, Written};
use crate::link::destination_of;
use crate::model::words::{
    holds, law_a_paragraph_can_be_read, law_elements_by_level, lemma_still_holds, lemma_still_reads,
    reads,
};
use crate::model::{para_inked, para_tag, paras_inked, Inked, Para, ParaView};
use crate::notes::noted;
use crate::odf::length::Px;
use crate::odf::list::{law_enter_and_leave_pair, start_of, LevelIndent};
use crate::odf::style::{para_of, size_in, Family, TextPropsView, DEFAULT_SIZE_PT};
use crate::odf::text::blocks::{
    block_walked, blocks_walked, header_part, heading_of, indent_of_part, indented, item_counted,
    item_walked, items_walked, listed, para_part, para_walked, part_has_image, part_label,
    part_walked, parts_walked, walked, PartView,
};
use crate::odf::text::laws::{
    kept, law_notes_keep_the_bounds, lemma_block, lemma_blocks, lemma_breaking, lemma_counting,
    lemma_flushing, lemma_item, lemma_items, lemma_kept_on, lemma_noting, lemma_part, lemma_parts,
    lemma_ready, lemma_same, lemma_walked, reach, ready,
};
use crate::odf::text::runs::{is_silent, run_drawn, runs_drawn, runs_each, span_text, Drawn};
use crate::odf::text::tail::tailed;
use crate::odf::text::{
    doc_env, doc_walked, lists_of, setup_of, text_body, CtxView, EnvView, Input, Room, DEPTHS,
    MAX_PARAS, MAX_RUNS, NOTE_BULLET_IMAGE, NOTE_COLUMNS, NOTE_HEADER,
};
use crate::xml::{Item, Tree};

verus! {

// ── what a paragraph says ────────────────────────────────────────────────────

/// A text stands in an element: as a child of it, or in a span or a link inside it.
pub open spec fn says(e: Tree, t: Seq<char>, deep: nat) -> bool
    decreases deep, 0int,
{
    deep > 0 && exists|j: int|
        0 <= j < e.children.len() && item_says(#[trigger] e.children[j], t, (deep - 1) as nat)
}

pub open spec fn item_says(v: Item, t: Seq<char>, deep: nat) -> bool
    decreases deep, 1int,
{
    match v {
        Item::Text(s) => s == t && t.len() > 0,
        Item::Element(c) => (c.name == "span"@ || c.name == "a"@) && says(c, t, deep),
    }
}

/// No less than the runs that some children can come to.
pub open spec fn most_runs(v: Seq<Item>, deep: nat) -> nat
    decreases deep, v.len(),
{
    if v.len() == 0 {
        0
    } else {
        most_runs(v.skip(1), deep) + match v[0] {
            Item::Text(_) => 1nat,
            Item::Element(c) => if deep == 0 {
                3
            } else {
                3 + most_runs(c.children, (deep - 1) as nat)
            },
        }
    }
}

/// Runs are only added behind those that there are, and no more than there can be.
proof fn lemma_runs_grow(
    k: EnvView,
    d: Drawn,
    e: Tree,
    t: TextPropsView,
    base_pt: Px,
    deep: usize,
    link: Option<Seq<char>>,
    boxes: usize,
)
    ensures
        begins(d.out, runs_drawn(k, d, e, t, base_pt, deep, link, boxes).out),
        deep > 0 ==> runs_drawn(k, d, e, t, base_pt, deep, link, boxes).out.len() <= d.out.len()
            + most_runs(e.children, (deep - 1) as nat),
        deep == 0 ==> runs_drawn(k, d, e, t, base_pt, deep, link, boxes).out.len()
            <= d.out.len(),
    decreases deep, 0int, 0int,
{
    if deep > 0 {
        lemma_each_grow(k, d, e.children, t, base_pt, (deep - 1) as usize, link, boxes);
    }
}

proof fn lemma_each_grow(
    k: EnvView,
    d: Drawn,
    v: Seq<Item>,
    t: TextPropsView,
    base_pt: Px,
    below: usize,
    link: Option<Seq<char>>,
    boxes: usize,
)
    ensures
        begins(d.out, runs_each(k, d, v, t, base_pt, below, link, boxes).out),
        runs_each(k, d, v, t, base_pt, below, link, boxes).out.len() <= d.out.len() + most_runs(
            v,
            below as nat,
        ),
    decreases below, 2int, v.len(),
{
    if v.len() == 0 || d.out.len() >= MAX_RUNS {
    } else {
        let next = run_drawn(k, d, v[0], t, base_pt, below, link, boxes);
        let all = runs_each(k, d, v, t, base_pt, below, link, boxes);
        lemma_run_grow(k, d, v[0], t, base_pt, below, link, boxes);
        lemma_each_grow(k, next, v.skip(1), t, base_pt, below, link, boxes);
        assert forall|i: int| 0 <= i < d.out.len() implies #[trigger] all.out[i] == d.out[i] by {
            assert(next.out[i] == d.out[i]);
        }
    }
}

proof fn lemma_run_grow(
    k: EnvView,
    d: Drawn,
    v: Item,
    t: TextPropsView,
    base_pt: Px,
    below: usize,
    link: Option<Seq<char>>,
    boxes: usize,
)
    ensures
        begins(d.out, run_drawn(k, d, v, t, base_pt, below, link, boxes).out),
        ({
            let n = run_drawn(k, d, v, t, base_pt, below, link, boxes).out.len();
            match v {
                Item::Text(_) => n <= d.out.len() + 1,
                Item::Element(c) => if below == 0 {
                    n <= d.out.len() + 3
                } else {
                    n <= d.out.len() + 3 + most_runs(c.children, (below - 1) as nat)
                },
            }
        }),
    decreases below, 1int, 0int,
{
    if let Item::Element(c) = v {
        if c.name == "span"@ {
            lemma_runs_grow(k, d, c, span_text(k, t, c), base_pt, below, link, boxes);
        } else if c.name == "a"@ {
            let to = match c.attr("href"@) {
                Some(href) => destination_of(href),
                None => None,
            };
            lemma_runs_grow(k, d, c, span_text(k, t, c), base_pt, below, to, boxes);
        } else if c.name == "s"@ || c.name == "tab"@ || c.name == "line-break"@ || c.name
            == "note"@ || c.name == "frame"@ || c.name == "bookmark-start"@ || c.name
            == "bookmark"@ || is_silent(c.name) {
        } else {
            lemma_runs_grow(k, d, c, t, base_pt, below, link, boxes);
        }
    }
}

/// A text of a paragraph is a run of it.
proof fn lemma_said(
    k: EnvView,
    d: Drawn,
    e: Tree,
    t: TextPropsView,
    base_pt: Px,
    deep: usize,
    link: Option<Seq<char>>,
    boxes: usize,
    s: Seq<char>,
) -> (i: int)
    requires
        says(e, s, deep as nat),
        d.out.len() + most_runs(e.children, (deep - 1) as nat) <= MAX_RUNS,
    ensures
        ({
            let out = runs_drawn(k, d, e, t, base_pt, deep, link, boxes).out;
            0 <= i < out.len() && out[i] is Text && out[i]->Text_0.text == s
        }),
    decreases deep, 0int, 0int,
{
    let j = choose|j: int|
        0 <= j < e.children.len() && item_says(#[trigger] e.children[j], s, (deep - 1) as nat);
    lemma_said_each(k, d, e.children, t, base_pt, (deep - 1) as usize, link, boxes, s, j)
}

proof fn lemma_said_each(
    k: EnvView,
    d: Drawn,
    v: Seq<Item>,
    t: TextPropsView,
    base_pt: Px,
    below: usize,
    link: Option<Seq<char>>,
    boxes: usize,
    s: Seq<char>,
    j: int,
) -> (i: int)
    requires
        0 <= j < v.len(),
        item_says(v[j], s, below as nat),
        d.out.len() + most_runs(v, below as nat) <= MAX_RUNS,
    ensures
        ({
            let out = runs_each(k, d, v, t, base_pt, below, link, boxes).out;
            0 <= i < out.len() && out[i] is Text && out[i]->Text_0.text == s
        }),
    decreases below, 2int, v.len(),
{
    let next = run_drawn(k, d, v[0], t, base_pt, below, link, boxes);
    lemma_run_grow(k, d, v[0], t, base_pt, below, link, boxes);
    assert(d.out.len() < MAX_RUNS);
    if j == 0 {
        let i = match v[0] {
            Item::Text(_) => d.out.len() as int,
            Item::Element(c) => if c.name == "span"@ {
                lemma_said(k, d, c, span_text(k, t, c), base_pt, below, link, boxes, s)
            } else {
                reveal_strlit("span");
                reveal_strlit("a");
                let to = match c.attr("href"@) {
                    Some(href) => destination_of(href),
                    None => None,
                };
                lemma_said(k, d, c, span_text(k, t, c), base_pt, below, to, boxes, s)
            },
        };
        lemma_each_grow(k, next, v.skip(1), t, base_pt, below, link, boxes);
        assert(runs_each(k, d, v, t, base_pt, below, link, boxes).out[i] == next.out[i]);
        i
    } else {
        assert(v.skip(1)[j - 1] == v[j]);
        lemma_said_each(k, next, v.skip(1), t, base_pt, below, link, boxes, s, j - 1)
    }
}

// ── paragraphs ───────────────────────────────────────────────────────────────

/// A text can be read in a page, with the words that are searched for marked.
pub open spec fn readable(text: Seq<char>, t: Seq<char>, terms: Seq<Seq<char>>) -> bool {
    exists|n: u64| holds(text, (#[trigger] marked(t, terms, n)).0)
}

/// A paragraph that a walk comes to is written: it is a `p`, or a heading of its level,
/// and every text of it can be read.
pub proof fn law_a_paragraph_is_written(
    k: EnvView,
    s: CtxView,
    p: Tree,
    part: Option<PartView>,
    boxes: usize,
)
    requires
        ready(s, 1000 * boxes),
        s.paras < MAX_PARAS,
        !para_walked(k, s, p, part, boxes).w.full,
    ensures
        ({
            let text = para_walked(k, s, p, part, boxes).w.text;
            let level = p.attr_u32("outline-level"@);
            &&& p.name != "h"@ ==> holds(text, "<p class=\""@)
            &&& p.name == "h"@ && level is Some && 1 <= level->0 <= 6 ==> holds(
                text,
                "<h"@ + decimal(level->0 as nat) + " class=\""@,
            )
            &&& p.name == "h"@ && level is Some && level->0 > 6 ==> holds(text, "<h6 class=\""@)
            &&& p.name == "h"@ && (level is None || level == Some(0u32)) ==> holds(
                text,
                "<h1 class=\""@,
            )
            &&& forall|t: Seq<char>|
                says(p, t, DEPTHS as nat) && most_runs(p.children, (DEPTHS - 1) as nat) <= MAX_RUNS
                    ==> #[trigger] readable(text, t, k.terms)
        }),
{
    broadcast use {lemma_kept_on, group_goes_on};

    let name = p.text_attr("style-name"@);
    let r = k.styles.resolved(Family::Paragraph, name);
    let base_pt = size_in(r.text.size, DEFAULT_SIZE_PT);
    let pp = indented(r.para, indent_of_part(part));
    let s1 = CtxView { paras: (s.paras + 1) as usize, ..s };
    let s2 = if part_has_image(part) {
        s1.noting(NOTE_BULLET_IMAGE@)
    } else {
        s1
    };
    let s3 = s2.broken(k, pp.break_before);
    let begin = Drawn { s: s3, out: Seq::empty() };
    let d = runs_drawn(k, begin, p, r.text, base_pt, DEPTHS, None, boxes);
    let para = para_of(pp, base_pt, heading_of(p));
    let written = Para {
        runs: d.out,
        marker: part_label(part),
        space_before_px: if pp.contextual_spacing == Some(true) && s.prev_style == Some(name) {
            0
        } else {
            para.space_before_px
        },
        ..para
    };
    let s4 = d.s.inked(k, written);
    let end = para_walked(k, s, p, part, boxes);
    assert(end.w == s4.flushed().broken(k, pp.break_after).w);
    lemma_flushing(s4);
    lemma_breaking(k, s4.flushed(), pp.break_after);
    assert(goes_on(s4.w, end.w)) by {
        reveal(kept);
    }
    assert(!s4.w.full) by {
        reveal(goes_on);
    }
    let x = Inked { w: d.s.w, marks: d.s.marks };
    let one = seq![written];
    assert(one.skip(1) =~= Seq::<ParaView>::empty());
    assert(one[0] == written);
    assert(!x.w.full);
    let y = para_inked(x, written, k.classes.html, k.terms);
    assert(paras_inked(y, one.skip(1), k.classes.html, k.terms) == y);
    assert(s4.w == y.w);
    law_a_paragraph_can_be_read(x, written, k.classes.html, k.terms);
    lemma_tag(written, k, s4.w, end.w, p);
    assert forall|t: Seq<char>|
        says(p, t, DEPTHS as nat) && most_runs(p.children, (DEPTHS - 1) as nat)
            <= MAX_RUNS implies #[trigger] readable(end.w.text, t, k.terms) by {
        let i = lemma_said(k, begin, p, r.text, base_pt, DEPTHS, None, boxes, t);
        assert(reads(s4.w.text, written.runs[i], k.classes.html, k.terms));
        assert(t.len() > 0) by {
            lemma_said_is_some(p, t, DEPTHS as nat);
        }
        lemma_still_reads(s4.w, end.w, written.runs[i], k.classes.html, k.terms);
    }
}

proof fn lemma_said_is_some(e: Tree, t: Seq<char>, deep: nat)
    requires
        says(e, t, deep),
    ensures
        t.len() > 0,
    decreases deep,
{
    let j = choose|j: int|
        0 <= j < e.children.len() && item_says(#[trigger] e.children[j], t, (deep - 1) as nat);
    if let Item::Element(c) = e.children[j] {
        lemma_said_is_some(c, t, (deep - 1) as nat);
    }
}

/// The beginning of a paragraph's tag.
proof fn lemma_tag(written: ParaView, k: EnvView, a: Written, b: Written, p: Tree)
    requires
        goes_on(a, b),
        written.heading == heading_of(p),
        ({
            let class = if written.marker is Some {
                k.classes.html.list_class@
            } else {
                k.classes.html.para_class@
            };
            holds(a.text, seq!['<'] + para_tag(written.heading) + attr_text("class"@, class))
        }),
    ensures
        holds(b.text, seq!['<'] + para_tag(heading_of(p)) + " class=\""@),
        ({
            let level = p.attr_u32("outline-level"@);
            let tag = seq!['<'] + para_tag(heading_of(p)) + " class=\""@;
            &&& p.name != "h"@ ==> tag == "<p class=\""@
            &&& p.name == "h"@ && level is Some && 1 <= level->0 <= 6 ==> tag == "<h"@ + decimal(
                level->0 as nat,
            ) + " class=\""@
            &&& p.name == "h"@ && level is Some && level->0 > 6 ==> tag == "<h6 class=\""@
            &&& p.name == "h"@ && (level is None || level == Some(0u32)) ==> tag
                == "<h1 class=\""@
        }),
{
    let class = if written.marker is Some {
        k.classes.html.list_class@
    } else {
        k.classes.html.para_class@
    };
    let tag = para_tag(heading_of(p));
    lemma_still_holds(a, b, seq!['<'] + tag + attr_text("class"@, class));
    lemma_class_begins(tag, class, b.text);
    law_elements_by_level(heading_of(p), None);
    let level = p.attr_u32("outline-level"@);
    reveal_strlit("<p class=\"");
    reveal_strlit("<h6 class=\"");
    reveal_strlit("<h1 class=\"");
    reveal_strlit(" class=\"");
    reveal_strlit("<h");
    reveal_strlit("h6");
    reveal_strlit("h1");
    reveal_strlit("p");
    let all = seq!['<'] + tag + " class=\""@;
    if p.name != "h"@ {
        assert(all =~= "<p class=\""@);
    } else if level is Some && 1 <= level->0 <= 6 {
        assert(heading_of(p) == Some(level->0 as u8));
        assert(seq!['<'] + (seq!['h'] + decimal(level->0 as nat)) =~= "<h"@ + decimal(
            level->0 as nat,
        ));
        assert(all =~= "<h"@ + decimal(level->0 as nat) + " class=\""@);
    } else if level is Some && level->0 > 6 {
        assert(all =~= "<h6 class=\""@);
    } else {
        assert(all =~= "<h1 class=\""@);
    }
}

proof fn lemma_class_begins(tag: Seq<char>, class: Seq<char>, text: Seq<char>)
    requires
        holds(text, seq!['<'] + tag + attr_text("class"@, class)),
    ensures
        holds(text, seq!['<'] + tag + " class=\""@),
{
    reveal_strlit(" class=\"");
    reveal_strlit("class");
    reveal_strlit("=\"");
    let value = crate::html::escaped(class, true) + "\""@;
    assert(attr_text("class"@, class) =~= " class=\""@ + value);
    let whole = seq!['<'] + tag + attr_text("class"@, class);
    let a = seq!['<'] + tag + " class=\""@;
    assert(whole =~= a + value);
    crate::model::words::lemma_part_holds(text, whole, a, value);
}

// ── blocks ───────────────────────────────────────────────────────────────────

/// A paragraph stands in a block: it is the block, or it stands in a section, or in an
/// item or a header of a list.
pub open spec fn bears(n: Tree, p: Tree, deep: nat) -> bool
    decreases deep, 0int,
{
    ||| n == p && (n.name == "p"@ || n.name == "h"@)
    ||| deep > 0 && n.name == "section"@ && any_bears(n.elems(), p, (deep - 1) as nat)
    ||| deep > 0 && n.name == "list"@ && exists|i: int|
        0 <= i < n.elems().len() && ((#[trigger] n.elems()[i]).name == "list-item"@
            || n.elems()[i].name == "list-header"@) && any_bears(
            n.elems()[i].elems(),
            p,
            (deep - 1) as nat,
        )
}

pub open spec fn any_bears(v: Seq<Tree>, p: Tree, deep: nat) -> bool
    decreases deep, 1int,
{
    exists|i: int| 0 <= i < v.len() && bears(#[trigger] v[i], p, deep)
}

/// The walk came to a paragraph with room for it, and went on to `end`.
pub open spec fn reached(
    k: EnvView,
    s: CtxView,
    p: Tree,
    part: Option<PartView>,
    boxes: usize,
    end: CtxView,
) -> bool {
    &&& ready(s, 1000 * boxes)
    &&& s.paras < MAX_PARAS
    &&& goes_on(para_walked(k, s, p, part, boxes).w, end.w)
}

proof fn lemma_reached_on(
    k: EnvView,
    s: CtxView,
    p: Tree,
    part: Option<PartView>,
    boxes: usize,
    a: CtxView,
    b: CtxView,
)
    requires
        reached(k, s, p, part, boxes, a),
        goes_on(a.w, b.w),
    ensures
        reached(k, s, p, part, boxes, b),
{
    broadcast use group_goes_on;

}

proof fn lemma_blocks_reach(
    k: EnvView,
    s: CtxView,
    v: Seq<Tree>,
    p: Tree,
    deep: nat,
    below: Room,
    i: int,
) -> (r: (CtxView, Option<PartView>))
    requires
        ready(s, reach(below) + 1),
        0 <= i < v.len(),
        bears(v[i], p, deep),
        deep <= below.depth,
        !blocks_walked(k, s, v, below).w.full,
        blocks_walked(k, s, v, below).paras < MAX_PARAS,
    ensures
        reached(k, r.0, p, r.1, below.boxes, blocks_walked(k, s, v, below)),
    decreases deep, 5int, v.len(),
{
    let next = block_walked(k, s, v[0], below);
    let end = blocks_walked(k, s, v, below);
    assert(!s.w.full);
    lemma_block(k, s, v[0], below);
    lemma_ready(s, next, reach(below) + 1);
    lemma_blocks(k, next, v.skip(1), below);
    assert(kept(next, end));
    assert(goes_on(next.w, end.w) && next.paras <= end.paras) by {
        reveal(kept);
    }
    assert(!next.w.full) by {
        reveal(goes_on);
    }
    if i == 0 {
        let r = lemma_block_reaches(k, s, v[0], p, deep, below);
        lemma_reached_on(k, r.0, p, r.1, below.boxes, next, end);
        r
    } else {
        assert(v.skip(1)[i - 1] == v[i]);
        lemma_blocks_reach(k, next, v.skip(1), p, deep, below, i - 1)
    }
}

proof fn lemma_block_reaches(
    k: EnvView,
    s: CtxView,
    n: Tree,
    p: Tree,
    deep: nat,
    below: Room,
) -> (r: (CtxView, Option<PartView>))
    requires
        ready(s, reach(below) + 1),
        bears(n, p, deep),
        deep <= below.depth,
        !block_walked(k, s, n, below).w.full,
        block_walked(k, s, n, below).paras < MAX_PARAS,
    ensures
        reached(k, r.0, p, r.1, below.boxes, block_walked(k, s, n, below)),
    decreases deep, 4int, 0int,
{
    let end = block_walked(k, s, n, below);
    lemma_names();
    lemma_block(k, s, n, below);
    assert(s.paras <= end.paras) by {
        reveal(kept);
    }
    if n == p && (n.name == "p"@ || n.name == "h"@) {
        lemma_stays(end.w);
        (s, None)
    } else if n.name == "section"@ {
        let style = n.attr("style-name"@);
        let t = if style is Some && k.multi_col.contains(style->0) {
            s.noting(NOTE_COLUMNS@)
        } else {
            s
        };
        lemma_noting(s, NOTE_COLUMNS@);
        lemma_same(s);
        lemma_ready(s, t, reach(below) + 1);
        assert(end == blocks_walked(k, t, n.elems(), below.inner()));
        let i = choose|i: int|
            0 <= i < n.elems().len() && bears(#[trigger] n.elems()[i], p, (deep - 1) as nat);
        lemma_blocks_reach(k, t, n.elems(), p, (deep - 1) as nat, below.inner(), i)
    } else {
        let i = choose|i: int|
            0 <= i < n.elems().len() && ((#[trigger] n.elems()[i]).name == "list-item"@
                || n.elems()[i].name == "list-header"@) && any_bears(
                n.elems()[i].elems(),
                p,
                (deep - 1) as nat,
            );
        let start = start_of(n);
        let inside = CtxView { lists: s.lists.entered(start), ..s };
        law_enter_and_leave_pair(s.lists, start, 0);
        let t = items_walked(k, inside, n.elems(), below);
        assert(end == listed(k, s, n, below));
        assert(end.w == t.w && end.paras == t.paras);
        lemma_items_reach(k, inside, n.elems(), p, (deep - 1) as nat, below, i)
    }
}

proof fn lemma_items_reach(
    k: EnvView,
    s: CtxView,
    v: Seq<Tree>,
    p: Tree,
    deep: nat,
    below: Room,
    i: int,
) -> (r: (CtxView, Option<PartView>))
    requires
        ready(s, reach(below)),
        0 <= i < v.len(),
        v[i].name == "list-item"@ || v[i].name == "list-header"@,
        any_bears(v[i].elems(), p, deep),
        deep < below.depth,
        !items_walked(k, s, v, below).w.full,
        items_walked(k, s, v, below).paras < MAX_PARAS,
    ensures
        reached(k, r.0, p, r.1, below.boxes, items_walked(k, s, v, below)),
    decreases deep, 9int, v.len(),
{
    let next = item_walked(k, s, v[0], below);
    let end = items_walked(k, s, v, below);
    lemma_item(k, s, v[0], below);
    lemma_ready(s, next, reach(below));
    lemma_items(k, next, v.skip(1), below);
    assert(kept(next, end));
    assert(goes_on(next.w, end.w) && next.paras <= end.paras) by {
        reveal(kept);
    }
    assert(!next.w.full) by {
        reveal(goes_on);
    }
    if i == 0 {
        let r = lemma_item_reaches(k, s, v[0], p, deep, below);
        lemma_reached_on(k, r.0, p, r.1, below.boxes, next, end);
        r
    } else {
        assert(v.skip(1)[i - 1] == v[i]);
        lemma_items_reach(k, next, v.skip(1), p, deep, below, i - 1)
    }
}

proof fn lemma_item_reaches(
    k: EnvView,
    s: CtxView,
    item: Tree,
    p: Tree,
    deep: nat,
    below: Room,
) -> (r: (CtxView, Option<PartView>))
    requires
        ready(s, reach(below)),
        item.name == "list-item"@ || item.name == "list-header"@,
        any_bears(item.elems(), p, deep),
        deep < below.depth,
        !item_walked(k, s, item, below).w.full,
        item_walked(k, s, item, below).paras < MAX_PARAS,
    ensures
        reached(k, r.0, p, r.1, below.boxes, item_walked(k, s, item, below)),
    decreases deep, 8int, 0int,
{
    let i = choose|i: int|
        0 <= i < item.elems().len() && bears(#[trigger] item.elems()[i], p, deep);
    if item.name == "list-header"@ {
        let part = header_part(s);
        lemma_parts_reach(k, s, item.elems(), part, indent_of_part(part), p, deep, below, i)
    } else {
        let c = item_counted(k, s, item);
        lemma_counting(k, s, item);
        lemma_ready(s, c.0, reach(below));
        lemma_parts_reach(k, c.0, item.elems(), c.1, indent_of_part(c.1), p, deep, below, i)
    }
}

proof fn lemma_parts_reach(
    k: EnvView,
    s: CtxView,
    v: Seq<Tree>,
    first: Option<PartView>,
    indent: Option<LevelIndent>,
    p: Tree,
    deep: nat,
    below: Room,
    i: int,
) -> (r: (CtxView, Option<PartView>))
    requires
        ready(s, reach(below)),
        0 <= i < v.len(),
        bears(v[i], p, deep),
        deep < below.depth,
        !parts_walked(k, s, v, first, indent, below).w.full,
        parts_walked(k, s, v, first, indent, below).paras < MAX_PARAS,
    ensures
        reached(k, r.0, p, r.1, below.boxes, parts_walked(k, s, v, first, indent, below)),
    decreases deep, 7int, v.len(),
{
    let next = part_walked(k, s, v[0], first, indent, below);
    let end = parts_walked(k, s, v, first, indent, below);
    let rest = if v[0].name == "p"@ || v[0].name == "h"@ {
        None
    } else {
        first
    };
    lemma_part(k, s, v[0], first, indent, below);
    lemma_ready(s, next, reach(below));
    lemma_parts(k, next, v.skip(1), rest, indent, below);
    assert(kept(next, end));
    assert(goes_on(next.w, end.w) && next.paras <= end.paras && s.paras <= next.paras) by {
        reveal(kept);
    }
    assert(!next.w.full) by {
        reveal(goes_on);
    }
    lemma_names();
    if i == 0 {
        if v[0].name == "p"@ || v[0].name == "h"@ {
            let part = para_part(first, indent);
            lemma_stays(next.w);
            lemma_reached_on(k, s, p, part, below.boxes, next, end);
            (s, part)
        } else {
            assert(next == block_walked(k, s, v[0], below.inner()));
            let r = lemma_block_reaches(k, s, v[0], p, deep, below.inner());
            lemma_reached_on(k, r.0, p, r.1, below.boxes, next, end);
            r
        }
    } else {
        assert(v.skip(1)[i - 1] == v[i]);
        lemma_parts_reach(k, next, v.skip(1), rest, indent, p, deep, below, i - 1)
    }
}

proof fn lemma_names()
    ensures
        "section"@ != "p"@ && "section"@ != "h"@ && "section"@ != "list"@ && "section"@
            != "table"@ && "section"@ != "number"@,
        "list"@ != "p"@ && "list"@ != "h"@ && "list"@ != "table"@ && "list"@ != "number"@,
{
    reveal_strlit("section");
    reveal_strlit("p");
    reveal_strlit("h");
    reveal_strlit("list");
    reveal_strlit("table");
    reveal_strlit("number");
    assert("section"@[0] == 's');
    assert("list"@[0] == 'l');
    assert("p"@[0] == 'p' && "h"@[0] == 'h' && "table"@[0] == 't' && "number"@[0] == 'n');
}

// ── laws ─────────────────────────────────────────────────────────────────────

/// What a walk writes of a paragraph inside an element: every text of it can be read in
/// the end, and it is a `p` or a heading of its level, wherever in sections and lists it
/// stands, unless the bytes or the paragraphs run out.
pub proof fn law_what_is_said_can_be_read(
    k: EnvView,
    s: CtxView,
    e: Tree,
    p: Tree,
    room: Room,
    t: Seq<char>,
)
    requires
        ready(s, reach(room)),
        room.depth > 0,
        any_bears(e.elems(), p, (room.depth - 1) as nat),
        !walked(k, s, e, room).w.full,
        walked(k, s, e, room).paras < MAX_PARAS,
    ensures
        ({
            let text = walked(k, s, e, room).w.text;
            let level = p.attr_u32("outline-level"@);
            &&& says(p, t, DEPTHS as nat) && most_runs(p.children, (DEPTHS - 1) as nat) <= MAX_RUNS
                ==> readable(text, t, k.terms)
            &&& p.name == "p"@ ==> holds(text, "<p class=\""@)
            &&& p.name == "h"@ && level is Some && 1 <= level->0 <= 6 ==> holds(
                text,
                "<h"@ + decimal(level->0 as nat) + " class=\""@,
            )
        }),
{
    let i = choose|i: int|
        0 <= i < e.elems().len() && bears(#[trigger] e.elems()[i], p, (room.depth - 1) as nat);
    let end = walked(k, s, e, room);
    let r = lemma_blocks_reach(k, s, e.elems(), p, (room.depth - 1) as nat, room.inner(), i);
    let w = para_walked(k, r.0, p, r.1, room.boxes).w;
    assert(goes_on(w, end.w));
    assert(!w.full) by {
        reveal(goes_on);
    }
    law_a_paragraph_is_written(k, r.0, p, r.1, room.boxes);
    let level = p.attr_u32("outline-level"@);
    reveal_strlit("p");
    reveal_strlit("h");
    assert("p"@[0] != "h"@[0]);
    if p.name == "p"@ {
        lemma_still_holds(w, end.w, "<p class=\""@);
    }
    if p.name == "h"@ && level is Some && 1 <= level->0 <= 6 {
        lemma_still_holds(w, end.w, "<h"@ + decimal(level->0 as nat) + " class=\""@);
    }
    if says(p, t, DEPTHS as nat) && most_runs(p.children, (DEPTHS - 1) as nat) <= MAX_RUNS {
        assert(readable(w.text, t, k.terms));
        let n = choose|n: u64| holds(w.text, (#[trigger] marked(t, k.terms, n)).0);
        lemma_still_holds(w, end.w, marked(t, k.terms, n).0);
    }
}

/// A text document that is not cut short says what its body says: every text of every
/// paragraph in it can be read, and each heading is a heading of its level.
pub proof fn law_a_text_document_says_what_its_body_says(
    i: Input,
    cap: nat,
    body: Tree,
    p: Tree,
    t: Seq<char>,
)
    requires
        text_body(i.root) == Some(body),
        any_bears(body.elems(), p, (DEPTHS - 1) as nat),
        !doc_walked(i, cap).w.full,
        doc_walked(i, cap).paras < MAX_PARAS,
    ensures
        ({
            let text = doc_walked(i, cap).w.text;
            let level = p.attr_u32("outline-level"@);
            &&& says(p, t, DEPTHS as nat) && most_runs(p.children, (DEPTHS - 1) as nat) <= MAX_RUNS
                ==> readable(text, t, i.terms)
            &&& p.name == "p"@ ==> holds(text, "<p class=\""@)
            &&& p.name == "h"@ && level is Some && 1 <= level->0 <= 6 ==> holds(
                text,
                "<h"@ + decimal(level->0 as nat) + " class=\""@,
            )
        }),
{
    let setup = setup_of(i);
    let k = doc_env(i);
    let s = CtxView::fresh(
        Written::fresh(cap).opened("div"@, attr_text("class"@, "of-page"@)),
        lists_of(i.styles, Some(i.root)),
        if setup.has_header || setup.has_footer {
            noted(i.notes, NOTE_HEADER@)
        } else {
            i.notes
        },
    );
    let u = walked(k, s, body, Room::whole());
    let end = doc_walked(i, cap);
    lemma_walked(k, s, body, Room::whole());
    lemma_ready(s, u, reach(Room::whole()));
    assert(!u.in_note) by {
        reveal(kept);
    }
    law_notes_keep_the_bounds(k, u);
    assert(end == tailed(k, u));
    assert(goes_on(u.w, end.w) && u.paras <= end.paras) by {
        reveal(kept);
    }
    assert(!u.w.full) by {
        reveal(goes_on);
    }
    law_what_is_said_can_be_read(k, s, body, p, Room::whole(), t);
    let level = p.attr_u32("outline-level"@);
    if p.name == "p"@ {
        lemma_still_holds(u.w, end.w, "<p class=\""@);
    }
    if p.name == "h"@ && level is Some && 1 <= level->0 <= 6 {
        lemma_still_holds(u.w, end.w, "<h"@ + decimal(level->0 as nat) + " class=\""@);
    }
    if readable(u.w.text, t, k.terms) {
        let n = choose|n: u64| holds(u.w.text, (#[trigger] marked(t, k.terms, n)).0);
        lemma_still_holds(u.w, end.w, marked(t, k.terms, n).0);
    }
}

} // verus!
