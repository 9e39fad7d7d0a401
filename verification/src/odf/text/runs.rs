//! The runs of a paragraph.
//!
//! Text stands in a paragraph between elements, so a text is a run, and an element either
//! is markup around runs or a run by itself.

use vstd::prelude::*;
use crate::chars::{chars_of, decimal, push_all, push_text, push_u64, string_of, trim, trimmed};
use crate::html::{copy_opt, opt_view};
use crate::link::{destination_of, sanitize_href};
use crate::listnum::{roman, roman_text};
use crate::model::{run_views, Break, Run, RunView, Script, TextRun, TextView};
use crate::odf::draw::{emit_frame, framed};
use crate::odf::length::Px;
use crate::odf::list::{cut, cut_to, times};
use crate::odf::style::{
    merge_text, merged_text, text_run_of, to_text_run, Family, TextProps, TextPropsView,
};
use crate::odf::text::{
    mark_of, note_views, push_run, Ctx, CtxView, Env, EnvView, NoteRef, NoteView,
    MAX_CITATION_CHARS, MAX_NOTES_SHOWN, MAX_RUNS, MAX_SPACES, NOTE_NOTES_CAPPED,
};
use crate::xml::{items, lemma_items, Element, Item, Node, Tree};

verus! {

/// The state of a walk inside a paragraph: the runs so far beside the rest.
pub struct Drawn {
    pub s: CtxView,
    pub out: Seq<RunView>,
}

/// A run of text. The page's own font is left unsaid, and a link is underlined.
pub open spec fn linked_run(
    k: EnvView,
    text: Seq<char>,
    t: TextPropsView,
    base_pt: Px,
    link: Option<Seq<char>>,
) -> TextView {
    let r = text_run_of(text, t, base_pt);
    TextRun {
        font: if r.font == k.default_font {
            None
        } else {
            r.font
        },
        underline: r.underline || link is Some,
        link,
        ..r
    }
}

fn text_run<'a>(
    k: &Env<'a>,
    text: String,
    t: &TextProps,
    base_pt: Px,
    link: &Option<String>,
) -> (r: TextRun)
    ensures
        r@ == linked_run(k@, text@, t@, base_pt, opt_view(*link)),
{
    let mut run: TextRun = to_text_run(text, t, base_pt);
    let same: bool = match (&run.font, &k.default_font) {
        (Some(a), Some(b)) => *a.as_str() == *b.as_str(),
        (None, None) => true,
        _ => false,
    };
    if same {
        run.font = None;
    }
    if link.is_some() {
        run.underline = true;
    }
    run.link = copy_opt(link);
    run
}

/// The text properties inside a span or a link.
pub open spec fn span_text(k: EnvView, t: TextPropsView, e: Tree) -> TextPropsView {
    match e.attr("style-name"@) {
        Some(n) => merged_text(t, k.styles.resolved(Family::Text, n).text),
        None => t,
    }
}

fn span_props<'a>(k: &Env<'a>, t: &TextProps, e: &Element) -> (r: TextProps)
    ensures
        r@ == span_text(k@, t@, e@),
{
    let mut props: TextProps = t.copy();
    if let Some(n) = e.attr_local("style-name") {
        merge_text(&mut props, &k.styles.resolve(Family::Text, n).text);
    }
    props
}

/// Elements inside a paragraph that are no text of it: marks around content, the
/// producer's own pagination and numbering, comments, and text that the document hides.
pub open spec fn is_silent(name: Seq<char>) -> bool {
    is_mark(name) || is_change(name) || is_index_mark(name) || is_unseen(name)
}

pub open spec fn is_mark(name: Seq<char>) -> bool {
    name == "bookmark-end"@ || name == "reference-mark"@ || name == "reference-mark-start"@ || name
        == "reference-mark-end"@
}

pub open spec fn is_change(name: Seq<char>) -> bool {
    name == "change"@ || name == "change-start"@ || name == "change-end"@ || name
        == "soft-page-break"@ || name == "number"@
}

pub open spec fn is_index_mark(name: Seq<char>) -> bool {
    name == "alphabetical-index-mark"@ || name == "alphabetical-index-mark-start"@ || name
        == "alphabetical-index-mark-end"@ || name == "toc-mark"@ || name == "toc-mark-start"@
        || name == "toc-mark-end"@ || name == "user-index-mark"@ || name
        == "user-index-mark-start"@ || name == "user-index-mark-end"@
}

pub open spec fn is_unseen(name: Seq<char>) -> bool {
    name == "annotation"@ || name == "annotation-end"@ || name == "hidden-text"@ || name
        == "hidden-paragraph"@
}

fn silent(c: &Element) -> (r: bool)
    ensures
        r == is_silent(c@.name),
{
    c.is("bookmark-end") || c.is("reference-mark") || c.is("reference-mark-start") || c.is(
        "reference-mark-end",
    ) || c.is("change") || c.is("change-start") || c.is("change-end") || c.is("soft-page-break")
        || c.is("number") || c.is("alphabetical-index-mark") || c.is(
        "alphabetical-index-mark-start",
    ) || c.is("alphabetical-index-mark-end") || c.is("toc-mark") || c.is("toc-mark-start") || c.is(
        "toc-mark-end",
    ) || c.is("user-index-mark") || c.is("user-index-mark-start") || c.is("user-index-mark-end")
        || c.is("annotation") || c.is("annotation-end") || c.is("hidden-text") || c.is(
        "hidden-paragraph",
    )
}

// ── notes ────────────────────────────────────────────────────────────────────

/// How many of some notes are of a kind.
pub open spec fn count_kind(v: Seq<NoteView>, endnote: bool) -> nat
    decreases v.len(),
{
    if v.len() == 0 {
        0
    } else {
        count_kind(v.drop_last(), endnote) + if v.last().endnote == endnote {
            1nat
        } else {
            0nat
        }
    }
}

proof fn lemma_count_kind(v: Seq<NoteView>, endnote: bool)
    ensures
        count_kind(v, endnote) <= v.len(),
    decreases v.len(),
{
    if v.len() > 0 {
        lemma_count_kind(v.drop_last(), endnote);
    }
}

fn count_notes(v: &Vec<NoteRef>, endnote: bool) -> (n: usize)
    ensures
        n == count_kind(note_views(v@), endnote),
        n <= v@.len(),
{
    let ghost ns = note_views(v@);
    let mut n: usize = 0;
    assert(ns.take(0) =~= Seq::<NoteView>::empty());
    for i in 0..v.len()
        invariant
            ns == note_views(v@),
            n <= i,
            n == count_kind(ns.take(i as int), endnote),
    {
        assert(ns.take(i + 1).drop_last() =~= ns.take(i as int));
        assert(ns.take(i + 1).last() == v@[i as int]@);
        if v[i].endnote == endnote {
            n = n + 1;
        }
    }
    assert(ns.take(ns.len() as int) =~= ns);
    n
}

pub open spec fn note_prefix(endnote: bool) -> Seq<char> {
    if endnote {
        "of-en-"@
    } else {
        "of-fn-"@
    }
}

impl NoteView {
    /// The id of the note's block.
    pub open spec fn anchor(self) -> Seq<char> {
        note_prefix(self.endnote) + decimal(self.num as nat)
    }

    /// The id of the mark in the text.
    pub open spec fn ref_anchor(self) -> Seq<char> {
        note_prefix(self.endnote) + "ref-"@ + decimal(self.num as nat)
    }
}

impl<'a> NoteRef<'a> {
    fn prefix(&self) -> (r: &'static str)
        ensures
            r@ == note_prefix(self@.endnote),
    {
        if self.endnote {
            "of-en-"
        } else {
            "of-fn-"
        }
    }

    /// The id of the note's block.
    pub fn note_anchor(&self) -> (r: Vec<char>)
        ensures
            r@ == self@.anchor(),
    {
        let mut v: Vec<char> = Vec::new();
        push_text(&mut v, self.prefix());
        push_u64(&mut v, self.num as u64);
        assert(v@ =~= self@.anchor());
        v
    }

    /// The id of the mark in the text.
    pub fn mark_anchor(&self) -> (r: Vec<char>)
        ensures
            r@ == self@.ref_anchor(),
    {
        let mut v: Vec<char> = Vec::new();
        push_text(&mut v, self.prefix());
        push_text(&mut v, "ref-");
        push_u64(&mut v, self.num as u64);
        assert(v@ =~= self@.ref_anchor());
        v
    }
}

/// The citation that a note states.
pub open spec fn citation_of(n: Tree) -> Option<Seq<char>> {
    match n.child("note-citation"@) {
        Some(c) => {
            let t = cut(trimmed(c.inner_text()), MAX_CITATION_CHARS as int);
            if t.len() > 0 {
                Some(t)
            } else {
                None
            }
        },
        None => None,
    }
}

fn citation(n: &Element) -> (r: Option<String>)
    ensures
        opt_view(r) == citation_of(n@),
{
    match n.child("note-citation") {
        Some(c) => {
            let t: Vec<char> = trim(&c.inner_text());
            if t.len() > 0 {
                Some(cut_to(string_of(&t).as_str(), MAX_CITATION_CHARS))
            } else {
                None
            }
        },
        None => None,
    }
}

/// A note as the text refers to it. Footnotes and endnotes are numbered apart.
pub open spec fn note_of(refs: Seq<NoteView>, n: Tree, body: Tree) -> NoteView {
    let endnote = n.attr("note-class"@) == Some("endnote"@);
    let num = (count_kind(refs, endnote) + 1) as usize;
    NoteView {
        endnote,
        label: match citation_of(n) {
            Some(t) => t,
            None => if endnote {
                roman_text(num as nat, false)
            } else {
                decimal(num as nat)
            },
        },
        body,
        num,
    }
}

/// The mark of a note in the text: a superscript that links to the note.
pub open spec fn note_run(
    k: EnvView,
    r: NoteView,
    t: TextPropsView,
    base_pt: Px,
) -> RunView {
    Run::Text(
        TextRun {
            script: Some(Script::Super),
            ..linked_run(k, r.label, t, base_pt, Some(seq!['#'] + r.anchor()))
        },
    )
}

pub open spec fn note_drawn(
    k: EnvView,
    d: Drawn,
    n: Tree,
    t: TextPropsView,
    base_pt: Px,
) -> Drawn {
    let body = n.child("note-body"@);
    if d.s.in_note || body is None {
        d
    } else if d.s.note_refs.len() >= MAX_NOTES_SHOWN {
        Drawn { s: d.s.noting(NOTE_NOTES_CAPPED@), ..d }
    } else {
        let r = note_of(d.s.note_refs, n, body->0);
        Drawn {
            s: CtxView { note_refs: d.s.note_refs.push(r), ..d.s },
            out: d.out.push(Run::Anchor(r.ref_anchor())).push(note_run(k, r, t, base_pt)),
        }
    }
}

fn note<'a>(
    k: &Env<'a>,
    ctx: &mut Ctx<'a>,
    out: &mut Vec<Run>,
    n: &'a Element,
    t: &TextProps,
    base_pt: Px,
)
    ensures
        (Drawn { s: final(ctx)@, out: run_views(final(out)@) }) == note_drawn(
            k@,
            Drawn { s: old(ctx)@, out: run_views(old(out)@) },
            n@,
            t@,
            base_pt,
        ),
{
    if ctx.in_note {
        return;
    }
    let body: &'a Element = match n.child("note-body") {
        Some(b) => b,
        None => {
            return;
        },
    };
    if ctx.note_refs.len() >= MAX_NOTES_SHOWN {
        ctx.note(NOTE_NOTES_CAPPED);
        return;
    }
    let endnote: bool = match n.attr_local("note-class") {
        Some(c) => *c == *"endnote",
        None => false,
    };
    let num: usize = count_notes(&ctx.note_refs, endnote) + 1;
    let label: String = match citation(n) {
        Some(t) => t,
        None => if endnote {
            string_of(&roman(num as u32, false))
        } else {
            let mut v: Vec<char> = Vec::new();
            push_u64(&mut v, num as u64);
            assert(v@ =~= decimal(num as nat));
            string_of(&v)
        },
    };
    let shown: String = String::from_str(label.as_str());
    let r = NoteRef { endnote, label, body, num };
    let ghost view = note_of(ctx@.note_refs, n@, body@);
    assert(r@ == view);
    let anchor: Vec<char> = r.mark_anchor();
    let mut target: Vec<char> = Vec::new();
    target.push('#');
    let id: Vec<char> = r.note_anchor();
    push_all(&mut target, &id);
    assert(target@ =~= seq!['#'] + view.anchor());
    let ghost before = ctx.note_refs@;
    ctx.note_refs.push(r);
    assert(note_views(ctx.note_refs@) =~= note_views(before).push(view));
    push_run(out, Run::Anchor(string_of(&anchor)));
    let mut run: TextRun = text_run(k, shown, t, base_pt, &Some(string_of(&target)));
    run.script = Some(Script::Super);
    push_run(out, Run::Text(run));
}

// ── the walk ─────────────────────────────────────────────────────────────────

/// How many spaces an element stands for.
pub open spec fn spaces_of(c: Tree) -> u32 {
    match c.attr_u32("c"@) {
        Some(n) => if n > MAX_SPACES {
            MAX_SPACES
        } else {
            n
        },
        None => 1,
    }
}

fn spaces(c: &Element) -> (r: String)
    ensures
        r@ == times(seq![' '], spaces_of(c@) as nat),
{
    let n: u32 = match c.attr_u32("c") {
        Some(n) => if n > MAX_SPACES {
            MAX_SPACES
        } else {
            n
        },
        None => 1,
    };
    let mut v: Vec<char> = Vec::new();
    for i in 0..n
        invariant
            v@ == times(seq![' '], i as nat),
    {
        let ghost before = v@;
        v.push(' ');
        assert(v@ =~= before + seq![' ']);
    }
    string_of(&v)
}

/// After the content of an element inside a paragraph. `deep` bounds how deep elements
/// may be nested.
pub open spec fn runs_drawn(
    k: EnvView,
    d: Drawn,
    e: Tree,
    t: TextPropsView,
    base_pt: Px,
    deep: usize,
    link: Option<Seq<char>>,
    boxes: usize,
) -> Drawn
    decreases boxes, 0int, 0int, 1int, deep, 0int,
{
    if deep == 0 {
        d
    } else {
        runs_each(k, d, e.children, t, base_pt, (deep - 1) as usize, link, boxes)
    }
}

pub open spec fn runs_each(
    k: EnvView,
    d: Drawn,
    v: Seq<Item>,
    t: TextPropsView,
    base_pt: Px,
    below: usize,
    link: Option<Seq<char>>,
    boxes: usize,
) -> Drawn
    decreases boxes, 0int, 0int, 1int, below, v.len() + 2,
{
    if v.len() == 0 || d.out.len() >= MAX_RUNS {
        d
    } else {
        runs_each(
            k,
            run_drawn(k, d, v[0], t, base_pt, below, link, boxes),
            v.skip(1),
            t,
            base_pt,
            below,
            link,
            boxes,
        )
    }
}

pub open spec fn run_drawn(
    k: EnvView,
    d: Drawn,
    v: Item,
    t: TextPropsView,
    base_pt: Px,
    below: usize,
    link: Option<Seq<char>>,
    boxes: usize,
) -> Drawn
    decreases boxes, 0int, 0int, 1int, below, 1int,
{
    match v {
        Item::Text(s) => if s.len() == 0 {
            d
        } else {
            Drawn { out: d.out.push(Run::Text(linked_run(k, s, t, base_pt, link))), ..d }
        },
        Item::Element(c) => if c.name == "span"@ {
            runs_drawn(k, d, c, span_text(k, t, c), base_pt, below, link, boxes)
        } else if c.name == "a"@ {
            runs_drawn(
                k,
                d,
                c,
                span_text(k, t, c),
                base_pt,
                below,
                match c.attr("href"@) {
                    Some(href) => destination_of(href),
                    None => None,
                },
                boxes,
            )
        } else if c.name == "s"@ {
            Drawn {
                out: d.out.push(
                    Run::Text(
                        linked_run(k, times(seq![' '], spaces_of(c) as nat), t, base_pt, link),
                    ),
                ),
                ..d
            }
        } else if c.name == "tab"@ {
            Drawn { out: d.out.push(Run::Tab), ..d }
        } else if c.name == "line-break"@ {
            Drawn { out: d.out.push(Run::Break(Break::Line)), ..d }
        } else if c.name == "note"@ {
            note_drawn(k, d, c, t, base_pt)
        } else if c.name == "frame"@ {
            framed(k, d, c, boxes)
        } else if c.name == "bookmark-start"@ || c.name == "bookmark"@ {
            Drawn {
                s: d.s.marking(c),
                out: match mark_of(d.s, c) {
                    Some(id) => d.out.push(Run::Anchor(id)),
                    None => d.out,
                },
            }
        } else if is_silent(c.name) {
            d
        } else {
            runs_drawn(k, d, c, t, base_pt, below, link, boxes)
        },
    }
}

/// Adds the runs of an element inside a paragraph. A link inside a link replaces it, even
/// by none.
pub fn collect_runs<'a>(
    k: &Env<'a>,
    ctx: &mut Ctx<'a>,
    out: &mut Vec<Run>,
    e: &'a Element,
    t: &TextProps,
    base_pt: Px,
    deep: usize,
    link: &Option<String>,
    boxes: usize,
)
    ensures
        (Drawn { s: final(ctx)@, out: run_views(final(out)@) }) == runs_drawn(
            k@,
            Drawn { s: old(ctx)@, out: run_views(old(out)@) },
            e@,
            t@,
            base_pt,
            deep,
            opt_view(*link),
            boxes,
        ),
    decreases boxes, 0int, 0int, 1int, deep, 0int,
{
    if deep == 0 {
        return;
    }
    let below: usize = deep - 1;
    let ghost goal = runs_drawn(
        k@,
        Drawn { s: ctx@, out: run_views(out@) },
        e@,
        t@,
        base_pt,
        deep,
        opt_view(*link),
        boxes,
    );
    let ghost all = items(e.children@);
    proof {
        lemma_items(e.children@);
    }
    assert(all.skip(0) =~= all);
    let mut i: usize = 0;
    while i < e.children.len() && out.len() < MAX_RUNS
        invariant
            i <= e.children@.len(),
            below + 1 == deep,
            all == items(e.children@),
            all.len() == e.children@.len(),
            forall|n: int| 0 <= n < all.len() ==> #[trigger] all[n] == e.children@[n]@,
            runs_each(
                k@,
                Drawn { s: ctx@, out: run_views(out@) },
                all.skip(i as int),
                t@,
                base_pt,
                below,
                opt_view(*link),
                boxes,
            ) == goal,
        decreases e.children@.len() - i,
    {
        assert(all.skip(i as int)[0] == e.children@[i as int]@);
        assert(all.skip(i as int).skip(1) =~= all.skip(i + 1));
        collect_run(k, ctx, out, &e.children[i], t, base_pt, below, link, boxes);
        i = i + 1;
    }
}

fn collect_run<'a>(
    k: &Env<'a>,
    ctx: &mut Ctx<'a>,
    out: &mut Vec<Run>,
    v: &'a Node,
    t: &TextProps,
    base_pt: Px,
    below: usize,
    link: &Option<String>,
    boxes: usize,
)
    ensures
        (Drawn { s: final(ctx)@, out: run_views(final(out)@) }) == run_drawn(
            k@,
            Drawn { s: old(ctx)@, out: run_views(old(out)@) },
            v@,
            t@,
            base_pt,
            below,
            opt_view(*link),
            boxes,
        ),
    decreases boxes, 0int, 0int, 1int, below, 1int,
{
    match v {
        Node::Text(s) => {
            let text: Vec<char> = chars_of(s.as_str());
            if text.len() > 0 {
                let r: TextRun = text_run(k, string_of(&text), t, base_pt, link);
                push_run(out, Run::Text(r));
            }
        },
        Node::Element(c) => {
            if c.is("span") {
                let props: TextProps = span_props(k, t, c);
                collect_runs(k, ctx, out, c, &props, base_pt, below, link, boxes);
            } else if c.is("a") {
                let props: TextProps = span_props(k, t, c);
                let href: Option<String> = match c.attr_local("href") {
                    Some(h) => sanitize_href(h),
                    None => None,
                };
                collect_runs(k, ctx, out, c, &props, base_pt, below, &href, boxes);
            } else if c.is("s") {
                let r: TextRun = text_run(k, spaces(c), t, base_pt, link);
                push_run(out, Run::Text(r));
            } else if c.is("tab") {
                push_run(out, Run::Tab);
            } else if c.is("line-break") {
                push_run(out, Run::Break(Break::Line));
            } else if c.is("note") {
                note(k, ctx, out, c, t, base_pt);
            } else if c.is("frame") {
                emit_frame(k, ctx, out, c, boxes);
            } else if c.is("bookmark-start") || c.is("bookmark") {
                if let Some(id) = ctx.bookmark(c) {
                    push_run(out, Run::Anchor(id));
                }
            } else if !silent(c) {
                collect_runs(k, ctx, out, c, t, base_pt, below, link, boxes);
            }
        },
    }
}

} // verus!
