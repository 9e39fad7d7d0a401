//! The foot- and endnotes, at the end of the column.

use vstd::prelude::*;
use crate::chars::{chars_of, push_all};
use crate::html::{attr_text, no_attrs, push_attr};
use crate::markup::{is_name, is_void, lemma_attr_names, lemma_tags, plain};
use crate::odf::text::{
    note_views, Ctx, CtxView, Env, EnvView, NoteRef, NoteView, Room, NOTE_NOTES_CAPPED,
};
use crate::odf::text::blocks::{walk, walked};

verus! {

/// The bytes that the notes may take.
pub const MAX_NOTE_TAIL_BYTES: usize = 131_072;

/// After one note: its label, which links back to the mark in the text, and its blocks.
pub open spec fn note_tailed(k: EnvView, s: CtxView, r: NoteView) -> CtxView {
    let w = s.w.opened(
        "div"@,
        attr_text("class"@, "of-fn"@) + attr_text("id"@, r.anchor()),
    ).opened(
        "a"@,
        attr_text("class"@, "of-fnb"@) + attr_text("href"@, seq!['#'] + r.ref_anchor()),
    ).text(r.label).closed();
    let t = walked(k, CtxView { w, in_note: true, ..s }, r.body, Room::whole());
    CtxView { w: t.w.closed(), in_note: false, ..t }
}

/// After some notes, as long as they do not take more than their share of the bytes.
pub open spec fn notes_tailed(k: EnvView, s: CtxView, v: Seq<NoteView>, start: nat) -> CtxView
    decreases v.len(),
{
    if v.len() == 0 || s.w.full {
        s
    } else if s.w.used > start + MAX_NOTE_TAIL_BYTES {
        s.noting(NOTE_NOTES_CAPPED@)
    } else {
        notes_tailed(k, note_tailed(k, s, v[0]), v.skip(1), start)
    }
}

/// After the notes that the text refers to.
pub open spec fn tailed(k: EnvView, s: CtxView) -> CtxView {
    if s.note_refs.len() == 0 {
        s
    } else {
        let t = notes_tailed(
            k,
            CtxView {
                w: s.w.opened("div"@, attr_text("class"@, "of-fnotes"@)),
                note_refs: Seq::empty(),
                ..s
            },
            s.note_refs,
            s.w.used,
        );
        CtxView { w: t.w.closed(), ..t }
    }
}

fn emit_note<'a>(k: &Env<'a>, ctx: &mut Ctx<'a>, r: &NoteRef<'a>)
    ensures
        final(ctx)@ == note_tailed(k@, old(ctx)@, r@),
{
    let mut a: Vec<char> = no_attrs();
    assert(plain("class"@)) by {
        lemma_attr_names();
    }
    push_attr(&mut a, "class", &chars_of("of-fn"));
    assert(plain("id"@)) by {
        lemma_attr_names();
    }
    push_attr(&mut a, "id", &r.note_anchor());
    assert(a@ =~= attr_text("class"@, "of-fn"@) + attr_text("id"@, r@.anchor()));
    assert(is_name("div"@) && !is_void("div"@)) by {
        lemma_tags();
    }
    ctx.w.open("div", &a);
    let mut href: Vec<char> = Vec::new();
    href.push('#');
    push_all(&mut href, &r.mark_anchor());
    assert(href@ =~= seq!['#'] + r@.ref_anchor());
    let mut b: Vec<char> = no_attrs();
    assert(plain("class"@)) by {
        lemma_attr_names();
    }
    push_attr(&mut b, "class", &chars_of("of-fnb"));
    assert(plain("href"@)) by {
        lemma_attr_names();
    }
    push_attr(&mut b, "href", &href);
    assert(b@ =~= attr_text("class"@, "of-fnb"@) + attr_text("href"@, href@));
    assert(is_name("a"@) && !is_void("a"@)) by {
        lemma_tags();
    }
    ctx.w.open("a", &b);
    ctx.w.text(r.label.as_str());
    ctx.w.close();
    ctx.in_note = true;
    walk(k, ctx, r.body, Room::full());
    ctx.in_note = false;
    ctx.w.close();
}

fn emit_notes<'a>(k: &Env<'a>, ctx: &mut Ctx<'a>, v: &Vec<NoteRef<'a>>, start: usize)
    ensures
        final(ctx)@ == notes_tailed(k@, old(ctx)@, note_views(v@), start as nat),
{
    let ghost ns = note_views(v@);
    let ghost goal = notes_tailed(k@, ctx@, ns, start as nat);
    assert(ns.skip(0) =~= ns);
    let mut i: usize = 0;
    while i < v.len() && !ctx.w.is_full()
        invariant
            i <= v@.len(),
            ns == note_views(v@),
            goal == notes_tailed(k@, old(ctx)@, ns, start as nat),
            notes_tailed(k@, ctx@, ns.skip(i as int), start as nat) == goal,
        decreases v@.len() - i,
    {
        assert(ns.skip(i as int)[0] == v@[i as int]@);
        assert(ns.skip(i as int).skip(1) =~= ns.skip(i + 1));
        let used: usize = ctx.w.len();
        if used > start && used - start > MAX_NOTE_TAIL_BYTES {
            ctx.note(NOTE_NOTES_CAPPED);
            return;
        }
        emit_note(k, ctx, &v[i]);
        i = i + 1;
    }
}

/// Writes the notes that the text refers to.
pub fn emit_note_tail<'a>(k: &Env<'a>, ctx: &mut Ctx<'a>)
    ensures
        final(ctx)@ == tailed(k@, old(ctx)@),
{
    let mut used: Vec<NoteRef<'a>> = Vec::new();
    assert(note_views(ctx.note_refs@).len() == ctx.note_refs@.len());
    if ctx.note_refs.len() == 0 {
        return;
    }
    std::mem::swap(&mut used, &mut ctx.note_refs);
    assert(note_views(ctx.note_refs@) =~= Seq::<NoteView>::empty());
    let start: usize = ctx.w.len();
    let mut a: Vec<char> = no_attrs();
    assert(plain("class"@)) by {
        lemma_attr_names();
    }
    push_attr(&mut a, "class", &chars_of("of-fnotes"));
    assert(a@ =~= attr_text("class"@, "of-fnotes"@));
    assert(is_name("div"@) && !is_void("div"@)) by {
        lemma_tags();
    }
    ctx.w.open("div", &a);
    emit_notes(k, ctx, &used, start);
    ctx.w.close();
}

} // verus!
