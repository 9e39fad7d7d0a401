//! What the blocks of a document come to, beside their text.

use vstd::prelude::*;
use crate::html::{attr_text, goes_on, group_goes_on};
use crate::markup::open_text;
use crate::model::words::{holds, lemma_opened_holds, lemma_still_holds};
use crate::odf::length::Px;
use crate::odf::list::{FollowedBy, LevelIndent, MarkView};
use crate::odf::style::{BreakKind, ParaPropsView};
use crate::odf::text::blocks::{
    block_walked, header_part, indent_of_part, indented, item_counted, para_part, para_walked,
    part_label, parts_walked, walked, ListPart, PartView,
};
use crate::odf::text::laws::{kept, lemma_kept_on, lemma_walked, reach, ready};
use crate::odf::text::tail::note_tailed;
use crate::odf::text::{column_of, has_columns, tab_of, CtxView, EnvView, NoteView, Room};
use crate::xml::Tree;

verus! {

/// What a paragraph has of its place in a list: the label of its item, with a blank behind
/// it where the level asks for one, and the item's indentation in the place of its own.
pub proof fn law_what_a_list_gives_a_paragraph(
    m: MarkView,
    i: LevelIndent,
    pp: ParaPropsView,
)
    ensures
        m.label is Some && m.indent.followed_by == FollowedBy::Space ==> part_label(
            Some(ListPart::Marker(m)),
        ) is Some && part_label(Some(ListPart::Marker(m)))->0.label == m.label->0.label + seq![
            '\u{00a0}',
        ],
        m.label is Some && m.indent.followed_by != FollowedBy::Space ==> part_label(
            Some(ListPart::Marker(m)),
        ) == m.label,
        m.label is None ==> part_label(Some(ListPart::Marker(m))) is None,
        part_label(Some(ListPart::Indent(i))) is None,
        part_label(None) is None,
        indent_of_part(Some(ListPart::Marker(m))) == Some(m.indent),
        indent_of_part(Some(ListPart::Indent(i))) == Some(i),
        i.indent_px != 0 || i.first_line_px != 0 ==> indented(pp, Some(i)).indent_px == Some(
            i.indent_px,
        ) && indented(pp, Some(i)).first_line_px == Some(i.first_line_px),
        i.indent_px == 0 && i.first_line_px == 0 ==> indented(pp, Some(i)) == pp,
        indented(pp, None) == pp,
        indented(pp, Some(i)).align == pp.align && indented(pp, Some(i)).space_before_px
            == pp.space_before_px,
{
    if m.label is Some && m.indent.followed_by == FollowedBy::Space {
        assert(part_label(Some(ListPart::Marker(m)))->0.label =~= m.label->0.label + seq![
            '\u{00a0}',
        ]);
    }
}

/// The first paragraph of an item has the item's label, and those behind it have its
/// indentation alone.
pub proof fn law_only_the_first_paragraph_is_labelled(
    k: EnvView,
    s: CtxView,
    p: Tree,
    q: Tree,
    first: Option<PartView>,
    indent: Option<LevelIndent>,
    below: Room,
)
    requires
        p.name == "p"@ || p.name == "h"@,
        q.name == "p"@ || q.name == "h"@,
        !s.w.full,
        !para_walked(k, s, p, para_part(first, indent), below.boxes).w.full,
    ensures
        ({
            let a = para_walked(k, s, p, para_part(first, indent), below.boxes);
            parts_walked(k, s, seq![p, q], first, indent, below) == para_walked(
                k,
                a,
                q,
                (if indent is Some {
                    Some(ListPart::Indent(indent->0))
                } else {
                    None
                }),
                below.boxes,
            )
        }),
        first is Some ==> para_part(first, indent) == first,
{
    let v = seq![p, q];
    reveal_with_fuel(parts_walked, 3);
    assert(v.skip(1)[0] == q);
    assert(v.skip(1).skip(1) =~= Seq::<Tree>::empty());
}

/// An item is counted where it has more in it than a list, and has then the label of its
/// level; one that only holds a list is not, and has none. An item that states a number has
/// it.
pub proof fn law_which_items_are_counted(k: EnvView, s: CtxView, item: Tree, i: int)
    ensures
        ({
            let c = item_counted(k, s, item);
            let from = match item.attr_u32("start-value"@) {
                Some(v) => s.lists.restarted(v),
                None => s.lists,
            };
            &&& 0 <= i < item.elems().len() && item.elems()[i].name != "list"@
                && item.elems()[i].name != "number"@ ==> c.0.lists == from.counted()
            &&& (forall|j: int|
                0 <= j < item.elems().len() ==> (#[trigger] item.elems()[j]).name == "list"@
                    || item.elems()[j].name == "number"@) ==> c.0.lists == from && c.1 is None
        }),
{
}

/// A header of a list is indented like its items, and has no label.
pub proof fn law_headers_of_lists(s: CtxView)
    ensures
        part_label(header_part(s)) is None,
        s.lists.level() is Some ==> header_part(s) == Some(
            ListPart::<MarkView>::Indent(s.lists.level()->0.indent),
        ),
        s.lists.level() is None ==> header_part(s) is None,
{
}

/// What shows nothing: declarations, tracked changes and what is no block of text; and an
/// index shows its body.
pub proof fn law_what_shows_nothing(k: EnvView, s: CtxView, n: Tree, below: Room)
    ensures
        n.name == "sequence-decls"@ || n.name == "tracked-changes"@ || n.name
            == "variable-decls"@ ==> block_walked(k, s, n, below) == s,
        n.name == "table-of-content"@ && n.child("index-body"@) is Some ==> block_walked(
            k,
            s,
            n,
            below,
        ) == walked(k, s, n.child("index-body"@)->0, below),
        n.name == "alphabetical-index"@ && n.child("index-body"@) is Some ==> block_walked(
            k,
            s,
            n,
            below,
        ) == walked(k, s, n.child("index-body"@)->0, below),
        n.name == "bibliography"@ && n.child("index-body"@) is Some ==> block_walked(
            k,
            s,
            n,
            below,
        ) == walked(k, s, n.child("index-body"@)->0, below),
{
    reveal_strlit("sequence-decls");
    reveal_strlit("tracked-changes");
    reveal_strlit("variable-decls");
    reveal_strlit("table-of-content");
    reveal_strlit("illustration-index");
    reveal_strlit("table-index");
    reveal_strlit("object-index");
    reveal_strlit("user-index");
    reveal_strlit("alphabetical-index");
    reveal_strlit("bibliography");
    reveal_strlit("p");
    reveal_strlit("h");
    reveal_strlit("list");
    reveal_strlit("table");
    reveal_strlit("section");
    reveal_strlit("frame");
    reveal_strlit("bookmark-start");
    reveal_strlit("bookmark");
    assert("sequence-decls"@.len() == 14 && "tracked-changes"@.len() == 15
        && "variable-decls"@.len()
        == 14 && "table-of-content"@.len() == 16 && "illustration-index"@.len() == 18
        && "table-index"@.len() == 11 && "object-index"@.len() == 12 && "user-index"@.len() == 10
        && "alphabetical-index"@.len() == 18 && "bibliography"@.len() == 12 && "p"@.len() == 1
        && "h"@.len() == 1 && "list"@.len() == 4 && "table"@.len() == 5 && "section"@.len() == 7
        && "frame"@.len() == 5 && "bookmark-start"@.len() == 14 && "bookmark"@.len() == 8);
    assert("sequence-decls"@[0] == 's' && "variable-decls"@[0] == 'v'
        && "bookmark-start"@[0] == 'b');
}

/// A page that the author breaks is broken, before the paragraph and behind it, and a
/// column alike; nothing else breaks one.
pub proof fn law_breaks_are_written(k: EnvView, s: CtxView, b: Option<BreakKind>)
    ensures
        b == Some(BreakKind::Page) || b == Some(BreakKind::Column) ==> s.broken(k, b).w == s.w.void(
            "br"@,
            attr_text("class"@, k.classes.html.break_class@),
        ),
        b is None || b == Some(BreakKind::Auto) ==> s.broken(k, b) == s,
{
}

/// A note is written in a block that has its place as its id, behind its mark, which leads
/// back to the place in the text.
pub proof fn law_notes_are_written(k: EnvView, s: CtxView, r: NoteView)
    requires
        ready(s, reach(Room::whole())),
        !s.in_note,
        !note_tailed(k, s, r).w.full,
    ensures
        ({
            let text = note_tailed(k, s, r).w.text;
            &&& holds(
                text,
                open_text("div"@, attr_text("class"@, "of-fn"@) + attr_text("id"@, r.anchor())),
            )
            &&& holds(
                text,
                open_text(
                    "a"@,
                    attr_text("class"@, "of-fnb"@) + attr_text(
                        "href"@,
                        seq!['#'] + r.ref_anchor(),
                    ),
                ),
            )
            &&& holds(text, crate::html::escaped(r.label, false))
        }),
{
    broadcast use {lemma_kept_on, group_goes_on};

    let block = attr_text("class"@, "of-fn"@) + attr_text("id"@, r.anchor());
    let back = attr_text("class"@, "of-fnb"@) + attr_text("href"@, seq!['#'] + r.ref_anchor());
    let label = crate::html::escaped(r.label, false);
    let a = s.w.opened("div"@, block);
    let b = a.opened("a"@, back);
    let c = b.raw(label);
    let w = c.closed();
    let inside = CtxView { w, in_note: true, ..s };
    let u = walked(k, inside, r.body, Room::whole());
    lemma_walked(k, inside, r.body, Room::whole());
    let end = note_tailed(k, s, r);
    assert(end.w == u.w.closed());
    assert(goes_on(w, u.w)) by {
        reveal(kept);
    }
    assert(goes_on(c, end.w));
    assert(goes_on(b, end.w));
    assert(goes_on(a, end.w));
    assert(!a.full && !b.full && !c.full) by {
        reveal(goes_on);
    }
    lemma_opened_holds(s.w, "div"@, block);
    lemma_opened_holds(a, "a"@, back);
    crate::model::words::lemma_raw_holds(b, label);
    lemma_still_holds(a, end.w, open_text("div"@, block));
    lemma_still_holds(b, end.w, open_text("a"@, back));
    lemma_still_holds(c, end.w, label);
}

/// The column of a page is what its margins leave, and the distance between tab stops what
/// the document states, within bounds.
pub proof fn law_columns_and_tabs(p: crate::docshape::Page, v: Option<Px>)
    ensures
        crate::docshape::MIN_COLUMN_PX <= p.width - p.left - p.right <= i64::MAX ==> column_of(p)
            == p.width - p.left - p.right,
        v is Some && 0 < v->0 <= crate::odf::text::MAX_TAB_PX ==> tab_of(v) == v->0,
        v is None ==> tab_of(v) == crate::odf::text::DEFAULT_TAB_PX,
{
}

/// A section has columns where its style states more than one.
pub proof fn law_sections_with_columns(s: Tree, p: Tree, c: Tree)
    requires
        s.child("section-properties"@) == Some(p),
        p.child("columns"@) == Some(c),
    ensures
        has_columns(s) <==> c.attr_u32("column-count"@) is Some && c.attr_u32("column-count"@)->0
            > 1,
{
}

} // verus!
