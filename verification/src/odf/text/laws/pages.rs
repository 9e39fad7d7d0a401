//! What a text document comes to around its text.

use vstd::prelude::*;
use crate::highlight::mark_id;
use crate::link::destination_of;
use crate::chars::trimmed;
use crate::odf::style::store::{chain_master, chain_of, Store};
use crate::odf::style::Family;
use crate::odf::text::blocks::{first_para, hoisted, item_style};
use crate::odf::text::{
    doc_from, doc_walked, mark_of, master_among, setup_of, text_body, CtxView, EnvView, Input,
    MAX_BOOKMARKS, MAX_BOXES, NOTE_BODY, NOTE_HEADER,
};
use crate::xml::Tree;

verus! {

/// The master page that a document starts on is that of the first paragraph whose style
/// names one, of those that are looked at.
pub proof fn law_the_first_paragraph_with_a_master_counts(
    store: Store,
    v: Seq<Tree>,
    n: nat,
    name: Seq<char>,
)
    requires
        v.len() > 0,
        n > 0,
        v[0].attr("style-name"@) == Some(name),
    ensures
        ({
            let own = chain_master(chain_of(store.styles, Family::Paragraph, name));
            let para = v[0].name == "p"@ || v[0].name == "h"@;
            &&& para && own is Some ==> master_among(store, v, n) == own
            &&& para && own is None ==> master_among(store, v, n) == master_among(
                store,
                v.skip(1),
                (n - 1) as nat,
            )
            &&& !para ==> master_among(store, v, n) == master_among(store, v.skip(1), n)
        }),
        master_among(store, Seq::empty(), n) is None,
{
}

/// What a preview says of itself: it is cut short where the bytes ran out, it shows the
/// first mark where there is one, and it notes what the walk and the pictures noted.
pub proof fn law_what_a_preview_says_of_itself(s: CtxView, base: Seq<char>, own: Seq<char>)
    ensures
        ({
            let d = doc_from(
                s,
                base,
                own,
                crate::document::Shape::Doc,
                None,
                None,
                Seq::empty(),
            );
            &&& d.truncated <==> s.w.full
            &&& s.marks > 0 ==> d.best_mark_id == Some(mark_id(0))
            &&& s.marks == 0 ==> d.best_mark_id is None
            &&& d.wanted == s.wanted
            &&& d.notes == s.notes
            &&& d.html == "<style>"@ + base + own + "</style>"@ + s.w.closed().finished()
        }),
{
}

/// A document without a body notes that it has none.
pub proof fn law_a_missing_body_is_noted(i: Input, cap: nat)
    ensures
        text_body(i.root) is None ==> doc_walked(i, cap).notes.contains(NOTE_BODY@),
{
    if text_body(i.root) is None {
        let setup = setup_of(i);
        let n = if setup.has_header || setup.has_footer {
            crate::notes::noted(i.notes, NOTE_HEADER@)
        } else {
            i.notes
        };
        crate::notes::law_notes_are_held_once(n, NOTE_BODY@);
    }
}

/// A link to a bookmark leads to the place that the bookmark makes: what stands behind the
/// number sign is the id of the bookmark of that name.
pub proof fn law_links_lead_to_bookmarks(s: CtxView, n: Tree, href: Seq<char>, name: Seq<char>)
    requires
        trimmed(href).len() > 0,
        trimmed(href).len() <= 2048,
        trimmed(href)[0] == '#',
        trimmed(href).skip(1) == name,
        n.attr("name"@) == Some(name),
        s.bookmarks < MAX_BOOKMARKS,
        trimmed(name).len() > 0,
    ensures
        mark_of(s, n) is Some,
        destination_of(href) == Some(seq!['#'] + mark_of(s, n)->0),
{
}

/// The blocks of a text frame are written apart, and wait behind those that wait already;
/// what has been written stays as it is.
pub proof fn law_text_frames_wait(k: EnvView, s: CtxView, content: Tree, boxes: usize)
    requires
        boxes > 0,
        s.boxes < MAX_BOXES,
    ensures
        hoisted(k, s, content, boxes).w == s.w,
        hoisted(k, s, content, boxes).pending.len() > s.pending.len(),
        forall|j: int|
            0 <= j < s.pending.len() ==> #[trigger] hoisted(k, s, content, boxes).pending[j]
                == s.pending[j],
{
}

/// A label is measured by the first paragraph of its item.
pub proof fn law_labels_are_measured_by_the_first_paragraph(item: Tree, k: int)
    requires
        0 <= k < item.elems().len(),
        item.elems()[k].name == "p"@ || item.elems()[k].name == "h"@,
        forall|j: int|
            0 <= j < k ==> (#[trigger] item.elems()[j]).name != "p"@ && item.elems()[j].name
                != "h"@,
        item.elems()[k].attr("style-name"@) is Some,
    ensures
        item_style(item) == item.elems()[k].attr("style-name"@)->0,
{
    lemma_first_para(item.elems(), k);
}

proof fn lemma_first_para(v: Seq<Tree>, k: int)
    requires
        0 <= k < v.len(),
        v[k].name == "p"@ || v[k].name == "h"@,
        forall|j: int| 0 <= j < k ==> (#[trigger] v[j]).name != "p"@ && v[j].name != "h"@,
    ensures
        first_para(v) == Some(v[k]),
    decreases k,
{
    if k > 0 {
        assert(v[0].name != "p"@ && v[0].name != "h"@);
        assert forall|j: int| 0 <= j < k - 1 implies (#[trigger] v.skip(1)[j]).name != "p"@
            && v.skip(1)[j].name != "h"@ by {
            assert(v.skip(1)[j] == v[j + 1]);
        }
        assert(v.skip(1)[k - 1] == v[k]);
        lemma_first_para(v.skip(1), k - 1);
    }
}

} // verus!
