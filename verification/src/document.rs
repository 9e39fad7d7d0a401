//! What a preview of a document consists of.

use vstd::prelude::*;
use crate::chars::{push_all, push_text, string_of};
use crate::html::opt_view;
use crate::markup::{
    balanced, close_text, is_name, law_balanced_joined, law_element_is_balanced, lemma_no_attrs,
    lemma_plain_is_balanced, lemma_plain_joined, open_text, plain,
};
use crate::media::{wanted_views, Wanted};
use crate::notes::note_texts;
use crate::odf::length::Px;
use crate::values::{asked_views, Asked, AskedView};

verus! {

/// How a document is laid out.
#[derive(Clone, Copy, PartialEq, Eq, Debug, Structural)]
pub enum Shape {
    /// A column of text.
    Doc,
    /// A grid.
    Sheet,
    /// A canvas of a fixed size.
    Slide,
}

/// The preview of a document, or of one of its sections.
#[derive(Debug)]
pub struct OfficeDoc {
    pub html: String,
    pub shape: Shape,
    /// The names of the sections that one can switch between.
    pub sections: Vec<String>,
    /// The section that is shown.
    pub section: u32,
    /// The size of a canvas.
    pub natural: Option<(Px, Px)>,
    /// The width of a page, and its left and top margins.
    pub page: Option<(Px, Px, Px)>,
    /// The id of the mark to show first.
    pub best_mark_id: Option<String>,
    /// The document was cut short.
    pub truncated: bool,
    /// What the preview could not show.
    pub notes: Vec<String>,
    /// The pictures that it shows boxes for because they were not handed in.
    pub wanted: Vec<Wanted>,
    /// The values that it leaves out because they were not handed in.
    pub asked: Vec<Asked>,
}

/// A preview as contracts see it.
#[verifier::ext_equal]
pub struct DocView {
    pub html: Seq<char>,
    pub shape: Shape,
    pub sections: Seq<Seq<char>>,
    pub section: u32,
    pub natural: Option<(Px, Px)>,
    pub page: Option<(Px, Px, Px)>,
    pub best_mark_id: Option<Seq<char>>,
    pub truncated: bool,
    pub notes: Seq<Seq<char>>,
    pub wanted: Seq<(Seq<char>, u32)>,
    pub asked: Seq<AskedView>,
}

impl View for OfficeDoc {
    type V = DocView;

    open spec fn view(&self) -> DocView {
        DocView {
            html: self.html@,
            shape: self.shape,
            sections: note_texts(self.sections@),
            section: self.section,
            natural: self.natural,
            page: self.page,
            best_mark_id: opt_view(self.best_mark_id),
            truncated: self.truncated,
            notes: note_texts(self.notes@),
            wanted: wanted_views(self.wanted@),
            asked: asked_views(self.asked@),
        }
    }
}

/// A body behind its stylesheet.
pub open spec fn styled(base: Seq<char>, own: Seq<char>, body: Seq<char>) -> Seq<char> {
    "<style>"@ + base + own + "</style>"@ + body
}

/// Puts a stylesheet in front of a body.
pub fn wrap_style(base: &str, own: &Vec<char>, body: &str) -> (r: String)
    ensures
        r@ == styled(base@, own@, body@),
{
    let mut v: Vec<char> = Vec::new();
    push_text(&mut v, "<style>");
    push_text(&mut v, base);
    push_all(&mut v, own);
    push_text(&mut v, "</style>");
    push_text(&mut v, body);
    assert(v@ =~= styled(base@, own@, body@));
    string_of(&v)
}

/// A stylesheet without angle brackets in front of a balanced body is balanced.
pub proof fn law_a_styled_body_is_balanced(base: Seq<char>, own: Seq<char>, body: Seq<char>)
    requires
        plain(base),
        plain(own),
        balanced(body),
    ensures
        balanced(styled(base, own, body)),
{
    reveal_strlit("<style>");
    reveal_strlit("</style>");
    reveal_strlit("</");
    reveal_strlit("style");
    reveal_strlit("br");
    reveal_strlit("img");
    reveal_strlit("col");
    assert(is_name("style"@)) by {
        reveal(plain);
        reveal(is_name);
    }
    lemma_no_attrs();
    lemma_plain_joined(base, own);
    lemma_plain_is_balanced(base + own);
    assert("style"@.len() == 5 && "br"@.len() == 2 && "img"@.len() == 3 && "col"@.len() == 3);
    law_element_is_balanced("style"@, Seq::empty(), base + own);
    let sheet = open_text("style"@, Seq::empty()) + (base + own) + close_text("style"@);
    law_balanced_joined(sheet, body);
    assert(styled(base, own, body) =~= sheet + body);
}

} // verus!
