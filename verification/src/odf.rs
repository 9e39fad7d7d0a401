//! OpenDocument files.

pub mod draw;
pub mod length;
pub mod list;
pub mod number;
pub mod numstyle;
pub mod pkg;
pub mod rules;
pub mod sheet;
pub mod single;
pub mod slide;
pub mod style;
pub mod table;
pub mod text;

use vstd::prelude::*;
use crate::document::{DocView, OfficeDoc};
use crate::highlight::terms_of;
use crate::markup::balanced;
use crate::media::{picture_views, Pictures};
use crate::notes::{note_texts, noted, Notes};
use crate::values::{answer_views, Values};
use crate::xml::{document, Tree};
use pkg::{
    class_of, is_encrypted, open_error, readable, Class, Package, Parts, BUDGET_EXCEEDED,
    ENCRYPTED, NOTE_STYLES,
};
use sheet::SheetInput;
use text::Input;

verus! {

/// What a reader is told of a document that is encrypted.
pub const LOCKED: &'static str = "This document is password-protected: the preview cannot open it.";

/// What a reader is told of a package that is far larger than the document in it.
pub const TOO_LARGE: &'static str = "This document is too large to preview.";

/// An error as a reader is told of it.
pub open spec fn told(e: Seq<char>) -> Seq<char> {
    if e == ENCRYPTED@ {
        LOCKED@
    } else if e == BUDGET_EXCEEDED@ {
        TOO_LARGE@
    } else {
        e
    }
}

/// Turns an error into what a reader is told.
pub fn fatal(e: String) -> (r: String)
    ensures
        r@ == told(e@),
{
    if *e.as_str() == *ENCRYPTED {
        String::from_str(LOCKED)
    } else if *e.as_str() == *BUDGET_EXCEEDED {
        String::from_str(TOO_LARGE)
    } else {
        e
    }
}

/// The root of a package's body.
pub open spec fn root_of(p: Parts) -> Tree {
    match readable(p.content) {
        Some(c) => document(c@)->0,
        None => arbitrary(),
    }
}

pub open spec fn sheet_of(p: Parts) -> Option<Tree> {
    match readable(p.styles) {
        Some(s) => document(s@),
        None => None,
    }
}

/// The notes that opening a package leaves.
pub open spec fn opening_notes(p: Parts) -> Seq<Seq<char>> {
    if readable(p.styles) is None {
        noted(Seq::empty(), NOTE_STYLES@)
    } else {
        Seq::empty()
    }
}

pub open spec fn parts_input(p: Parts, terms: Seq<String>, pictures: Pictures) -> Input {
    Input {
        root: root_of(p),
        styles: sheet_of(p),
        entries: p.entries@,
        notes: opening_notes(p),
        terms: terms_of(terms),
        pictures: picture_views(pictures.list@),
        picture_notes: note_texts(pictures.notes@),
    }
}

pub open spec fn parts_sheet(p: Parts, terms: Seq<String>, values: Values) -> SheetInput {
    SheetInput {
        root: root_of(p),
        styles: sheet_of(p),
        notes: opening_notes(p),
        terms: terms_of(terms),
        values: answer_views(values.list@),
    }
}

/// Why a package cannot be rendered; `None` where it can.
pub open spec fn render_error(p: Parts) -> Option<Seq<char>> {
    match open_error(p) {
        Some(e) => Some(told(e)),
        None => match class_of(root_of(p), p.mimetype) {
            Some(Class::Spreadsheet) => if sheet::tables_of(root_of(p)).len() == 0 {
                Some(sheet::NOTE_BODY@)
            } else {
                None
            },
            Some(Class::Presentation) => if slide::pages_of(root_of(p)).len() == 0 {
                Some(slide::NOTE_BODY@)
            } else {
                None
            },
            _ => None,
        },
    }
}

/// The preview of a package, by what its body says it is.
pub open spec fn rendered(
    p: Parts,
    section: Option<u32>,
    terms: Seq<String>,
    pictures: Pictures,
    values: Values,
) -> DocView {
    match class_of(root_of(p), p.mimetype) {
        Some(Class::Spreadsheet) => sheet::sheet_doc(
            parts_sheet(p, terms, values),
            section,
            sheet::HTML_CAP as nat,
        ),
        Some(Class::Presentation) => slide::slide_doc(
            parts_input(p, terms, pictures),
            section,
            slide::HTML_CAP as nat,
        ),
        _ => text::text_doc(parts_input(p, terms, pictures), text::HTML_CAP as nat),
    }
}

/// The HTML of a preview, without its stylesheet.
pub open spec fn body_html(
    p: Parts,
    section: Option<u32>,
    terms: Seq<String>,
    pictures: Pictures,
    values: Values,
) -> Seq<char> {
    match class_of(root_of(p), p.mimetype) {
        Some(Class::Spreadsheet) => sheet::shown_html(
            parts_sheet(p, terms, values),
            section,
            sheet::HTML_CAP as nat,
        ),
        Some(Class::Presentation) => slide::shown_html(
            parts_input(p, terms, pictures),
            section,
            slide::HTML_CAP as nat,
        ),
        _ => text::text_html(parts_input(p, terms, pictures), text::HTML_CAP as nat),
    }
}

/// Renders one section of a package. Whatever the package holds, every tag of the preview
/// is closed in it, innermost first.
pub fn render(
    parts: Parts,
    section: Option<u32>,
    terms: &[String],
    pictures: &Pictures,
    values: &Values,
) -> (r: Result<OfficeDoc, String>)
    ensures
        r is Err == render_error(parts) is Some,
        r matches Err(e) ==> e@ == render_error(parts)->0,
        r matches Ok(d) ==> d@ == rendered(parts, section, terms@, *pictures, *values),
        r is Ok ==> balanced(body_html(parts, section, terms@, *pictures, *values)),
{
    let mut notes: Notes = Notes::new();
    let package: Package = match pkg::open(parts, &mut notes) {
        Ok(p) => p,
        Err(e) => {
            return Err(fatal(e));
        },
    };
    match package.class {
        Class::Text => text::render(package, notes, section, terms, pictures),
        Class::Spreadsheet => sheet::render(package, notes, section, terms, values),
        Class::Presentation => slide::render(package, notes, section, terms, pictures),
    }
}

/// An encrypted package is refused, and the reader is told that it is locked, whatever
/// else the package holds.
pub proof fn law_an_encrypted_package_is_refused(p: Parts)
    requires
        is_encrypted(p.manifest),
    ensures
        open_error(p) == Some(ENCRYPTED@),
        render_error(p) == Some(LOCKED@),
{
}

/// A package that is not encrypted and whose body is past the read budget is refused, and
/// the reader is told that it is too large.
pub proof fn law_a_package_past_the_budget_is_too_large(p: Parts)
    requires
        !is_encrypted(p.manifest),
        p.content matches Err(e) && e@ == BUDGET_EXCEEDED@,
    ensures
        open_error(p) == Some(BUDGET_EXCEEDED@),
        render_error(p) == Some(TOO_LARGE@),
{
    reveal_strlit("office: document is password-protected");
    reveal_strlit("office: package exceeds the read budget");
    assert(ENCRYPTED@.len() != BUDGET_EXCEEDED@.len());
}

/// The section that is shown is one of those there are: the one that was asked for, or
/// the last one where it is past the end.
pub proof fn law_a_shown_section_exists(section: Option<u32>, count: nat)
    requires
        count > 0,
    ensures
        slide::shown_page(section, count) < count,
        sheet::shown_sheet(section, count) < count,
        section matches Some(s) ==> s < count ==> slide::shown_page(section, count) == s
            && sheet::shown_sheet(section, count) == s,
        section matches Some(s) ==> s >= count ==> slide::shown_page(section, count) == count - 1
            && sheet::shown_sheet(section, count) == count - 1,
{
}

} // verus!
