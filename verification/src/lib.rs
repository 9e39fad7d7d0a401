//! Rules for previewing OpenDocument files and spreadsheet number formats.

pub mod cellstyle;
pub mod chars;
pub mod color;
pub mod docshape;
pub mod document;
pub mod fonts;
pub mod highlight;
pub mod html;
pub mod link;
pub mod listnum;
pub mod markup;
pub mod media;
pub mod model;
pub mod names;
pub mod notes;
pub mod numfmt;
pub mod odf;
pub mod paint;
pub mod slideshape;
pub mod values;
pub mod xml;

use vstd::prelude::*;

verus! {

} // verus!
