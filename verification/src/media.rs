//! The pictures of a document, as whoever reads the archive hands them in.
//!
//! A preview is written without touching the archive. A picture that was not handed in is
//! shown as a box and asked for, so that the document can be written again with it.

use vstd::prelude::*;

verus! {

/// What a picture is shown as.
#[verifier::ext_equal]
#[derive(Debug)]
pub enum Shown<S = String> {
    /// The picture itself.
    DataUri(S),
    /// A box, and the reason for it.
    Placeholder(S),
}

pub type ShownView = Shown<Seq<char>>;

impl View for Shown<String> {
    type V = ShownView;

    open spec fn view(&self) -> ShownView {
        match *self {
            Shown::DataUri(s) => Shown::DataUri(s@),
            Shown::Placeholder(s) => Shown::Placeholder(s@),
        }
    }
}

/// A picture of the package, made for a width in pixels.
#[derive(Debug)]
pub struct Picture {
    pub part: String,
    pub want: u32,
    pub shown: Shown,
}

/// A picture as contracts see it.
#[verifier::ext_equal]
pub struct PictureView {
    pub part: Seq<char>,
    pub want: u32,
    pub shown: ShownView,
}

impl View for Picture {
    type V = PictureView;

    open spec fn view(&self) -> PictureView {
        PictureView { part: self.part@, want: self.want, shown: self.shown@ }
    }
}

pub open spec fn picture_views(v: Seq<Picture>) -> Seq<PictureView> {
    v.map_values(|p: Picture| p@)
}

/// The pictures that were read, and what there is to say about those that could not be.
#[derive(Debug)]
pub struct Pictures {
    pub list: Vec<Picture>,
    pub notes: Vec<String>,
}

/// A picture that a document shows and that was not handed in.
#[derive(Debug, PartialEq, Eq)]
pub struct Wanted {
    pub part: String,
    pub want: u32,
}

impl View for Wanted {
    type V = (Seq<char>, u32);

    open spec fn view(&self) -> (Seq<char>, u32) {
        (self.part@, self.want)
    }
}

pub open spec fn wanted_views(v: Seq<Wanted>) -> Seq<(Seq<char>, u32)> {
    v.map_values(|w: Wanted| w@)
}

/// What the first picture of a part, made for a width, is shown as.
pub open spec fn shown_as(v: Seq<PictureView>, part: Seq<char>, want: u32) -> Option<ShownView>
    decreases v.len(),
{
    if v.len() == 0 {
        None
    } else if v[0].part == part && v[0].want == want {
        Some(v[0].shown)
    } else {
        shown_as(v.skip(1), part, want)
    }
}

impl Pictures {
    /// No pictures.
    pub fn none() -> (p: Pictures)
        ensures
            p.list@ == Seq::<Picture>::empty(),
            p.notes@ == Seq::<String>::empty(),
    {
        Pictures { list: Vec::new(), notes: Vec::new() }
    }

    pub fn get(&self, part: &str, want: u32) -> (r: Option<&Shown>)
        ensures
            r is Some == shown_as(picture_views(self.list@), part@, want) is Some,
            r matches Some(s) ==> Some(s@) == shown_as(picture_views(self.list@), part@, want),
    {
        let ghost v = picture_views(self.list@);
        assert(v.skip(0) =~= v);
        for i in 0..self.list.len()
            invariant
                v == picture_views(self.list@),
                shown_as(v, part@, want) == shown_as(v.skip(i as int), part@, want),
        {
            assert(v.skip(i as int)[0] == self.list@[i as int]@);
            assert(v.skip(i as int).skip(1) =~= v.skip(i + 1));
            if *self.list[i].part.as_str() == *part && self.list[i].want == want {
                return Some(&self.list[i].shown);
            }
        }
        None
    }
}

} // verus!
