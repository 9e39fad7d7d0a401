//! The texts of numbers, as whoever computes with them hands them in.
//!
//! A cell that stores a value and no text shows the value through a format code. Reading
//! and rounding such a value is floating-point work, which is done outside: a value that
//! was not handed in is asked for, so that the document can be written again with it.

use vstd::prelude::*;
use crate::html::opt_view;

verus! {

/// A value to be shown through a code, or without one as it is.
#[derive(Debug, PartialEq, Eq)]
pub struct Asked {
    pub raw: String,
    pub code: Option<String>,
}

pub type AskedView = (Seq<char>, Option<Seq<char>>);

impl View for Asked {
    type V = AskedView;

    open spec fn view(&self) -> AskedView {
        (self.raw@, opt_view(self.code))
    }
}

pub open spec fn asked_views(v: Seq<Asked>) -> Seq<AskedView> {
    v.map_values(|a: Asked| a@)
}

/// What a value shows as; `None` for one that is no number.
#[derive(Debug)]
pub struct Answer {
    pub asked: Asked,
    pub text: Option<String>,
}

/// An answer as contracts see it.
#[verifier::ext_equal]
pub struct AnswerView {
    pub asked: AskedView,
    pub text: Option<Seq<char>>,
}

impl View for Answer {
    type V = AnswerView;

    open spec fn view(&self) -> AnswerView {
        AnswerView { asked: self.asked@, text: opt_view(self.text) }
    }
}

pub open spec fn answer_views(v: Seq<Answer>) -> Seq<AnswerView> {
    v.map_values(|a: Answer| a@)
}

/// The answers that were handed in.
#[derive(Debug)]
pub struct Values {
    pub list: Vec<Answer>,
}

/// The first answer to a question.
pub open spec fn answer_to(v: Seq<AnswerView>, asked: AskedView) -> Option<AnswerView>
    decreases v.len(),
{
    if v.len() == 0 {
        None
    } else if v[0].asked == asked {
        Some(v[0])
    } else {
        answer_to(v.skip(1), asked)
    }
}

fn same(a: &Option<String>, b: &Option<String>) -> (r: bool)
    ensures
        r == (opt_view(*a) == opt_view(*b)),
{
    match (a, b) {
        (Some(x), Some(y)) => *x.as_str() == *y.as_str(),
        (None, None) => true,
        _ => false,
    }
}

impl Values {
    /// No answers.
    pub fn none() -> (v: Values)
        ensures
            v.list@ == Seq::<Answer>::empty(),
    {
        Values { list: Vec::new() }
    }

    pub fn get(&self, asked: &Asked) -> (r: Option<&Answer>)
        ensures
            r is Some == answer_to(answer_views(self.list@), asked@) is Some,
            r matches Some(a) ==> Some(a@) == answer_to(answer_views(self.list@), asked@),
    {
        let ghost v = answer_views(self.list@);
        assert(v.skip(0) =~= v);
        for i in 0..self.list.len()
            invariant
                v == answer_views(self.list@),
                answer_to(v, asked@) == answer_to(v.skip(i as int), asked@),
        {
            assert(v.skip(i as int)[0] == self.list@[i as int]@);
            assert(v.skip(i as int).skip(1) =~= v.skip(i + 1));
            let a: &Answer = &self.list[i];
            if *a.asked.raw.as_str() == *asked.raw.as_str() && same(&a.asked.code, &asked.code) {
                return Some(a);
            }
        }
        None
    }
}

} // verus!
