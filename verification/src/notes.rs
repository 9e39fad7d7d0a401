//! The notes that a preview shows below a document: what it could not show.

use vstd::prelude::*;

verus! {

/// Notes, each one once, in the order in which they came up.
#[derive(Debug)]
pub struct Notes {
    list: Vec<String>,
}

pub open spec fn note_texts(v: Seq<String>) -> Seq<Seq<char>> {
    v.map_values(|s: String| s@)
}

/// The notes with one more, unless it is there already.
pub open spec fn noted(notes: Seq<Seq<char>>, note: Seq<char>) -> Seq<Seq<char>> {
    if notes.contains(note) {
        notes
    } else {
        notes.push(note)
    }
}

/// A note is held after it was added, and adding it again changes nothing.
pub proof fn law_notes_are_held_once(notes: Seq<Seq<char>>, note: Seq<char>)
    ensures
        noted(notes, note).contains(note),
        noted(noted(notes, note), note) == noted(notes, note),
{
    if !notes.contains(note) {
        assert(notes.push(note)[notes.len() as int] == note);
    }
}

impl View for Notes {
    type V = Seq<Seq<char>>;

    closed spec fn view(&self) -> Seq<Seq<char>> {
        note_texts(self.list@)
    }
}

impl Notes {
    pub fn new() -> (n: Notes)
        ensures
            n@ == Seq::<Seq<char>>::empty(),
    {
        let n = Notes { list: Vec::new() };
        assert(n@ =~= Seq::<Seq<char>>::empty());
        n
    }

    pub fn add(&mut self, note: &str)
        ensures
            final(self)@ == noted(old(self)@, note@),
    {
        let ghost before = self@;
        for i in 0..self.list.len()
            invariant
                before == note_texts(self.list@),
                before == old(self)@,
                self@ == before,
                forall|k: int| 0 <= k < i ==> #[trigger] before[k] != note@,
        {
            if *self.list[i].as_str() == *note {
                assert(before[i as int] == note@);
                return;
            }
        }
        assert(!before.contains(note@));
        self.list.push(String::from_str(note));
        assert(self@ =~= before.push(note@));
    }

    pub fn has(&self, note: &str) -> (r: bool)
        ensures
            r == self@.contains(note@),
    {
        for i in 0..self.list.len()
            invariant
                forall|k: int| 0 <= k < i ==> #[trigger] self@[k] != note@,
        {
            if *self.list[i].as_str() == *note {
                assert(self@[i as int] == note@);
                return true;
            }
        }
        false
    }

    pub fn into_vec(self) -> (v: Vec<String>)
        ensures
            note_texts(v@) == self@,
    {
        self.list
    }
}

} // verus!
