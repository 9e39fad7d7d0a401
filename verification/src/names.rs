//! Tables keyed by names out of a document.

use vstd::prelude::*;

verus! {

/// A table that holds one value per name, in the order in which the names came.
#[derive(Debug)]
pub struct Names<T> {
    rows: Vec<(String, T)>,
}

/// The place of a name among the rows from `i` on, or the end.
pub open spec fn place_of<T>(rows: Seq<(Seq<char>, T)>, name: Seq<char>, i: int) -> int
    decreases rows.len() - i,
{
    if 0 <= i < rows.len() && rows[i].0 != name {
        place_of(rows, name, i + 1)
    } else {
        i
    }
}

/// The value under a name.
pub open spec fn lookup<T>(rows: Seq<(Seq<char>, T)>, name: Seq<char>) -> Option<T> {
    let i = place_of(rows, name, 0);
    if i < rows.len() {
        Some(rows[i].1)
    } else {
        None
    }
}

/// The rows with a value put under a name, in place of the one before.
pub open spec fn stored<T>(rows: Seq<(Seq<char>, T)>, name: Seq<char>, value: T) -> Seq<
    (Seq<char>, T),
> {
    let i = place_of(rows, name, 0);
    if i < rows.len() {
        rows.update(i, (name, value))
    } else {
        rows.push((name, value))
    }
}

pub proof fn lemma_place_of<T>(rows: Seq<(Seq<char>, T)>, name: Seq<char>, i: int)
    requires
        0 <= i <= rows.len(),
    ensures
        i <= place_of(rows, name, i) <= rows.len(),
        place_of(rows, name, i) < rows.len() ==> rows[place_of(rows, name, i)].0 == name,
        forall|k: int| i <= k < place_of(rows, name, i) ==> (#[trigger] rows[k]).0 != name,
    decreases rows.len() - i,
{
    if i < rows.len() && rows[i].0 != name {
        lemma_place_of(rows, name, i + 1);
    }
}

proof fn lemma_place_is<T>(rows: Seq<(Seq<char>, T)>, name: Seq<char>, i: int, at: int)
    requires
        0 <= i <= at <= rows.len(),
        forall|k: int| i <= k < at ==> (#[trigger] rows[k]).0 != name,
        at < rows.len() ==> rows[at].0 == name,
    ensures
        place_of(rows, name, i) == at,
    decreases at - i,
{
    if i < at {
        assert(rows[i].0 != name);
        lemma_place_is(rows, name, i + 1, at);
    }
}

/// What was put under a name is what is found there, and the other names keep what
/// they had.
pub proof fn law_stored_is_found<T>(
    rows: Seq<(Seq<char>, T)>,
    name: Seq<char>,
    value: T,
    other: Seq<char>,
)
    ensures
        lookup(stored(rows, name, value), name) == Some(value),
        other != name ==> lookup(stored(rows, name, value), other) == lookup(rows, other),
{
    let at = place_of(rows, name, 0);
    let after = stored(rows, name, value);
    lemma_place_of(rows, name, 0);
    lemma_place_of(rows, other, 0);
    lemma_place_is(after, name, 0, at);
    if other != name {
        let p = place_of(rows, other, 0);
        if p < rows.len() {
            lemma_place_is(after, other, 0, p);
        } else {
            lemma_place_is(after, other, 0, after.len() as int);
        }
    }
}

impl<T: View> View for Names<T> {
    type V = Seq<(Seq<char>, T::V)>;

    closed spec fn view(&self) -> Seq<(Seq<char>, T::V)> {
        self.rows@.map_values(|r: (String, T)| (r.0@, r.1@))
    }
}

impl<T: View> Names<T> {
    pub fn new() -> (t: Names<T>)
        ensures
            t@ == Seq::<(Seq<char>, T::V)>::empty(),
    {
        let t = Names { rows: Vec::new() };
        assert(t@ =~= Seq::<(Seq<char>, T::V)>::empty());
        t
    }

    pub fn len(&self) -> (n: usize)
        ensures
            n == self@.len(),
    {
        self.rows.len()
    }

    fn find(&self, name: &str) -> (i: usize)
        ensures
            i == place_of(self@, name@, 0),
            i <= self.rows@.len(),
    {
        let mut i: usize = 0;
        while i < self.rows.len() && !(*self.rows[i].0.as_str() == *name)
            invariant
                i <= self.rows@.len(),
                place_of(self@, name@, i as int) == place_of(self@, name@, 0),
            decreases self.rows@.len() - i,
        {
            assert(self@[i as int] == (self.rows@[i as int].0@, self.rows@[i as int].1@));
            i = i + 1;
        }
        if i < self.rows.len() {
            assert(self@[i as int] == (self.rows@[i as int].0@, self.rows@[i as int].1@));
        }
        i
    }

    pub fn get(&self, name: &str) -> (r: Option<&T>)
        ensures
            r is Some == lookup(self@, name@) is Some,
            r matches Some(t) ==> t@ == lookup(self@, name@)->0,
    {
        let i: usize = self.find(name);
        if i < self.rows.len() {
            assert(self@[i as int] == (self.rows@[i as int].0@, self.rows@[i as int].1@));
            Some(&self.rows[i].1)
        } else {
            None
        }
    }

    pub fn has(&self, name: &str) -> (r: bool)
        ensures
            r == lookup(self@, name@) is Some,
    {
        self.find(name) < self.rows.len()
    }

    pub fn put(&mut self, name: String, value: T)
        ensures
            final(self)@ == stored(old(self)@, name@, value@),
    {
        let ghost before = self@;
        let i: usize = self.find(name.as_str());
        if i < self.rows.len() {
            self.rows.set(i, (name, value));
        } else {
            self.rows.push((name, value));
        }
        assert(self@ =~= stored(before, name@, value@));
    }
}

} // verus!
