//! Ordered header collection with case-insensitive lookup.

use vstd::prelude::*;
use crate::text::{eq_ignore_case, same_name};

verus! {

/// One header line: its name and its value.
#[derive(Clone, Debug)]
pub struct Header {
    pub name: String,
    pub value: String,
}

impl Header {
    /// Name and value as texts.
    pub open spec fn view(&self) -> (Seq<char>, Seq<char>) {
        (self.name@, self.value@)
    }
}

/// The headers of one message part, in the order in which they occurred.
#[derive(Clone, Debug)]
pub struct HeaderStore {
    pub entries: Vec<Header>,
}

/// Value of the first header at or after `i` whose name matches.
pub open spec fn first_from(hs: Seq<(Seq<char>, Seq<char>)>, name: Seq<char>, i: int) -> Option<Seq<char>>
    decreases hs.len() - i,
{
    if i < 0 || i >= hs.len() {
        None
    } else if same_name(hs[i].0, name) {
        Some(hs[i].1)
    } else {
        first_from(hs, name, i + 1)
    }
}

/// Values of all headers at or after `i` whose name matches, in order.
pub open spec fn all_from(hs: Seq<(Seq<char>, Seq<char>)>, name: Seq<char>, i: int) -> Seq<Seq<char>>
    decreases hs.len() - i,
{
    if i < 0 || i >= hs.len() {
        Seq::empty()
    } else if same_name(hs[i].0, name) {
        seq![hs[i].1] + all_from(hs, name, i + 1)
    } else {
        all_from(hs, name, i + 1)
    }
}

/// The texts that a vector of strings holds.
pub open spec fn texts(v: Seq<String>) -> Seq<Seq<char>> {
    Seq::new(v.len(), |i: int| v[i]@)
}

impl HeaderStore {
    /// The name/value pairs in insertion order.
    pub open spec fn view(&self) -> Seq<(Seq<char>, Seq<char>)> {
        Seq::new(self.entries@.len(), |i: int| self.entries@[i]@)
    }

    /// Value of the first header with this name, where there is one.
    pub open spec fn spec_first(&self, name: Seq<char>) -> Option<Seq<char>> {
        first_from(self@, name, 0)
    }

    /// Values of all headers with this name, in order.
    pub open spec fn spec_all(&self, name: Seq<char>) -> Seq<Seq<char>> {
        all_from(self@, name, 0)
    }

    /// An empty store.
    pub fn new() -> (r: HeaderStore)
        ensures
            r@ == Seq::<(Seq<char>, Seq<char>)>::empty(),
    {
        let r = HeaderStore { entries: Vec::new() };
        assert(r@ =~= Seq::<(Seq<char>, Seq<char>)>::empty());
        r
    }

    /// Appends a header behind those already held.
    pub fn insert(&mut self, name: String, value: String)
        ensures
            final(self)@ == old(self)@.push((name@, value@)),
    {
        self.entries.push(Header { name, value });
        assert(self@ =~= old(self)@.push((name@, value@)));
    }

    /// Number of headers held.
    pub fn len(&self) -> (r: usize)
        ensures
            r == self@.len(),
    {
        self.entries.len()
    }

    /// Value of the first header with this name, compared without regard to case.
    pub fn first(&self, name: &str) -> (r: Option<String>)
        ensures
            r.is_some() == self.spec_first(name@).is_some(),
            r.is_some() ==> r.unwrap()@ == self.spec_first(name@).unwrap(),
    {
        let n: usize = self.entries.len();
        let mut i: usize = 0;
        while i < n
            invariant
                i <= n,
                n == self.entries@.len(),
                first_from(self@, name@, 0) == first_from(self@, name@, i as int),
            decreases n - i,
        {
            if eq_ignore_case(self.entries[i].name.as_str(), name) {
                return Some(self.entries[i].value.clone());
            }
            i += 1;
        }
        None
    }

    /// Values of every header with this name, in order of occurrence.
    pub fn all(&self, name: &str) -> (r: Vec<String>)
        ensures
            texts(r@) == self.spec_all(name@),
    {
        let n: usize = self.entries.len();
        let mut out: Vec<String> = Vec::new();
        let mut i: usize = 0;
        assert(texts(out@) =~= Seq::<Seq<char>>::empty());
        while i < n
            invariant
                i <= n,
                n == self.entries@.len(),
                all_from(self@, name@, 0) == texts(out@) + all_from(self@, name@, i as int),
            decreases n - i,
        {
            if eq_ignore_case(self.entries[i].name.as_str(), name) {
                let ghost before = texts(out@);
                let v = self.entries[i].value.clone();
                out.push(v);
                assert(texts(out@) =~= before.push(self@[i as int].1));
                assert(texts(out@) + all_from(self@, name@, i as int + 1) =~= before + all_from(
                    self@,
                    name@,
                    i as int,
                ));
            }
            i += 1;
        }
        assert(texts(out@) + Seq::<Seq<char>>::empty() =~= texts(out@));
        out
    }

    /// Every name/value pair, in insertion order.
    pub fn iterate(&self) -> (r: Vec<(String, String)>)
        ensures
            r@.len() == self@.len(),
            forall|i: int| 0 <= i < r@.len() ==> (#[trigger] r@[i]).0@ == self@[i].0 && r@[i].1@ == self@[i].1,
    {
        let n: usize = self.entries.len();
        let mut out: Vec<(String, String)> = Vec::new();
        let mut i: usize = 0;
        while i < n
            invariant
                i <= n,
                n == self.entries@.len(),
                out@.len() == i,
                forall|j: int| 0 <= j < i ==> (#[trigger] out@[j]).0@ == self@[j].0 && out@[j].1@ == self@[j].1,
            decreases n - i,
        {
            out.push((self.entries[i].name.clone(), self.entries[i].value.clone()));
            i += 1;
        }
        out
    }
}

} // verus!
