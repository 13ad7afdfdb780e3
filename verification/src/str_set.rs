use crate::str_map::{Duplicate, StrMap};
use vstd::prelude::*;

verus! {

/// A finite set of texts. Its view is the set of their character sequences.
#[derive(Debug, PartialEq, Eq)]
pub struct StrSet {
    members: StrMap<()>,
}

impl View for StrSet {
    type V = Set<Seq<char>>;

    closed spec fn view(&self) -> Set<Seq<char>> {
        self.members@.dom()
    }
}

impl StrSet {
    /// The empty set.
    pub fn new() -> (set: Self)
        ensures
            set@ == Set::<Seq<char>>::empty(),
    {
        let set = StrSet { members: StrMap::new() };
        assert(set@ =~= Set::<Seq<char>>::empty());
        set
    }

    /// Whether `item` is a member.
    pub fn contains(&self, item: &String) -> (present: bool)
        ensures
            present == self@.contains(item@),
    {
        self.members.contains_key(item)
    }

    /// Adds `item`; a set that held it already stays as it was.
    pub fn insert(&mut self, item: String)
        ensures
            final(self)@ == old(self)@.insert(item@),
    {
        self.members.insert(item, ());
        assert(self@ =~= old(self)@.insert(item@));
    }

    /// Takes `item` out and says whether it was a member.
    pub fn remove(&mut self, item: &String) -> (was_present: bool)
        ensures
            final(self)@ == old(self)@.remove(item@),
            was_present == old(self)@.contains(item@),
    {
        let removed = self.members.remove(item);
        assert(self@ =~= old(self)@.remove(item@));
        removed.is_some()
    }

    /// The members, each of them once.
    pub fn items(&self) -> (items: Vec<String>)
        ensures
            forall|k: Seq<char>|
                self@.contains(k) <==> exists|i: int|
                    0 <= i < items@.len() && (#[trigger] items@[i])@ == k,
            forall|i: int, j: int|
                0 <= i < items@.len() && 0 <= j < items@.len() && i != j ==> (#[trigger] items@[i])@
                    != (#[trigger] items@[j])@,
    {
        self.members.keys()
    }
}

impl Clone for StrSet {
    fn clone(&self) -> (copy: Self)
        ensures
            copy@ == self@,
    {
        StrSet { members: self.members.clone() }
    }
}

impl Duplicate for StrSet {
    fn duplicate(&self) -> (copy: Self) {
        self.clone()
    }
}

} // verus!
