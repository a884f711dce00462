//! A set of bindings that keeps its members in the order they were added.
//! It records which bindings are in scope and how each one is classified.

use crate::trie::BindingId;
use vstd::prelude::*;

verus! {

/// A finite set of bindings.
#[derive(Debug)]
pub struct StableSet {
    items: Vec<usize>,
}

impl View for StableSet {
    type V = Set<nat>;

    closed spec fn view(&self) -> Set<nat> {
        Set::new(|b: nat| exists|i: int| 0 <= i < self.items@.len() && self.items@[i] as nat == b)
    }
}

impl StableSet {
    /// The empty set.
    pub fn new() -> (set: StableSet)
        ensures
            set@ == Set::<nat>::empty(),
    {
        let set = StableSet { items: Vec::new() };
        set
    }

    /// Whether `binding` is a member.
    pub fn contains(&self, binding: BindingId) -> (found: bool)
        ensures
            found == self@.contains(binding@),
    {
        let mut i: usize = 0;
        while i < self.items.len()
            invariant
                i <= self.items.len(),
                forall|j: int| 0 <= j < i ==> self.items@[j] != binding.0,
            decreases self.items.len() - i,
        {
            if self.items[i] == binding.0 {
                return true;
            }
            i = i + 1;
        }
        false
    }

    /// Adds `binding`; a member stays a member.
    pub fn insert(&mut self, binding: BindingId)
        ensures
            final(self)@ == old(self)@.insert(binding@),
    {
        if !self.contains(binding) {
            self.items.push(binding.0);
            assert forall|b: nat| self@.contains(b) == old(self)@.insert(binding@).contains(b) by {
                if old(self)@.contains(b) {
                    let i = choose|i: int|
                        0 <= i < old(self).items@.len() && old(self).items@[i] as nat == b;
                    assert(self.items@[i] as nat == b);
                }
                if b == binding@ {
                    assert(self.items@[self.items@.len() - 1] as nat == b);
                }
            }
        }
    }
}

impl Clone for StableSet {
    /// A set with the same members.
    fn clone(&self) -> (copy: StableSet)
        ensures
            copy@ == self@,
    {
        let mut items: Vec<usize> = Vec::new();
        let mut i: usize = 0;
        while i < self.items.len()
            invariant
                i <= self.items.len(),
                items@ == self.items@.take(i as int),
            decreases self.items.len() - i,
        {
            items.push(self.items[i]);
            i = i + 1;
        }
        assert(items@ =~= self.items@);
        let copy = StableSet { items };
        copy
    }
}

} // verus!
