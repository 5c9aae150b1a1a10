//! The set of identifiers of the processes that are alive as far as is known.

use std::collections::HashSet;
use vstd::prelude::*;
use vstd::std_specs::iter::IteratorSpec;

verus! {

broadcast use vstd::std_specs::hash::group_hash_axioms;

/// The identifiers of the processes that were spawned and whose exit has not been
/// observed yet.
///
/// The registry is viewed as the mathematical set of its members.
#[derive(Debug)]
pub struct ProcessRegistry {
    live: HashSet<u32>,
}

impl View for ProcessRegistry {
    type V = Set<u32>;

    closed spec fn view(&self) -> Set<u32> {
        self.live@
    }
}

impl ProcessRegistry {
    /// An empty registry.
    pub fn new() -> (registry: Self)
        ensures
            registry@ == Set::<u32>::empty(),
    {
        ProcessRegistry { live: HashSet::new() }
    }

    /// Adds `pid`; nothing changes if it is already a member.  Returns whether it
    /// was absent before.
    pub fn insert(&mut self, pid: u32) -> (added: bool)
        ensures
            final(self)@ == old(self)@.insert(pid),
            added == !old(self)@.contains(pid),
    {
        self.live.insert(pid)
    }

    /// Removes `pid`; nothing changes if it is not a member.  Returns whether it
    /// was a member before.
    pub fn remove(&mut self, pid: u32) -> (removed: bool)
        ensures
            final(self)@ == old(self)@.remove(pid),
            removed == old(self)@.contains(pid),
    {
        self.live.remove(&pid)
    }

    /// Whether `pid` is a member.
    pub fn contains(&self, pid: u32) -> (found: bool)
        ensures
            found == self@.contains(pid),
    {
        self.live.contains(&pid)
    }

    /// The number of members.
    pub fn len(&self) -> (count: usize)
        ensures
            count == self@.len(),
    {
        self.live.len()
    }

    /// Whether there is no member.
    pub fn is_empty(&self) -> (empty: bool)
        ensures
            empty == (self@ == Set::<u32>::empty()),
    {
        self.live.is_empty()
    }

    /// Removes every member.
    pub fn clear(&mut self)
        ensures
            final(self)@ == Set::<u32>::empty(),
    {
        self.live.clear()
    }

    /// A copy of the current members, each exactly once, in no particular order.
    pub fn snapshot(&self) -> (members: Vec<u32>)
        ensures
            members@.to_set() == self@,
            members@.no_duplicates(),
            members@.len() == self@.len(),
    {
        let mut members: Vec<u32> = Vec::new();
        let ghost keys = self.live.iter().remaining();
        for pid in it: self.live.iter()
            invariant
                it.seq() == keys,
                members@ == keys.unref().take(it.index()),
        {
            members.push(*pid);
        }
        assert(members@ == keys.unref());
        members
    }
}

/// What a teardown sweep does to a registry with the given members: the identifiers
/// to signal, and the members that are left.
pub open spec fn sweep(members: Set<u32>) -> (Set<u32>, Set<u32>) {
    (members, Set::empty())
}

/// The teardown sweep: hands out every member of `registry`, each exactly once, for
/// the caller to signal, and leaves the registry empty.
pub fn teardown(registry: &mut ProcessRegistry) -> (targets: Vec<u32>)
    ensures
        (targets@.to_set(), final(registry)@) == sweep(old(registry)@),
        targets@.no_duplicates(),
        targets@.len() == old(registry)@.len(),
{
    let targets = registry.snapshot();
    registry.clear();
    targets
}

} // verus!
