use crate::word::{Address, Word};
use std::collections::BTreeSet;
use vstd::prelude::*;

verus! {

broadcast use vstd::laws_cmp::group_laws_cmp;

/// The storage locations that have been resolved: a set of (address, slot) pairs that only
/// grows.
#[derive(Clone, Debug)]
pub struct VisitedSlots {
    /// One key for each pair: the two parts of the address, then the two halves of the slot.
    /// A key is a tuple of integers, so that the set orders it as the integers are ordered.
    keys: BTreeSet<(u32, u128, u128, u128)>,
}

impl View for VisitedSlots {
    type V = Set<(Address, Word)>;

    closed spec fn view(&self) -> Set<(Address, Word)> {
        Set::new(
            |p: (Address, Word)| self.keys@.contains((p.0.hi, p.0.lo, p.1.hi, p.1.lo)),
        )
    }
}

impl VisitedSlots {
    /// The empty set.
    pub fn new() -> (visited: VisitedSlots)
        ensures
            visited@ == Set::<(Address, Word)>::empty(),
    {
        VisitedSlots { keys: BTreeSet::new() }
    }

    /// Whether the pair has been resolved.
    pub fn contains(&self, address: Address, slot: Word) -> (found: bool)
        ensures
            found == self@.contains((address, slot)),
    {
        self.keys.contains(&(address.hi, address.lo, slot.hi, slot.lo))
    }

    /// Marks the pair as resolved, and tells whether this was its first visit.
    pub fn visit(&mut self, address: Address, slot: Word) -> (first: bool)
        ensures
            first == !old(self)@.contains((address, slot)),
            final(self)@ == old(self)@.insert((address, slot)),
    {
        self.keys.insert((address.hi, address.lo, slot.hi, slot.lo))
    }
}

/// The contracts whose bytecode has been resolved: a set of addresses that only grows.
#[derive(Clone, Debug)]
pub struct VisitedCode {
    /// One key for each address: its two parts.
    keys: BTreeSet<(u32, u128)>,
}

impl View for VisitedCode {
    type V = Set<Address>;

    closed spec fn view(&self) -> Set<Address> {
        Set::new(|a: Address| self.keys@.contains((a.hi, a.lo)))
    }
}

impl VisitedCode {
    /// The empty set.
    pub fn new() -> (visited: VisitedCode)
        ensures
            visited@ == Set::<Address>::empty(),
    {
        VisitedCode { keys: BTreeSet::new() }
    }

    /// Whether the contract's bytecode has been resolved.
    pub fn contains(&self, address: Address) -> (found: bool)
        ensures
            found == self@.contains(address),
    {
        self.keys.contains(&(address.hi, address.lo))
    }

    /// Marks the contract's bytecode as resolved, and tells whether this was its first visit.
    pub fn visit(&mut self, address: Address) -> (first: bool)
        ensures
            first == !old(self)@.contains(address),
            final(self)@ == old(self)@.insert(address),
    {
        self.keys.insert((address.hi, address.lo))
    }
}

} // verus!
