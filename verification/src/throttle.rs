use crate::word::Address;
use std::collections::BTreeMap;
use vstd::prelude::*;

verus! {

broadcast use vstd::laws_cmp::group_laws_cmp;

/// Where an external-call instruction stands: the calling contract and the program counter of
/// the instruction.
#[derive(Clone, Copy, Debug, PartialEq, Eq, Hash, Structural)]
pub struct CallSite {
    pub contract: Address,
    pub pc: usize,
}

/// The mathematical state of the throttle: how often each call site has been counted, and the
/// threshold above which a site is frozen.
pub struct Throttle {
    pub counts: Map<CallSite, nat>,
    pub threshold: nat,
}

impl Throttle {
    /// The throttle that has seen no call site yet.
    pub open spec fn fresh(threshold: nat) -> Throttle {
        Throttle { counts: Map::empty(), threshold }
    }

    /// The count of a site; a site that was never observed counts zero.
    pub open spec fn count(self, site: CallSite) -> nat {
        if self.counts.contains_key(site) {
            self.counts[site]
        } else {
            0
        }
    }

    /// A site is saturated once its count exceeds the threshold.
    pub open spec fn saturated(self, site: CallSite) -> bool {
        self.count(site) > self.threshold
    }

    /// The throttle after one observation of `site`: a saturated site stays as it is, any other
    /// site has its count raised by one, starting at one.
    pub open spec fn observe(self, site: CallSite) -> Throttle {
        if self.saturated(site) {
            self
        } else {
            Throttle {
                counts: self.counts.insert(site, self.count(site) + 1),
                threshold: self.threshold,
            }
        }
    }
}

/// The per-site observation counters that cap how often one call site may trigger lookups.
#[derive(Clone, Debug)]
pub struct CallSiteCounters {
    /// The count of each site that was observed, under the two parts of the contract's address
    /// and the program counter. A count is raised only while it does not exceed the threshold,
    /// which is a `u32`, so that a `u64` holds it.
    counts: BTreeMap<(u32, u128, usize), u64>,
    threshold: u32,
}

impl View for CallSiteCounters {
    type V = Throttle;

    closed spec fn view(&self) -> Throttle {
        Throttle {
            counts: Map::new(
                |site: CallSite|
                    self.counts@.contains_key((site.contract.hi, site.contract.lo, site.pc)),
                |site: CallSite|
                    self.counts@[(site.contract.hi, site.contract.lo, site.pc)] as nat,
            ),
            threshold: self.threshold as nat,
        }
    }
}

impl CallSiteCounters {
    /// Counters that have seen no call site, with the given saturation threshold.
    pub fn new(threshold: u32) -> (counters: CallSiteCounters)
        ensures
            counters@ == Throttle::fresh(threshold as nat),
    {
        let counters = CallSiteCounters { counts: BTreeMap::new(), threshold };
        assert(counters@.counts =~= Map::<CallSite, nat>::empty());
        counters
    }

    /// The saturation threshold.
    pub fn threshold(&self) -> (threshold: u32)
        ensures
            threshold == self@.threshold,
    {
        self.threshold
    }

    /// The count recorded for `site`, if the site was ever observed.
    pub fn count(&self, site: CallSite) -> (count: Option<u64>)
        ensures
            count is Some <==> self@.counts.contains_key(site),
            count is Some ==> count->0 == self@.counts[site],
    {
        match self.counts.get(&(site.contract.hi, site.contract.lo, site.pc)) {
            Some(c) => Some(*c),
            None => None,
        }
    }

    /// Records one observation of `site` and tells whether processing may go on. A saturated
    /// site is refused and left untouched.
    pub fn observe(&mut self, site: CallSite) -> (proceed: bool)
        ensures
            proceed == !old(self)@.saturated(site),
            final(self)@ == old(self)@.observe(site),
    {
        let key = (site.contract.hi, site.contract.lo, site.pc);
        let seen: u64 = match self.counts.get(&key) {
            Some(c) => *c,
            None => 0,
        };
        if seen > self.threshold as u64 {
            return false;
        }
        self.counts.insert(key, seen + 1);
        assert(self@.counts =~= old(self)@.counts.insert(site, old(self)@.count(site) + 1));
        true
    }
}

} // verus!
