//! Collecting the hosts that answer a sweep, one observation per address: a
//! host that answers twice is reported once.

use vstd::prelude::*;

use crate::model::{IpAddr, Observation};

verus! {

/// The observations gathered by one sweep, keyed by address.
pub struct Sightings {
    seen: Vec<IpAddr>,
    found: Vec<Observation>,
}

impl Sightings {
    /// The addresses seen so far, in order of first answer.
    pub closed spec fn addresses(&self) -> Seq<IpAddr> {
        self.seen@
    }

    /// The observations kept so far, in order of first answer.
    pub closed spec fn observations(&self) -> Seq<Observation> {
        self.found@
    }

    /// No address twice, and one observation per address, of that address.
    pub closed spec fn wf(&self) -> bool {
        &&& self.seen@.len() == self.found@.len()
        &&& forall|i: int| 0 <= i < self.seen@.len() ==> #[trigger] self.found@[i].ip == Some(
            self.seen@[i],
        )
        &&& forall|i: int, j: int|
            0 <= i < j < self.seen@.len() ==> self.seen@[i] != self.seen@[j]
    }

    /// Nothing seen yet.
    pub fn new() -> (s: Sightings)
        ensures
            s.wf(),
            s.addresses().len() == 0,
            s.observations().len() == 0,
    {
        Sightings { seen: Vec::new(), found: Vec::new() }
    }

    /// Whether `ip` was seen already.
    pub fn has_seen(&self, ip: IpAddr) -> (r: bool)
        ensures
            r == self.addresses().contains(ip),
    {
        let mut i: usize = 0;
        while i < self.seen.len()
            invariant
                i <= self.seen@.len(),
                forall|k: int| 0 <= k < i ==> self.seen@[k] != ip,
            decreases self.seen@.len() - i,
        {
            if self.seen[i] == ip {
                assert(self.seen@[i as int] == ip);
                return true;
            }
            i = i + 1;
        }
        false
    }

    /// Keeps `obs` when its address was not seen yet (and then returns
    /// `true`); otherwise leaves everything unchanged and returns `false`.
    pub fn offer(&mut self, obs: Observation) -> (added: bool)
        requires
            old(self).wf(),
            obs.ip is Some,
        ensures
            final(self).wf(),
            added == !old(self).addresses().contains(obs.ip->0),
            added ==> final(self).addresses() == old(self).addresses().push(obs.ip->0)
                && final(self).observations() == old(self).observations().push(obs),
            !added ==> final(self).addresses() == old(self).addresses()
                && final(self).observations() == old(self).observations(),
    {
        let ip = match obs.ip {
            Some(ip) => ip,
            None => return false,
        };
        if self.has_seen(ip) {
            return false;
        }
        self.seen.push(ip);
        self.found.push(obs);
        proof {
            assert forall|i: int, j: int|
                0 <= i < j < self.seen@.len() implies self.seen@[i] != self.seen@[j] by {
                if j == self.seen@.len() - 1 {
                    assert(self.seen@[i] == old(self).seen@[i]);
                    if self.seen@[i] == ip {
                        assert(old(self).seen@.contains(ip));
                    }
                }
            }
        }
        true
    }

    /// The observations kept, in order of first answer: one per address.
    pub fn into_observations(self) -> (r: Vec<Observation>)
        requires
            self.wf(),
        ensures
            r@ == self.observations(),
            forall|i: int, j: int| 0 <= i < j < r@.len() ==> r@[i].ip != r@[j].ip,
            forall|i: int| 0 <= i < r@.len() ==> (#[trigger] r@[i]).ip is Some,
    {
        proof {
            assert forall|i: int, j: int| 0 <= i < j < self.found@.len() implies self.found@[i].ip
                != self.found@[j].ip by {
                assert(self.found@[i].ip == Some(self.seen@[i]));
                assert(self.found@[j].ip == Some(self.seen@[j]));
            }
            assert forall|i: int| 0 <= i < self.found@.len() implies (#[trigger] self.found@[i]).ip is Some by {
                assert(self.found@[i].ip == Some(self.seen@[i]));
            }
        }
        self.found
    }
}

} // verus!
