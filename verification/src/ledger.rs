//! The claim ledger: per-(address, stage) redemption tracking.
//!
//! Absence means "not claimed"; once a pair is marked claimed it is never
//! reset.  This is the sole replay-prevention state.

use vstd::prelude::*;

verus! {

pub struct ClaimLedger {
    claims: Vec<(Vec<u8>, u8)>,
}

/// The pair `(address, stage_index)` occurs in `ps`.
pub open spec fn pairs_contain(ps: Seq<(Vec<u8>, u8)>, address: Seq<u8>, stage_index: u8) -> bool {
    exists|i: int|
        0 <= i < ps.len() && (#[trigger] ps[i]).0@ == address && ps[i].1 == stage_index
}

impl ClaimLedger {
    /// The pair `(address, stage_index)` has been redeemed.
    pub closed spec fn claimed(self, address: Seq<u8>, stage_index: u8) -> bool {
        pairs_contain(self.claims@, address, stage_index)
    }

    /// An empty ledger: nothing is claimed.
    pub fn new() -> (r: ClaimLedger)
        ensures
            forall|a: Seq<u8>, s: u8| !r.claimed(a, s),
    {
        ClaimLedger { claims: Vec::new() }
    }

    /// Rebuilds a ledger from stored `(address, stage)` pairs: exactly those
    /// pairs are claimed.
    pub fn from_pairs(pairs: Vec<(Vec<u8>, u8)>) -> (r: ClaimLedger)
        ensures
            forall|a: Seq<u8>, s: u8|
                #[trigger] r.claimed(a, s) == pairs_contain(pairs@, a, s),
    {
        ClaimLedger { claims: pairs }
    }

    /// The stored pairs, exactly the claimed ones.
    pub fn pairs(&self) -> (r: &Vec<(Vec<u8>, u8)>)
        ensures
            forall|a: Seq<u8>, s: u8| #[trigger] self.claimed(a, s) == pairs_contain(r@, a, s),
    {
        &self.claims
    }

    /// Whether `(address, stage_index)` has been redeemed; false for any pair
    /// never marked.
    pub fn read_claimed(&self, address: &Vec<u8>, stage_index: u8) -> (r: bool)
        ensures
            r == self.claimed(address@, stage_index),
    {
        let mut i: usize = 0;
        while i < self.claims.len()
            invariant
                0 <= i <= self.claims@.len(),
                forall|j: int|
                    0 <= j < i ==> !((#[trigger] self.claims@[j]).0@ == address@
                        && self.claims@[j].1 == stage_index),
            decreases self.claims@.len() - i,
        {
            let entry = &self.claims[i];
            if entry.1 == stage_index && crate::bytes::bytes_eq(&entry.0, address) {
                return true;
            }
            i += 1;
        }
        false
    }

    /// Marks `(address, stage_index)` as redeemed; every other pair keeps its
    /// state.
    pub fn store_claimed(&mut self, address: &Vec<u8>, stage_index: u8)
        ensures
            forall|a: Seq<u8>, s: u8|
                #[trigger] final(self).claimed(a, s) <==> (old(self).claimed(a, s) || (a
                    == address@ && s == stage_index)),
    {
        let ghost prior = self.claims@;
        let key = crate::bytes::clone_bytes(address);
        self.claims.push((key, stage_index));
        proof {
            let cs = self.claims@;
            let n = prior.len() as int;
            assert(cs.len() == n + 1);
            assert(cs[n].0@ == address@ && cs[n].1 == stage_index);
            assert forall|a: Seq<u8>, s: u8| #[trigger]
                self.claimed(a, s) implies (old(self).claimed(a, s) || (a == address@ && s
                == stage_index)) by {
                let i = choose|i: int|
                    0 <= i < cs.len() && (#[trigger] cs[i]).0@ == a && cs[i].1 == s;
                if i < n {
                    assert(prior[i] == cs[i]);
                    assert(old(self).claimed(a, s));
                }
            }
            assert forall|a: Seq<u8>, s: u8|
                (old(self).claimed(a, s) || (a == address@ && s == stage_index)) implies #[trigger]
                self.claimed(a, s) by {
                if old(self).claimed(a, s) {
                    let i = choose|i: int|
                        0 <= i < prior.len() && (#[trigger] prior[i]).0@ == a && prior[i].1 == s;
                    assert(cs[i] == prior[i]);
                    assert(0 <= i < cs.len() && cs[i].0@ == a && cs[i].1 == s);
                } else {
                    assert(0 <= n < cs.len() && cs[n].0@ == a && cs[n].1 == s);
                }
            }
        }
    }
}

} // verus!
