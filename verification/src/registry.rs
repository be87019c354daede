//! The stage registry: an append-only sequence of published Merkle roots,
//! indexed by a monotonically increasing stage counter.
//!
//! Stage 0 is reserved as "no distribution yet"; the first publication
//! creates stage 1.  A stage's root is written once and never altered, and a
//! root exists for every stage in `[1, current]`.  Stage numbers are carried
//! in a single byte, so at most 255 stages can be published.

use vstd::prelude::*;

use crate::hexroot::is_hex_root;

verus! {

pub struct StageRegistry {
    stage_index: u8,
    roots: Vec<Vec<u8>>,
}

impl StageRegistry {
    /// The current stage counter.
    pub closed spec fn stage(self) -> int {
        self.stage_index as int
    }

    /// The published roots in publication order: element `k` is the
    /// hex-encoded root of stage `k + 1`.
    pub closed spec fn roots_seq(self) -> Seq<Seq<u8>> {
        self.roots.deep_view()
    }

    /// One root per published stage, each a well-formed hex digest.
    pub open spec fn wf(self) -> bool {
        self.roots_seq().len() == self.stage() && forall|k: int|
            0 <= k < self.roots_seq().len() ==> is_hex_root(#[trigger] self.roots_seq()[k])
    }

    /// The registry holds a root for `stage_index`.
    pub open spec fn has_stage(self, stage_index: u8) -> bool {
        1 <= stage_index as int <= self.stage()
    }

    /// The hex-encoded root published for `stage_index`.
    pub open spec fn root_hex(self, stage_index: u8) -> Seq<u8> {
        self.roots_seq()[stage_index as int - 1]
    }

    /// An empty registry at stage 0.
    pub fn new() -> (r: StageRegistry)
        ensures
            r.wf(),
            r.stage() == 0,
            r.roots_seq() == Seq::<Seq<u8>>::empty(),
    {
        let r = StageRegistry { stage_index: 0, roots: Vec::new() };
        proof {
            assert(r.roots_seq() =~= Seq::<Seq<u8>>::empty());
        }
        r
    }

    /// Rebuilds a registry from previously published roots; the stage counter
    /// is the number of roots.  Fails when a root is not well-formed hex or
    /// more than 255 roots are handed in.
    pub fn from_roots(roots: Vec<Vec<u8>>) -> (r: Option<StageRegistry>)
        ensures
            (roots.deep_view().len() <= 255 && forall|k: int|
                0 <= k < roots.deep_view().len() ==> is_hex_root(
                    #[trigger] roots.deep_view()[k],
                )) <==> r is Some,
            r matches Some(reg) ==> reg.wf() && reg.stage() == roots.deep_view().len()
                && reg.roots_seq() == roots.deep_view(),
    {
        let ghost s = roots.deep_view();
        if roots.len() > 255 {
            return None;
        }
        let mut k: usize = 0;
        while k < roots.len()
            invariant
                0 <= k <= roots@.len(),
                s == roots.deep_view(),
                s.len() == roots@.len(),
                forall|j: int| 0 <= j < s.len() ==> s[j] == roots@[j]@,
                forall|j: int| 0 <= j < k ==> is_hex_root(#[trigger] s[j]),
            decreases roots@.len() - k,
        {
            if !crate::hexroot::check_merkle_root(&roots[k]) {
                assert(!is_hex_root(s[k as int]));
                return None;
            }
            k += 1;
        }
        let stage_index = roots.len() as u8;
        Some(StageRegistry { stage_index, roots })
    }

    /// The current stage counter.
    pub fn read_stage_index(&self) -> (r: u8)
        ensures
            r as int == self.stage(),
    {
        self.stage_index
    }

    /// The hex-encoded root stored for `stage_index`, or `None` when that
    /// stage has no published root (stage 0 never has one).
    pub fn read_merkle_root(&self, stage_index: u8) -> (r: Option<Vec<u8>>)
        requires
            self.wf(),
        ensures
            self.has_stage(stage_index) ==> (r matches Some(v) && v@ == self.root_hex(
                stage_index,
            )),
            !self.has_stage(stage_index) ==> r is None,
    {
        if stage_index == 0 || (stage_index as usize) > self.roots.len() {
            return None;
        }
        let idx = (stage_index - 1) as usize;
        let root = &self.roots[idx];
        let copy = crate::bytes::clone_bytes(root);
        proof {
            assert(root@ == self.root_hex(stage_index));
        }
        Some(copy)
    }

    /// The stored hex-encoded roots, in stage order, as an external store
    /// would persist them.
    pub fn roots(&self) -> (r: &Vec<Vec<u8>>)
        ensures
            r.deep_view() == self.roots_seq(),
    {
        &self.roots
    }

    /// Publishes a validated root: the stage counter advances by exactly 1,
    /// the root is stored at the new stage, and the new stage is returned.
    /// Earlier stages are never overwritten.
    pub fn publish(&mut self, merkle_root: Vec<u8>) -> (r: u8)
        requires
            old(self).wf(),
            old(self).stage() < 255,
            is_hex_root(merkle_root@),
        ensures
            final(self).wf(),
            final(self).stage() == old(self).stage() + 1,
            final(self).roots_seq() == old(self).roots_seq().push(merkle_root@),
            r as int == final(self).stage(),
    {
        let ghost prior = self.roots.deep_view();
        self.roots.push(merkle_root);
        self.stage_index = self.stage_index + 1;
        proof {
            let dv = self.roots.deep_view();
            let target = prior.push(merkle_root@);
            assert forall|k: int| 0 <= k < dv.len() implies dv[k] == target[k] by {
                if k < prior.len() {
                    assert(self.roots@[k] == old(self).roots@[k]);
                } else {
                    assert(self.roots@[k] == merkle_root);
                    assert(merkle_root.deep_view() =~= merkle_root@);
                }
            }
            assert(dv =~= target);
        }
        self.stage_index
    }
}

} // verus!
