//! Membership proof verification.
//!
//! A proof is an ordered list of sibling digests.  Verification starts from
//! the leaf digest and folds the siblings in, one interior hash per step; the
//! claimed membership holds exactly when the folded result equals the stored
//! root.  An empty proof is accepted only when the root equals the leaf digest
//! itself (a single-leaf tree).

use vstd::prelude::*;

use crate::bytes::bytes_eq;
use crate::hashtree::{interior_hash, interior_hash_of, leaf_hash, leaf_hash_of};

verus! {

/// The digest obtained by folding `siblings`, in order, into `h`.
pub open spec fn fold_root(h: Seq<u8>, siblings: Seq<Seq<u8>>) -> Seq<u8>
    decreases siblings.len(),
{
    if siblings.len() == 0 {
        h
    } else {
        fold_root(interior_hash_of(h, siblings[0]), siblings.drop_first())
    }
}

/// Every sibling digest carries exactly 32 bytes.
pub open spec fn proof_well_formed(siblings: Seq<Seq<u8>>) -> bool {
    forall|i: int| 0 <= i < siblings.len() ==> (#[trigger] siblings[i]).len() == 32
}

/// Checks that every element of `proof` is exactly 32 bytes long.  A proof
/// failing this check is a malformed input, to be distinguished from a
/// well-formed proof that does not match the root.
pub fn check_proof_format(proof: &Vec<Vec<u8>>) -> (r: bool)
    ensures
        r == proof_well_formed(proof.deep_view()),
{
    let ghost s = proof.deep_view();
    let mut i: usize = 0;
    while i < proof.len()
        invariant
            0 <= i <= proof@.len(),
            s == proof.deep_view(),
            s.len() == proof@.len(),
            forall|j: int| 0 <= j < s.len() ==> s[j] == proof@[j]@,
            forall|j: int| 0 <= j < i ==> (#[trigger] s[j]).len() == 32,
        decreases proof@.len() - i,
    {
        if proof[i].len() != 32 {
            assert(s[i as int].len() != 32);
            return false;
        }
        i += 1;
    }
    true
}

/// A Merkle tree over `(identity, amount)` leaves, as a mathematical model:
/// the shape proofs are extracted from.
pub enum MerkleTree {
    Leaf { identity: Seq<u8>, amount: u128 },
    Node { left: Box<MerkleTree>, right: Box<MerkleTree> },
}

/// The root digest of a tree under the sorted-pair scheme.
pub open spec fn tree_root(t: MerkleTree) -> Seq<u8>
    decreases t,
{
    match t {
        MerkleTree::Leaf { identity, amount } => leaf_hash_of(identity, amount),
        MerkleTree::Node { left, right } => interior_hash_of(tree_root(*left), tree_root(*right)),
    }
}

/// The tree has a leaf for exactly this `(identity, amount)` pair.
pub open spec fn tree_contains(t: MerkleTree, identity: Seq<u8>, amount: u128) -> bool
    decreases t,
{
    match t {
        MerkleTree::Leaf { identity: i, amount: a } => i == identity && a == amount,
        MerkleTree::Node { left, right } => tree_contains(*left, identity, amount)
            || tree_contains(*right, identity, amount),
    }
}

/// The proof path for a contained leaf: the sibling digests from the leaf up
/// to the root.
pub open spec fn path_for(t: MerkleTree, identity: Seq<u8>, amount: u128) -> Seq<Seq<u8>>
    decreases t,
{
    match t {
        MerkleTree::Leaf { .. } => Seq::empty(),
        MerkleTree::Node { left, right } => if tree_contains(*left, identity, amount) {
            path_for(*left, identity, amount).push(tree_root(*right))
        } else {
            path_for(*right, identity, amount).push(tree_root(*left))
        },
    }
}

/// Folding one more sibling onto a path hashes it in at the top.
proof fn lemma_fold_root_push(h: Seq<u8>, siblings: Seq<Seq<u8>>, x: Seq<u8>)
    ensures
        fold_root(h, siblings.push(x)) == interior_hash_of(fold_root(h, siblings), x),
    decreases siblings.len(),
{
    if siblings.len() == 0 {
        assert(siblings.push(x)[0] == x);
        assert(siblings.push(x).drop_first() =~= Seq::<Seq<u8>>::empty());
        assert(fold_root(h, siblings.push(x)) == fold_root(
            interior_hash_of(h, x),
            Seq::<Seq<u8>>::empty(),
        ));
        assert(fold_root(interior_hash_of(h, x), Seq::<Seq<u8>>::empty()) == interior_hash_of(
            h,
            x,
        ));
        assert(fold_root(h, siblings) == h);
    } else {
        assert(siblings.push(x)[0] == siblings[0]);
        assert(siblings.push(x).drop_first() =~= siblings.drop_first().push(x));
        assert(fold_root(h, siblings.push(x)) == fold_root(
            interior_hash_of(h, siblings[0]),
            siblings.drop_first().push(x),
        ));
        lemma_fold_root_push(interior_hash_of(h, siblings[0]), siblings.drop_first(), x);
        assert(fold_root(h, siblings) == fold_root(
            interior_hash_of(h, siblings[0]),
            siblings.drop_first(),
        ));
    }
}

/// Completeness: for every tree containing a leaf for `(identity, amount)`,
/// the path extracted for that leaf folds back to the tree's root — so
/// `verify(root, identity, amount, path)` returns true whenever `root` is
/// the root of such a tree.
pub proof fn lemma_tree_path_verifies(t: MerkleTree, identity: Seq<u8>, amount: u128)
    requires
        tree_contains(t, identity, amount),
    ensures
        fold_root(leaf_hash_of(identity, amount), path_for(t, identity, amount)) == tree_root(t),
    decreases t,
{
    match t {
        MerkleTree::Leaf { .. } => {},
        MerkleTree::Node { left, right } => {
            if tree_contains(*left, identity, amount) {
                lemma_tree_path_verifies(*left, identity, amount);
                lemma_fold_root_push(
                    leaf_hash_of(identity, amount),
                    path_for(*left, identity, amount),
                    tree_root(*right),
                );
            } else {
                lemma_tree_path_verifies(*right, identity, amount);
                lemma_fold_root_push(
                    leaf_hash_of(identity, amount),
                    path_for(*right, identity, amount),
                    tree_root(*left),
                );
                crate::hashtree::lemma_interior_hash_symmetric(tree_root(*left), tree_root(*right));
            }
        },
    }
}

/// Decides membership: recomputes a root from the leaf `(identity, amount)`
/// and the ordered sibling digests, and compares it to `root`.  Returns true
/// exactly when the recomputation reproduces `root`.
pub fn verify(root: &Vec<u8>, identity: &Vec<u8>, amount: u128, proof: &Vec<Vec<u8>>) -> (r: bool)
    ensures
        r == (root@ == fold_root(leaf_hash_of(identity@, amount), proof.deep_view())),
{
    let ghost s = proof.deep_view();
    let mut h = leaf_hash(identity, amount);
    proof {
        assert(s.skip(0) =~= s);
    }
    let mut i: usize = 0;
    while i < proof.len()
        invariant
            0 <= i <= proof@.len(),
            s == proof.deep_view(),
            s.len() == proof@.len(),
            forall|j: int| 0 <= j < s.len() ==> s[j] == proof@[j]@,
            fold_root(h@, s.skip(i as int)) == fold_root(leaf_hash_of(identity@, amount), s),
        decreases proof@.len() - i,
    {
        let ghost rest = s.skip(i as int);
        h = interior_hash(&h, &proof[i]);
        proof {
            assert(rest[0] == s[i as int]);
            assert(rest.drop_first() =~= s.skip(i + 1));
        }
        i += 1;
    }
    proof {
        assert(s.skip(i as int) =~= Seq::<Seq<u8>>::empty());
    }
    bytes_eq(root, &h)
}

} // verus!
