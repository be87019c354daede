use merkle_airdrop::hashtree::{interior_hash, leaf_hash};
use merkle_airdrop::membership::{check_proof_format, verify};

/// A four-leaf sorted-pair tree built with the library's own hashing.
/// Returns the root and the proof path for each leaf.
fn four_leaf_tree(leaves: &[(Vec<u8>, u128)]) -> (Vec<u8>, Vec<Vec<Vec<u8>>>) {
    assert_eq!(leaves.len(), 4);
    let l: Vec<Vec<u8>> = leaves.iter().map(|(id, amt)| leaf_hash(id, *amt)).collect();
    let n01 = interior_hash(&l[0], &l[1]);
    let n23 = interior_hash(&l[2], &l[3]);
    let root = interior_hash(&n01, &n23);
    let proofs = vec![
        vec![l[1].clone(), n23.clone()],
        vec![l[0].clone(), n23.clone()],
        vec![l[3].clone(), n01.clone()],
        vec![l[2].clone(), n01.clone()],
    ];
    (root, proofs)
}

/// Every leaf of a tree verifies under its own path.
#[test]
fn correct_paths_verify() {
    let leaves = vec![
        (b"addr_a".to_vec(), 100u128),
        (b"addr_b".to_vec(), 200u128),
        (b"addr_c".to_vec(), 300u128),
        (b"addr_d".to_vec(), 400u128),
    ];
    let (root, proofs) = four_leaf_tree(&leaves);
    for (i, (id, amt)) in leaves.iter().enumerate() {
        assert!(verify(&root, id, *amt, &proofs[i]));
    }
}

/// A proof with any single sibling byte flipped no longer verifies.
#[test]
fn flipped_byte_fails() {
    let leaves = vec![
        (b"addr_a".to_vec(), 100u128),
        (b"addr_b".to_vec(), 200u128),
        (b"addr_c".to_vec(), 300u128),
        (b"addr_d".to_vec(), 400u128),
    ];
    let (root, proofs) = four_leaf_tree(&leaves);
    for pos in 0..2 {
        for byte in [0usize, 15, 31] {
            let mut tampered = proofs[0].clone();
            tampered[pos][byte] ^= 0x01;
            assert!(!verify(&root, &leaves[0].0, leaves[0].1, &tampered));
        }
    }
}

/// A proof built for another leaf, a wrong amount or a wrong identity fails.
#[test]
fn wrong_leaf_fails() {
    let leaves = vec![
        (b"addr_a".to_vec(), 100u128),
        (b"addr_b".to_vec(), 200u128),
        (b"addr_c".to_vec(), 300u128),
        (b"addr_d".to_vec(), 400u128),
    ];
    let (root, proofs) = four_leaf_tree(&leaves);
    assert!(!verify(&root, &b"addr_a".to_vec(), 999, &proofs[0]));
    assert!(!verify(&root, &b"addr_x".to_vec(), 100, &proofs[0]));
    assert!(!verify(&root, &b"addr_a".to_vec(), 100, &proofs[1]));
}

/// An empty proof is valid exactly for a single-leaf tree whose root is the
/// leaf digest itself.
#[test]
fn empty_proof_single_leaf() {
    let leaf = leaf_hash(&b"solo".to_vec(), 42);
    let empty: Vec<Vec<u8>> = Vec::new();
    assert!(verify(&leaf, &b"solo".to_vec(), 42, &empty));
    let other = leaf_hash(&b"solo".to_vec(), 43);
    assert!(!verify(&other, &b"solo".to_vec(), 42, &empty));
}

/// The shape check accepts only 32-byte siblings.
#[test]
fn proof_format() {
    let good = vec![vec![0u8; 32], vec![255u8; 32]];
    assert!(check_proof_format(&good));
    let short = vec![vec![0u8; 32], vec![0u8; 31]];
    assert!(!check_proof_format(&short));
    let long = vec![vec![0u8; 33]];
    assert!(!check_proof_format(&long));
    let empty: Vec<Vec<u8>> = Vec::new();
    assert!(check_proof_format(&empty));
}
