use merkle_airdrop::hashtree::{interior_hash, leaf_hash, sort_nodes};
use sha3::{Digest, Keccak256};

fn keccak(data: &[u8]) -> Vec<u8> {
    Keccak256::digest(data).to_vec()
}

/// The leaf digest is keccak(0x00 || keccak("identity:amount")).
#[test]
fn leaf_hash_matches_reference_scheme() {
    let inner = keccak(b"alice:100");
    let mut tagged = vec![0u8];
    tagged.extend_from_slice(&inner);
    let expected = keccak(&tagged);
    let got = leaf_hash(&b"alice".to_vec(), 100);
    assert_eq!(got, expected);
    assert_eq!(got.len(), 32);
}

/// The amount is written in decimal, so 0 and a large value canonicalize
/// distinctly.
#[test]
fn leaf_hash_amount_decimal() {
    let got = leaf_hash(&b"bob".to_vec(), 0);
    let inner = keccak(b"bob:0");
    let mut tagged = vec![0u8];
    tagged.extend_from_slice(&inner);
    assert_eq!(got, keccak(&tagged));

    let big = u128::MAX;
    let got_big = leaf_hash(&b"bob".to_vec(), big);
    let inner_big = keccak(format!("bob:{}", big).as_bytes());
    let mut tagged_big = vec![0u8];
    tagged_big.extend_from_slice(&inner_big);
    assert_eq!(got_big, keccak(&tagged_big));
}

/// Different amounts give different leaves.
#[test]
fn leaf_hash_depends_on_amount() {
    let a = leaf_hash(&b"alice".to_vec(), 100);
    let b = leaf_hash(&b"alice".to_vec(), 999);
    assert_ne!(a, b);
}

/// The interior digest is keccak(0x01 || lo || hi) with the children sorted
/// by unsigned byte comparison.
#[test]
fn interior_hash_matches_reference_scheme() {
    let a = keccak(b"left");
    let b = keccak(b"right");
    let (lo, hi) = if a <= b { (a.clone(), b.clone()) } else { (b.clone(), a.clone()) };
    let mut tagged = vec![1u8];
    tagged.extend_from_slice(&lo);
    tagged.extend_from_slice(&hi);
    let expected = keccak(&tagged);
    assert_eq!(interior_hash(&a, &b), expected);
}

/// Sort-then-hash symmetry: the order of the children does not matter.
#[test]
fn interior_hash_symmetric() {
    let a = keccak(b"x");
    let b = keccak(b"y");
    assert_eq!(interior_hash(&a, &b), interior_hash(&b, &a));
    assert_eq!(interior_hash(&a, &a), interior_hash(&a, &a));
}

/// A leaf and an interior node built from the same bytes differ: the domain
/// prefixes separate them.
#[test]
fn domain_prefixes_separate_leaf_and_interior() {
    let a = keccak(b"node");
    let mut tagged = vec![0u8];
    tagged.extend_from_slice(&a);
    let as_leaf_outer = keccak(&tagged);
    let as_interior = interior_hash(&a, &a);
    assert_ne!(as_leaf_outer, as_interior);
}

#[test]
fn sort_nodes_orders_by_bytes() {
    let small = vec![0u8; 32];
    let mut large = vec![0u8; 32];
    large[0] = 1;
    let (lo, hi) = sort_nodes(large.clone(), small.clone());
    assert_eq!(lo, small);
    assert_eq!(hi, large);
    let (lo2, hi2) = sort_nodes(small.clone(), large.clone());
    assert_eq!(lo2, small);
    assert_eq!(hi2, large);
    // a tie on the first bytes is decided at the first difference
    let mut a = vec![7u8; 32];
    let mut b = vec![7u8; 32];
    a[31] = 1;
    b[31] = 2;
    let (lo3, hi3) = sort_nodes(b.clone(), a.clone());
    assert_eq!(lo3, a);
    assert_eq!(hi3, b);
}
