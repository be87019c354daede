//! Domain-separated, sorted-pair Merkle hashing.
//!
//! A leaf commits to `(identity, amount)` as
//! `keccak(0x00 || keccak(identity ++ ":" ++ decimal(amount)))`; an interior
//! node is `keccak(0x01 || lo || hi)` with the two children ordered by
//! unsigned byte comparison, smaller first.  The single-byte prefixes keep a
//! leaf from ever being reinterpreted as an interior node and vice versa.

use vstd::prelude::*;

use sha3::{Digest, Keccak256};

verus! {

/// Domain-separation prefix for leaf hashes.
pub const LEAF: u8 = 0x00;

/// Domain-separation prefix for interior-node hashes.
pub const INTERIOR: u8 = 0x01;

/// ASCII colon, the separator between identity and amount in a leaf.
pub const SEPARATOR: u8 = 0x3a;

/// The Keccak-256 digest of a byte sequence, as an uninterpreted name: the
/// digest is a function of the input bytes alone.
pub uninterp spec fn keccak_of(input: Seq<u8>) -> Seq<u8>;

/// Relies on `sha3::Keccak256::digest`: a 32-byte digest that depends on the
/// input bytes alone.
#[verifier::external_body]
fn keccak256(input: &Vec<u8>) -> (r: Vec<u8>)
    ensures
        r@ == keccak_of(input@),
        r@.len() == 32,
{
    Keccak256::digest(input.as_slice()).to_vec()
}

/// The ASCII decimal representation of `n`, most significant digit first,
/// with no leading zeros (`0` is written as the single digit `0`).
pub open spec fn dec_of(n: u128) -> Seq<u8>
    decreases n,
{
    if n < 10 {
        seq![(0x30 + n) as u8]
    } else {
        dec_of(n / 10).push((0x30 + n % 10) as u8)
    }
}

/// The canonical preimage of a leaf: `identity ++ ":" ++ decimal(amount)`.
pub open spec fn leaf_preimage(identity: Seq<u8>, amount: u128) -> Seq<u8> {
    identity + seq![SEPARATOR] + dec_of(amount)
}

/// The leaf digest: the canonical preimage is hashed once, and the result is
/// hashed again behind the `LEAF` prefix.
pub open spec fn leaf_hash_of(identity: Seq<u8>, amount: u128) -> Seq<u8> {
    keccak_of(seq![LEAF] + keccak_of(leaf_preimage(identity, amount)))
}

/// Lexicographic order on byte sequences by unsigned comparison; a proper
/// prefix sorts before any extension of it.
pub open spec fn lex_le(a: Seq<u8>, b: Seq<u8>) -> bool
    decreases a.len(),
{
    if a.len() == 0 {
        true
    } else if b.len() == 0 {
        false
    } else if a[0] < b[0] {
        true
    } else if a[0] > b[0] {
        false
    } else {
        lex_le(a.drop_first(), b.drop_first())
    }
}

/// The preimage of an interior node: the two children sorted, smaller first,
/// behind the `INTERIOR` prefix.
pub open spec fn interior_preimage(a: Seq<u8>, b: Seq<u8>) -> Seq<u8> {
    if lex_le(a, b) {
        seq![INTERIOR] + a + b
    } else {
        seq![INTERIOR] + b + a
    }
}

/// The interior-node digest.
pub open spec fn interior_hash_of(a: Seq<u8>, b: Seq<u8>) -> Seq<u8> {
    keccak_of(interior_preimage(a, b))
}

pub proof fn lemma_lex_le_total(a: Seq<u8>, b: Seq<u8>)
    ensures
        lex_le(a, b) || lex_le(b, a),
    decreases a.len(),
{
    if a.len() != 0 && b.len() != 0 && a[0] == b[0] {
        lemma_lex_le_total(a.drop_first(), b.drop_first());
    }
}

pub proof fn lemma_lex_le_antisymmetric(a: Seq<u8>, b: Seq<u8>)
    requires
        lex_le(a, b),
        lex_le(b, a),
    ensures
        a == b,
    decreases a.len(),
{
    if a.len() == 0 {
        assert(b.len() == 0);
        assert(a =~= b);
    } else {
        assert(b.len() != 0);
        assert(a[0] == b[0]);
        lemma_lex_le_antisymmetric(a.drop_first(), b.drop_first());
        assert(a.drop_first() =~= b.drop_first());
        assert forall|j: int| 0 <= j < a.len() implies a[j] == b[j] by {
            if j > 0 {
                assert(a[j] == a.drop_first()[j - 1]);
                assert(b[j] == b.drop_first()[j - 1]);
            }
        }
        assert(a =~= b);
    }
}

/// Sort-then-hash symmetry: the interior hash does not depend on the order in
/// which the two children are handed in.
pub proof fn lemma_interior_hash_symmetric(a: Seq<u8>, b: Seq<u8>)
    ensures
        interior_hash_of(a, b) == interior_hash_of(b, a),
{
    lemma_lex_le_total(a, b);
    if lex_le(a, b) && lex_le(b, a) {
        lemma_lex_le_antisymmetric(a, b);
    }
}

/// At the first index where `a` and `b` differ, that comparison decides the
/// lexicographic order in both directions.
proof fn lemma_lex_le_first_difference(a: Seq<u8>, b: Seq<u8>, i: int)
    requires
        0 <= i < a.len(),
        i < b.len(),
        forall|j: int| 0 <= j < i ==> a[j] == b[j],
        a[i] != b[i],
    ensures
        lex_le(a, b) == (a[i] < b[i]),
        lex_le(b, a) == (b[i] < a[i]),
    decreases i,
{
    if i == 0 {
    } else {
        assert(forall|j: int| 0 <= j < i - 1 ==> a.drop_first()[j] == b.drop_first()[j]);
        assert(a.drop_first()[i - 1] == a[i]);
        assert(b.drop_first()[i - 1] == b[i]);
        lemma_lex_le_first_difference(a.drop_first(), b.drop_first(), i - 1);
    }
}

/// A sequence that agrees with a longer one on its whole length sorts first.
proof fn lemma_lex_le_prefix(a: Seq<u8>, b: Seq<u8>)
    requires
        a.len() <= b.len(),
        forall|j: int| 0 <= j < a.len() ==> a[j] == b[j],
    ensures
        lex_le(a, b),
    decreases a.len(),
{
    if a.len() != 0 {
        assert(forall|j: int| 0 <= j < a.len() - 1 ==> a.drop_first()[j] == b.drop_first()[j]);
        lemma_lex_le_prefix(a.drop_first(), b.drop_first());
    }
}

/// Orders two node digests by unsigned byte comparison, smaller first.
pub fn sort_nodes(left: Vec<u8>, right: Vec<u8>) -> (r: (Vec<u8>, Vec<u8>))
    ensures
        lex_le(left@, right@) ==> r.0@ == left@ && r.1@ == right@,
        !lex_le(left@, right@) ==> r.0@ == right@ && r.1@ == left@,
{
    let n = if left.len() <= right.len() {
        left.len()
    } else {
        right.len()
    };
    let mut i: usize = 0;
    while i < n
        invariant
            0 <= i <= n,
            n <= left@.len(),
            n <= right@.len(),
            forall|j: int| 0 <= j < i ==> left@[j] == right@[j],
        decreases n - i,
    {
        if left[i] < right[i] {
            proof {
                lemma_lex_le_first_difference(left@, right@, i as int);
            }
            return (left, right);
        }
        if left[i] > right[i] {
            proof {
                lemma_lex_le_first_difference(left@, right@, i as int);
            }
            return (right, left);
        }
        i += 1;
    }
    if left.len() <= right.len() {
        proof {
            lemma_lex_le_prefix(left@, right@);
        }
        (left, right)
    } else {
        proof {
            lemma_lex_le_prefix(right@, left@);
            if lex_le(left@, right@) {
                lemma_lex_le_antisymmetric(left@, right@);
            }
        }
        (right, left)
    }
}

/// Appends a copy of `src` to `dst`.
fn append_bytes(dst: &mut Vec<u8>, src: &Vec<u8>)
    ensures
        final(dst)@ == old(dst)@ + src@,
{
    let mut i: usize = 0;
    while i < src.len()
        invariant
            0 <= i <= src@.len(),
            dst@ == old(dst)@ + src@.take(i as int),
        decreases src@.len() - i,
    {
        dst.push(src[i]);
        assert(src@.take(i as int).push(src@[i as int]) =~= src@.take(i + 1));
        i += 1;
    }
    assert(src@.take(src@.len() as int) =~= src@);
}

/// Appends the ASCII decimal representation of `n` to `out`.
fn push_decimal(n: u128, out: &mut Vec<u8>)
    ensures
        final(out)@ == old(out)@ + dec_of(n),
    decreases n,
{
    if n < 10 {
        out.push(0x30 + (n as u8));
        assert(old(out)@.push((0x30 + n) as u8) =~= old(out)@ + dec_of(n));
    } else {
        push_decimal(n / 10, out);
        out.push(0x30 + ((n % 10) as u8));
        assert(old(out)@ + dec_of(n / 10).push((0x30 + n % 10) as u8) =~= old(out)@ + dec_of(n));
    }
}

/// Computes the leaf digest for `(identity, amount)`.
pub fn leaf_hash(identity: &Vec<u8>, amount: u128) -> (r: Vec<u8>)
    ensures
        r@ == leaf_hash_of(identity@, amount),
        r@.len() == 32,
{
    let mut preimage: Vec<u8> = Vec::new();
    append_bytes(&mut preimage, identity);
    preimage.push(SEPARATOR);
    push_decimal(amount, &mut preimage);
    assert(preimage@ =~= leaf_preimage(identity@, amount));
    let inner = keccak256(&preimage);
    let mut tagged: Vec<u8> = Vec::new();
    tagged.push(LEAF);
    append_bytes(&mut tagged, &inner);
    assert(tagged@ =~= seq![LEAF] + keccak_of(leaf_preimage(identity@, amount)));
    keccak256(&tagged)
}

/// Computes the interior-node digest of two children.
pub fn interior_hash(left: &Vec<u8>, right: &Vec<u8>) -> (r: Vec<u8>)
    ensures
        r@ == interior_hash_of(left@, right@),
        r@.len() == 32,
{
    let mut left_copy: Vec<u8> = Vec::new();
    append_bytes(&mut left_copy, left);
    let mut right_copy: Vec<u8> = Vec::new();
    append_bytes(&mut right_copy, right);
    let (lo, hi) = sort_nodes(left_copy, right_copy);
    let mut tagged: Vec<u8> = Vec::new();
    tagged.push(INTERIOR);
    append_bytes(&mut tagged, &lo);
    append_bytes(&mut tagged, &hi);
    assert(tagged@ =~= interior_preimage(left@, right@));
    keccak256(&tagged)
}

} // verus!
