//! Hex-encoded Merkle roots.
//!
//! A published root arrives as the 64 ASCII characters of its hex encoding.
//! The registry stores the encoded form after validating it; a claim decodes
//! it back to the 32 raw digest bytes before comparing.

use vstd::prelude::*;

verus! {

/// The byte is an ASCII hex digit: `0-9`, `a-f` or `A-F`.
pub open spec fn is_hex_digit(b: u8) -> bool {
    (0x30 <= b && b <= 0x39) || (0x61 <= b && b <= 0x66) || (0x41 <= b && b <= 0x46)
}

/// The numeric value of an ASCII hex digit.
pub open spec fn hex_val(b: u8) -> u8 {
    if 0x30 <= b && b <= 0x39 {
        (b - 0x30) as u8
    } else if 0x61 <= b && b <= 0x66 {
        (b - 0x61 + 10) as u8
    } else {
        (b - 0x41 + 10) as u8
    }
}

/// The bytes are a well-formed hex encoding of a 32-byte digest: exactly 64
/// ASCII hex digits.
pub open spec fn is_hex_root(s: Seq<u8>) -> bool {
    s.len() == 64 && forall|i: int| 0 <= i < s.len() ==> is_hex_digit(#[trigger] s[i])
}

/// The digest encoded by a sequence of hex digits, two digits per byte, high
/// nibble first.
pub open spec fn hex_decoded(s: Seq<u8>) -> Seq<u8> {
    Seq::new((s.len() / 2) as nat, |i: int| (hex_val(s[2 * i]) * 16 + hex_val(s[2 * i + 1])) as u8)
}

/// Decides whether `b` is an ASCII hex digit.
fn is_hex_digit_exec(b: u8) -> (r: bool)
    ensures
        r == is_hex_digit(b),
{
    (0x30 <= b && b <= 0x39) || (0x61 <= b && b <= 0x66) || (0x41 <= b && b <= 0x46)
}

/// The numeric value of an ASCII hex digit; at most 15.
fn hex_val_exec(b: u8) -> (r: u8)
    requires
        is_hex_digit(b),
    ensures
        r == hex_val(b),
        r <= 15,
{
    if 0x30 <= b && b <= 0x39 {
        b - 0x30
    } else if 0x61 <= b && b <= 0x66 {
        b - 0x61 + 10
    } else {
        b - 0x41 + 10
    }
}

/// Checks that `root` is the well-formed hex encoding of a 32-byte digest:
/// exactly 64 bytes, each an ASCII hex digit.
pub fn check_merkle_root(root: &Vec<u8>) -> (r: bool)
    ensures
        r == is_hex_root(root@),
{
    if root.len() != 64 {
        return false;
    }
    let mut i: usize = 0;
    while i < root.len()
        invariant
            0 <= i <= root@.len(),
            root@.len() == 64,
            forall|j: int| 0 <= j < i ==> is_hex_digit(#[trigger] root@[j]),
        decreases root@.len() - i,
    {
        if !is_hex_digit_exec(root[i]) {
            return false;
        }
        i += 1;
    }
    true
}

/// Decodes a validated hex root to its 32 raw digest bytes.
pub fn decode_hex_root(root: &Vec<u8>) -> (r: Vec<u8>)
    requires
        is_hex_root(root@),
    ensures
        r@ == hex_decoded(root@),
        r@.len() == 32,
{
    let mut out: Vec<u8> = Vec::new();
    let mut i: usize = 0;
    while i < 32
        invariant
            0 <= i <= 32,
            is_hex_root(root@),
            out@.len() == i,
            forall|j: int| 0 <= j < i ==> out@[j] == hex_decoded(root@)[j],
        decreases 32 - i,
    {
        let hi = hex_val_exec(root[2 * i]);
        let lo = hex_val_exec(root[2 * i + 1]);
        out.push(hi * 16 + lo);
        i += 1;
    }
    proof {
        assert(out@ =~= hex_decoded(root@));
    }
    out
}

} // verus!
