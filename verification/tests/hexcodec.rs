use merkle_airdrop::hexroot::{check_merkle_root, decode_hex_root};

#[test]
fn accepts_64_hex_digits() {
    let root = b"00112233445566778899aabbccddeeff00112233445566778899AABBCCDDEEFF".to_vec();
    assert!(check_merkle_root(&root));
}

#[test]
fn rejects_63_digits() {
    let root = vec![b'0'; 63];
    assert!(!check_merkle_root(&root));
}

#[test]
fn rejects_65_digits() {
    let root = vec![b'0'; 65];
    assert!(!check_merkle_root(&root));
}

#[test]
fn rejects_non_hex_characters() {
    let mut root = vec![b'0'; 64];
    root[10] = b'g';
    assert!(!check_merkle_root(&root));
    let mut root2 = vec![b'a'; 64];
    root2[0] = b' ';
    assert!(!check_merkle_root(&root2));
}

#[test]
fn rejects_empty() {
    assert!(!check_merkle_root(&Vec::new()));
}

/// The decoder agrees with the hex crate on well-formed input.
#[test]
fn decode_matches_hex_crate() {
    let encoded = "00ff10a5b4c3d2e1f09876543210abcdefABCDEF00112233445566778899aabb";
    let root = encoded.as_bytes().to_vec();
    assert!(check_merkle_root(&root));
    let decoded = decode_hex_root(&root);
    assert_eq!(decoded, hex::decode(encoded).unwrap());
    assert_eq!(decoded.len(), 32);
}

/// A round trip through the hex crate's encoder comes back unchanged.
#[test]
fn decode_round_trip() {
    let bytes: Vec<u8> = (0u8..32).map(|i| i.wrapping_mul(37).wrapping_add(11)).collect();
    let encoded = hex::encode(&bytes);
    let decoded = decode_hex_root(&encoded.as_bytes().to_vec());
    assert_eq!(decoded, bytes);
}
