use aether::crypto::{
    address_from_pubkey, block_hash, composite_state_root, deploy_address, hash_bytes, header_sighash, merkle_root,
    note_commitment, nullifier, tagged_hash, tx_hash, tx_sighash, verify_signature, CryptoError, Keypair,
};
use aether::hexcodec::{hex_addr, hex_hash, parse_addr, parse_hash, parse_secret};
use aether::text::{decimal_string, parse_u128, parse_u64, parse_usize, str_eq, trim};

fn manual(tag: &str, data: &[u8]) -> [u8; 32] {
    let mut h = blake3::Hasher::new();
    h.update(tag.as_bytes());
    h.update(&[0xff]);
    h.update(data);
    *h.finalize().as_bytes()
}

#[test]
fn tagged_hash_is_domain_separated_blake3() {
    assert_eq!(tagged_hash("T", b"abc"), manual("T", b"abc"));
    assert_ne!(tagged_hash("T", b"abc"), tagged_hash("U", b"abc"));
    assert_eq!(hash_bytes(b"blob"), manual("AETH/BLOB/V1", b"blob"));
    assert_eq!(tx_sighash(b"body"), manual("AETH/TX/V1", b"body"));
    assert_eq!(header_sighash(b"hdr"), manual("AETH/BLOCK/V1", b"hdr"));
    assert_eq!(block_hash(b"hdr"), manual("AETH/BLOCK/V1", b"hdr"));
    assert_eq!(tx_hash(b"tx"), manual("AETH/TXHASH/V1", b"tx"));
}

#[test]
fn address_is_the_hash_prefix() {
    let pk = [3u8; 32];
    let h = manual("AETH/ADDR/V1", &pk);
    assert_eq!(address_from_pubkey(&pk).to_vec(), h[..20].to_vec());
}

#[test]
fn merkle_root_shapes() {
    assert_eq!(merkle_root(&[]), manual("AETH/MERKLE/EMPTY", &[]));
    let a = [1u8; 32];
    let b = [2u8; 32];
    let c = [3u8; 32];
    let la = manual("AETH/MERKLE/LEAF", &a);
    let lb = manual("AETH/MERKLE/LEAF", &b);
    let lc = manual("AETH/MERKLE/LEAF", &c);
    assert_eq!(merkle_root(&[a]), la);
    let ab = manual("AETH/MERKLE/NODE", &[la, lb].concat());
    assert_eq!(merkle_root(&[a, b]), ab);
    let odd = manual("AETH/MERKLE/ODD", &lc);
    assert_eq!(merkle_root(&[a, b, c]), manual("AETH/MERKLE/NODE", &[ab, odd].concat()));
}

#[test]
fn derived_identifiers() {
    let sender = [4u8; 20];
    let salt = [5u8; 32];
    let mut buf = sender.to_vec();
    buf.extend_from_slice(&9u64.to_le_bytes());
    buf.extend_from_slice(&salt);
    assert_eq!(deploy_address(&sender, 9, &salt).to_vec(), manual("AETH/DEPLOY", &buf)[..20].to_vec());
    let mut nb = 500u128.to_le_bytes().to_vec();
    nb.extend_from_slice(&sender);
    nb.extend_from_slice(&salt);
    let cm = note_commitment(500, &sender, &salt);
    assert_eq!(cm, manual("AETH/NOTE/V1", &nb));
    let mut nf = b"secret".to_vec();
    nf.extend_from_slice(&cm);
    assert_eq!(nullifier(b"secret", &cm), manual("AETH/NULLIFIER/V1", &nf));
    let parts = [[1u8; 32], [2u8; 32]];
    assert_eq!(composite_state_root(&parts), manual("AETH/STATE/V1", &parts.concat()));
}

#[test]
fn signatures_verify_to_the_signer() {
    let kp = Keypair::from_bytes([21u8; 32]);
    assert_eq!(kp.secret_bytes(), [21u8; 32]);
    let sig = kp.sign(b"hello");
    assert_eq!(sig.len(), 64);
    assert_eq!(verify_signature(&kp.public_bytes(), &sig, b"hello").unwrap(), kp.address());
    assert!(matches!(verify_signature(&kp.public_bytes(), &sig, b"hellp"), Err(CryptoError::InvalidSignature)));
    assert!(matches!(verify_signature(&[1u8; 5], &sig, b"hello"), Err(CryptoError::InvalidPublicKey)));
    assert!(matches!(verify_signature(&kp.public_bytes(), &sig[..10], b"hello"), Err(CryptoError::InvalidSignature)));
    assert_eq!(CryptoError::InvalidSignature.message(), "invalid signature");
    assert_eq!(CryptoError::Serde("x".to_string()).message(), "serialization error: x");
    let other = Keypair::generate();
    assert_ne!(other.address(), kp.address());
}

#[test]
fn hex_round_trip() {
    let mut h = [0u8; 32];
    h[1] = 0xab;
    h[31] = 0xff;
    assert_eq!(hex_hash(&h), format!("0x00ab{}ff", "00".repeat(29)));
    assert_eq!(parse_hash(&format!("0x00AB{}fF", "00".repeat(29))).unwrap(), h);
    assert!(parse_hash(&"3".repeat(63)).is_err());
    assert!(parse_hash(&"zz".repeat(32)).is_err());
    assert_eq!(hex_addr(&[0x11u8; 20]), format!("0x{}", "11".repeat(20)));
    assert_eq!(hex_hash(&[0x0fu8; 32]), format!("0x{}", "0f".repeat(32)));
    assert_eq!(parse_addr(&format!("0x{}", "22".repeat(20))).unwrap(), [0x22u8; 20]);
    assert_eq!(parse_addr("2222").unwrap_err(), "address must be 20 bytes");
    assert_eq!(parse_hash(&"33".repeat(32)).unwrap(), [0x33u8; 32]);
    assert_eq!(parse_hash("0x33").unwrap_err(), "hash must be 32 bytes");
    assert_eq!(parse_secret(&"44".repeat(32)).unwrap(), [0x44u8; 32]);
    assert_eq!(parse_secret("44").unwrap_err(), "secret must be 32 bytes");
    assert!(parse_addr("0xgg").is_err());
}

#[test]
fn text_helpers() {
    assert_eq!(decimal_string(0), "0");
    assert_eq!(decimal_string(1234567890123), "1234567890123");
    assert_eq!(parse_u64("42"), Some(42));
    assert_eq!(parse_u64("+7"), Some(7));
    assert_eq!(parse_u64("18446744073709551615"), Some(u64::MAX));
    assert_eq!(parse_u64("18446744073709551616"), None);
    assert_eq!(parse_u64(""), None);
    assert_eq!(parse_u64("1a"), None);
    assert_eq!(parse_usize("12"), Some(12));
    assert_eq!(parse_u128("340282366920938463463374607431768211455"), Some(u128::MAX));
    assert_eq!(trim("  a b \t\n"), "a b");
    assert!(str_eq("x", "x"));
    assert!(!str_eq("x", "y"));
}
