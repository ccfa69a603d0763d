//! Hashing of actor identifiers: consistency, user salting, verification
//! and batching.

use bluesky_push_notifier::crypto::CryptoUtils;

fn crypto_with_secret() -> CryptoUtils {
    CryptoUtils::new("SECRET-REDACTED".to_string())
}

#[test]
fn test_did_hashing() {
    let crypto = crypto_with_secret();

    let hash1 = crypto.hash_did("did:plc:test1", "did:plc:user1");
    let hash2 = crypto.hash_did("did:plc:test1", "did:plc:user1");
    let hash3 = crypto.hash_did("did:plc:test1", "did:plc:user2");

    // Same user hashing same DID should be consistent
    assert_eq!(hash1, hash2);

    // Different users hashing same DID should produce different hashes
    assert_ne!(hash1, hash3);

    // Test hash verification
    assert!(crypto.did_matches_hash("did:plc:test1", "did:plc:user1", &hash1));
    assert!(!crypto.did_matches_hash("did:plc:test2", "did:plc:user1", &hash1));

    // Test batch hashing
    let dids = vec!["did:plc:test1".to_string(), "did:plc:test2".to_string()];
    let hashes = crypto.hash_dids_batch(&dids, "did:plc:user1");

    assert_eq!(hashes.len(), 2);
    assert_eq!(hashes[0], hash1);
}

#[test]
fn hash_is_hex_of_expected_length() {
    let crypto = crypto_with_secret();
    let h = crypto.hash_did("did:plc:someone", "did:plc:reader");
    assert_eq!(h.len(), 64);
    assert!(h.chars().all(|c| c.is_ascii_hexdigit() && !c.is_ascii_uppercase()));
}

#[test]
fn known_digest_value() {
    // SHA-256 of "abc" is a published reference value; an empty user salt
    // and secret make the wrapper hash exactly that input.
    let crypto = CryptoUtils::new(String::new());
    let h = crypto.hash_did("abc", "");
    assert_eq!(h, "ba7816bf8f01cfea414140de5dae2223b00361a396177a9cb410ff61f20015ad");
}
