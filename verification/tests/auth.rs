use ore_stats::auth::{
    extract_bearer_token, generate_session_token, hash_password, hash_token, should_blacklist,
    verify_password,
};

#[test]
fn test_password_hashing() {
    let password = "test_password_123";
    let hash = hash_password(password).unwrap();

    assert!(verify_password(password, &hash));
    assert!(!verify_password("wrong_password", &hash));
}

#[test]
fn test_token_generation() {
    let token1 = generate_session_token();
    let token2 = generate_session_token();

    // 64 bytes = 128 hex chars
    assert_eq!(token1.len(), 128);
    assert_eq!(token2.len(), 128);

    // Should be different
    assert_ne!(token1, token2);
}

#[test]
fn test_token_hashing() {
    let token = "test_token";
    let hash1 = hash_token(token);
    let hash2 = hash_token(token);

    // SHA256 = 32 bytes = 64 hex chars
    assert_eq!(hash1.len(), 64);

    // Same input = same hash
    assert_eq!(hash1, hash2);

    // Different input = different hash
    assert_ne!(hash_token("other_token"), hash1);
}

#[test]
fn token_hash_is_hex_sha256() {
    assert_eq!(
        hash_token("abc"),
        "ba7816bf8f01cfea414140de5dae2223b00361a396177a9cb410ff61f20015ad"
    );
}

#[test]
fn malformed_hash_never_verifies() {
    assert!(!verify_password("x", "not a phc string"));
}

#[test]
fn bearer_token_needs_exact_prefix() {
    assert_eq!(extract_bearer_token(Some("Bearer abc")), Some("abc".to_string()));
    assert_eq!(extract_bearer_token(Some("Bearer ")), Some(String::new()));
    assert_eq!(extract_bearer_token(Some("bearer abc")), None);
    assert_eq!(extract_bearer_token(Some("Token abc")), None);
    assert_eq!(extract_bearer_token(None), None);
}

#[test]
fn three_failures_blacklist() {
    assert!(!should_blacklist(2));
    assert!(should_blacklist(3));
    assert!(should_blacklist(4));
}
