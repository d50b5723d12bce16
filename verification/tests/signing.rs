use sync_engine::security::signing::SigningEngine;

#[test]
fn test_sign_and_verify() {
    let engine = SigningEngine::generate("test-key");
    let data = b"test data to sign";
    let signature = engine.sign(data).unwrap();
    assert!(engine.verify(data, &signature).is_ok());
}

#[test]
fn test_verify_wrong_data() {
    let engine = SigningEngine::generate("test-key");
    let data = b"test data";
    let signature = engine.sign(data).unwrap();
    assert!(engine.verify(b"wrong data", &signature).is_err());
}

#[test]
fn test_public_key_roundtrip() {
    let engine = SigningEngine::generate("test-key");
    let pub_key = engine.public_key_bytes();
    assert_eq!(pub_key.len(), 32);
}

#[test]
fn signature_checks_against_public_key() {
    let engine = SigningEngine::generate("k1");
    let sig = engine.sign(b"payload").unwrap();
    assert_eq!(sig.len(), 64);
    let pk = engine.public_key_bytes();
    assert!(SigningEngine::verify_with_key(b"payload", &sig, &pk).is_ok());
    assert!(SigningEngine::verify_with_key(b"other", &sig, &pk).is_err());
    assert_eq!(engine.key_id(), "k1");
}

#[test]
fn signing_engine_from_fixed_secret_is_deterministic() {
    let secret = [7u8; 32];
    let a = SigningEngine::from_bytes(&secret, "a").unwrap();
    let b = SigningEngine::from_bytes(&secret, "b").unwrap();
    assert_eq!(a.public_key_bytes(), b.public_key_bytes());
    assert_eq!(a.sign(b"x").unwrap(), b.sign(b"x").unwrap());
    assert!(SigningEngine::from_bytes(&[1u8; 5], "short").is_err());
}
