use blogsync::crypto::{gen_private_key, generate_nonce, CryptoError, SyncKey};

fn test_key() -> SyncKey {
    SyncKey::from_hex(&"ab".repeat(32)).unwrap()
}

#[test]
fn generated_key_is_64_hex_digits_and_parses() {
    let hex = gen_private_key();
    assert_eq!(hex.len(), 64);
    assert!(hex.chars().all(|c| c.is_ascii_hexdigit()));
    assert!(SyncKey::from_hex(&hex).is_some());
}

#[test]
fn two_generated_keys_differ() {
    assert_ne!(gen_private_key(), gen_private_key());
}

#[test]
fn key_parsing_rejects_bad_hex() {
    assert!(SyncKey::from_hex("").is_none());
    assert!(SyncKey::from_hex("abc").is_none());
    assert!(SyncKey::from_hex(&"zz".repeat(32)).is_none());
    assert!(SyncKey::from_hex(&"ab".repeat(31)).is_none());
    assert!(SyncKey::from_hex(&"ab".repeat(33)).is_none());
    assert!(SyncKey::from_hex(&"AB".repeat(32)).is_some());
}

#[test]
fn encrypt_then_decrypt_returns_plaintext() {
    let key = test_key();
    let nonce = generate_nonce();
    let plaintext = b"attack at dawn".to_vec();
    let ciphertext = key.encrypt(&nonce, &plaintext).unwrap();
    assert_eq!(ciphertext.len(), plaintext.len() + 16);
    assert_ne!(&ciphertext[..plaintext.len()], plaintext.as_slice());
    let opened = key.decrypt(&nonce, &ciphertext).unwrap();
    assert_eq!(opened, plaintext);
}

#[test]
fn decrypt_with_wrong_key_fails() {
    let key = test_key();
    let other = SyncKey::from_hex(&"cd".repeat(32)).unwrap();
    let nonce = generate_nonce();
    let ciphertext = key.encrypt(&nonce, b"secret").unwrap();
    assert_eq!(
        other.decrypt(&nonce, &ciphertext),
        Err(CryptoError::AuthenticationFailure)
    );
}

#[test]
fn decrypt_of_corrupted_ciphertext_fails() {
    let key = test_key();
    let nonce = generate_nonce();
    let mut ciphertext = key.encrypt(&nonce, b"secret").unwrap();
    let last = ciphertext.len() - 1;
    ciphertext[last] ^= 1;
    assert_eq!(
        key.decrypt(&nonce, &ciphertext),
        Err(CryptoError::AuthenticationFailure)
    );
}

#[test]
fn decrypt_with_wrong_nonce_fails() {
    let key = test_key();
    let nonce = vec![1u8; 12];
    let other_nonce = vec![2u8; 12];
    let ciphertext = key.encrypt(&nonce, b"secret").unwrap();
    assert_eq!(
        key.decrypt(&other_nonce, &ciphertext),
        Err(CryptoError::AuthenticationFailure)
    );
}

#[test]
fn nonces_are_12_bytes_and_vary() {
    let a = generate_nonce();
    let b = generate_nonce();
    assert_eq!(a.len(), 12);
    assert_eq!(b.len(), 12);
    assert_ne!(a, b);
}
