use tunnix::crypto::{
    key_from_hash, make_nonce, split_sealed, Crypto, CryptoError, NONCE_SIZE, TAG_SIZE,
};

#[test]
fn test_key_derivation() {
    let key1 = Crypto::derive_key("test-password").unwrap();
    let key2 = Crypto::derive_key("test-password").unwrap();

    // Same password should produce same key (deterministic)
    assert_eq!(key1, key2);

    let key3 = Crypto::derive_key("different-password").unwrap();
    assert_ne!(key1, key3);
}

#[test]
fn test_encryption_decryption() {
    let crypto = Crypto::new("test-password-123").unwrap();
    let plaintext = b"Hello, World! This is a test message.";

    let encrypted = crypto.encrypt(plaintext).unwrap();
    let decrypted = crypto.decrypt(&encrypted).unwrap();

    assert_eq!(plaintext.as_slice(), decrypted.as_slice());
}

#[test]
fn test_different_keys_fail() {
    let crypto1 = Crypto::new("password1").unwrap();
    let crypto2 = Crypto::new("password2").unwrap();

    let plaintext = b"Secret message";
    let encrypted = crypto1.encrypt(plaintext).unwrap();

    // Should fail to decrypt with different password
    assert!(crypto2.decrypt(&encrypted).is_err());
}

#[test]
fn test_tampered_ciphertext_fails() {
    let crypto = Crypto::new("test-password").unwrap();
    let plaintext = b"Important data";

    let mut encrypted = crypto.encrypt(plaintext).unwrap();

    // Tamper with the ciphertext
    if let Some(byte) = encrypted.last_mut() {
        *byte ^= 0xFF;
    }

    // Should fail due to authentication tag mismatch
    assert!(crypto.decrypt(&encrypted).is_err());
}

#[test]
fn test_unique_nonces() {
    let crypto = Crypto::new("test").unwrap();
    let plaintext = b"Same message";

    let encrypted1 = crypto.encrypt(plaintext).unwrap();
    let encrypted2 = crypto.encrypt(plaintext).unwrap();

    // Same plaintext should produce different ciphertext due to unique nonces
    assert_ne!(encrypted1, encrypted2);

    // But both should decrypt to same plaintext
    assert_eq!(crypto.decrypt(&encrypted1).unwrap(), plaintext);
    assert_eq!(crypto.decrypt(&encrypted2).unwrap(), plaintext);
}

#[test]
fn two_ends_with_one_password_understand_each_other() {
    let client = Crypto::new("shared").unwrap();
    let server = Crypto::new("shared").unwrap();
    let sealed = client.encrypt(b"over the wire").unwrap();
    assert_eq!(server.decrypt(&sealed).unwrap(), b"over the wire");
}

#[test]
fn nonces_start_with_the_counter() {
    let nonce = make_nonce(0x0102_0304_0506_0708, [9, 10, 11, 12]);
    assert_eq!(nonce, vec![8, 7, 6, 5, 4, 3, 2, 1, 9, 10, 11, 12]);
    assert_ne!(make_nonce(1, [0; 4]), make_nonce(2, [0; 4]));

    let crypto = Crypto::new("counting").unwrap();
    let first = crypto.encrypt(b"").unwrap();
    let second = crypto.encrypt(b"").unwrap();
    assert_eq!(first[..8], [0, 0, 0, 0, 0, 0, 0, 0]);
    assert_eq!(second[..8], [1, 0, 0, 0, 0, 0, 0, 0]);
}

#[test]
fn sealing_is_laid_out_as_nonce_ciphertext_tag() {
    let crypto = Crypto::new("layout").unwrap();
    let nonce = make_nonce(7, [1, 2, 3, 4]);
    let sealed = crypto.encrypt_with_nonce(&nonce, b"hello").unwrap();
    assert_eq!(sealed.len(), NONCE_SIZE + 5 + TAG_SIZE);
    assert_eq!(sealed[..12], nonce[..]);
    assert_ne!(sealed[12..17], b"hello"[..]);
    // The nonce alone decides between two sealings of one message.
    assert_eq!(sealed, crypto.encrypt_with_nonce(&nonce, b"hello").unwrap());
    assert_eq!(crypto.decrypt(&sealed).unwrap(), b"hello");

    let (head, rest) = split_sealed(&sealed).unwrap();
    assert_eq!(head, &sealed[..12]);
    assert_eq!(rest, &sealed[12..]);
}

#[test]
fn the_empty_message_is_sealed_too() {
    let crypto = Crypto::new("empty").unwrap();
    let sealed = crypto.encrypt(b"").unwrap();
    assert_eq!(sealed.len(), 28);
    assert_eq!(crypto.decrypt(&sealed).unwrap(), b"");
}

#[test]
fn short_input_has_an_invalid_nonce() {
    let crypto = Crypto::new("short").unwrap();
    assert!(split_sealed(&[0u8; 27]).is_none());
    for n in [0usize, 1, 12, 27] {
        let err = crypto.decrypt(&vec![0u8; n]).unwrap_err();
        assert!(matches!(err, CryptoError::InvalidNonce));
    }
    let err = crypto.decrypt(&[0u8; 28]).unwrap_err();
    assert!(matches!(err, CryptoError::DecryptionFailed));
}

#[test]
fn a_changed_nonce_is_noticed() {
    let crypto = Crypto::new("nonce").unwrap();
    let mut sealed = crypto.encrypt(b"data").unwrap();
    sealed[0] ^= 1;
    assert!(matches!(crypto.decrypt(&sealed), Err(CryptoError::DecryptionFailed)));
}

#[test]
fn keys_come_from_the_hash() {
    let hash: Vec<u8> = (0..40).collect();
    let key = key_from_hash(Ok(Some(hash))).unwrap();
    assert_eq!(key.to_vec(), (0..32).collect::<Vec<u8>>());

    let none = key_from_hash(Ok(None)).unwrap_err();
    assert_eq!(none.message(), "Key derivation failed: No hash output");
    let err = key_from_hash(Err("too salty".to_string())).unwrap_err();
    assert_eq!(err.message(), "Key derivation failed: too salty");
}

#[test]
fn derived_keys_are_not_the_password() {
    let key = Crypto::derive_key("0123456789abcdef0123456789abcdef").unwrap();
    assert_ne!(&key[..], b"0123456789abcdef0123456789abcdef");
    assert_eq!(key.len(), 32);
}

#[test]
fn crypto_errors_speak() {
    assert_eq!(CryptoError::EncryptionFailed.message(), "Encryption failed");
    assert_eq!(CryptoError::DecryptionFailed.message(), "Decryption failed");
    assert_eq!(CryptoError::InvalidNonce.message(), "Invalid nonce");
    assert_eq!(
        CryptoError::KeyDerivationFailed("x".to_string()).message(),
        "Key derivation failed: x"
    );
}
