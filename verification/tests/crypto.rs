use base64::Engine;
use beach::auth::crypto::{decrypt, open_with_key, seal_with, seal_with_key, EncryptedBlob, KdfParams};
use beach::auth::error::AuthError;
use chacha20poly1305::aead::{Aead, KeyInit};

fn b64(text: &str) -> Vec<u8> {
    base64::engine::general_purpose::STANDARD.decode(text).unwrap()
}

fn default_params() -> KdfParams {
    KdfParams { memory_kib: 19456, iterations: 2, parallelism: 1 }
}

#[test]
fn sealing_with_a_key_records_nonce_salt_and_parameters() {
    let key = [7u8; 32];
    let blob = seal_with_key(&key, &[2u8; 16], &[1u8; 12], "hello").unwrap();
    assert_eq!(blob.nonce, "AQEBAQEBAQEBAQEB");
    assert_eq!(blob.salt, "AgICAgICAgICAgICAgICAg==");
    assert_eq!(blob.kdf, default_params());
    let sealed = b64(&blob.ciphertext);
    assert_eq!(sealed.len(), 5 + 16);
    assert_ne!(&sealed[..5], b"hello");
}

#[test]
fn sealing_an_empty_text_leaves_only_the_tag() {
    let blob = seal_with_key(&[3u8; 32], &[2u8; 16], &[1u8; 12], "").unwrap();
    assert_eq!(b64(&blob.ciphertext).len(), 16);
    assert_eq!(open_with_key(&[3u8; 32], &[1u8; 12], &b64(&blob.ciphertext)).unwrap(), "");
}

#[test]
fn what_a_key_seals_it_opens() {
    let key = [7u8; 32];
    let nonce = [1u8; 12];
    let blob = seal_with_key(&key, &[2u8; 16], &nonce, "refresh-token").unwrap();
    let opened = open_with_key(&key, &nonce, &b64(&blob.ciphertext)).unwrap();
    assert_eq!(opened, "refresh-token");
}

#[test]
fn another_key_or_nonce_does_not_open() {
    let key = [7u8; 32];
    let nonce = [1u8; 12];
    let blob = seal_with_key(&key, &[2u8; 16], &nonce, "refresh-token").unwrap();
    let sealed = b64(&blob.ciphertext);
    assert!(matches!(open_with_key(&[8u8; 32], &nonce, &sealed), Err(AuthError::Encryption(_))));
    assert!(matches!(open_with_key(&key, &[2u8; 12], &sealed), Err(AuthError::Encryption(_))));
}

#[test]
fn a_tampered_ciphertext_does_not_open() {
    let key = [7u8; 32];
    let nonce = [1u8; 12];
    let blob = seal_with_key(&key, &[2u8; 16], &nonce, "refresh-token").unwrap();
    let mut sealed = b64(&blob.ciphertext);
    sealed[0] ^= 1;
    assert!(matches!(open_with_key(&key, &nonce, &sealed), Err(AuthError::Encryption(_))));
}

#[test]
fn sealed_bytes_that_are_not_utf8_do_not_open() {
    let key = [5u8; 32];
    let nonce = [4u8; 12];
    let cipher = chacha20poly1305::ChaCha20Poly1305::new(chacha20poly1305::Key::from_slice(&key));
    let sealed = cipher.encrypt(chacha20poly1305::Nonce::from_slice(&nonce), &[0xffu8, 0xfe][..]).unwrap();
    assert!(matches!(open_with_key(&key, &nonce, &sealed), Err(AuthError::Encryption(_))));
}

#[test]
fn sealing_with_a_passphrase_is_fixed_by_salt_and_nonce() {
    let salt = [9u8; 16];
    let nonce = [1u8; 12];
    let a = seal_with("pw", "secret", &salt, &nonce).unwrap();
    let b = seal_with("pw", "secret", &salt, &nonce).unwrap();
    assert_eq!(a.ciphertext, b.ciphertext);
    assert_eq!(a.salt, "CQkJCQkJCQkJCQkJCQkJCQ==");
    assert_eq!(a.nonce, "AQEBAQEBAQEBAQEB");
    assert_eq!(a.kdf, default_params());
    let c = seal_with("other", "secret", &salt, &nonce).unwrap();
    assert_ne!(a.ciphertext, c.ciphertext);
}

#[test]
fn what_a_passphrase_seals_decrypt_opens() {
    let blob = seal_with("correct horse", "token", &[9u8; 16], &[1u8; 12]).unwrap();
    assert_eq!(decrypt("correct horse", &blob).unwrap(), "token");
    assert!(matches!(decrypt("wrong horse", &blob), Err(AuthError::Encryption(_))));
}

#[test]
fn a_short_nonce_in_a_blob_is_refused() {
    let mut blob: EncryptedBlob = seal_with("pw", "token", &[9u8; 16], &[1u8; 12]).unwrap();
    blob.nonce = "AQEBAQ==".to_string();
    assert!(matches!(decrypt("pw", &blob), Err(AuthError::Encryption(_))));
}
