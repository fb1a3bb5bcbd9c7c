use aes_gcm::aead::{Aead, KeyInit};
use aes_gcm::{Aes256Gcm, Nonce};
use argon2::{Algorithm, Argon2, Params, Version};
use vortex_gui::crypto::{
    decrypt_at_rest, derive_key, encrypt_at_rest, open_vortex, random_key, seal_vortex, CryptoError,
};

#[test]
fn aes_gcm_roundtrip() {
    let key = random_key().unwrap();
    let plain = b"super-secret-password";
    let ct = encrypt_at_rest(&key, plain).unwrap();
    let out = decrypt_at_rest(&key, &ct).unwrap();
    assert_eq!(out, plain);
}

#[test]
fn vortex_seal_open() {
    let payload = br#"{"version":1,"hosts":[]}"#;
    let sealed = seal_vortex("twelvechars!!", payload).unwrap();
    assert_eq!(&sealed[..4], b"VRTX");
    let out = open_vortex("twelvechars!!", &sealed).unwrap();
    assert_eq!(out, payload);
    assert!(open_vortex("wrong-password-xx", &sealed).is_err());
}

#[test]
fn weak_password() {
    let err = seal_vortex("short", b"{}").unwrap_err();
    assert!(matches!(err, CryptoError::WeakPassword));
}

/// A `.vortex` file as the TUI writes it: `VRTX`, version 1, a 16-byte salt,
/// then a 12-byte nonce and the AES-256-GCM ciphertext under the Argon2id
/// (t=3, 64 MiB, p=4) key of the password.
fn tui_file(password: &str, payload: &[u8]) -> Vec<u8> {
    let salt = [7u8; 16];
    let nonce = [9u8; 12];
    let params = Params::new(64 * 1024, 3, 4, Some(32)).unwrap();
    let mut key = [0u8; 32];
    Argon2::new(Algorithm::Argon2id, Version::V0x13, params)
        .hash_password_into(password.as_bytes(), &salt, &mut key)
        .unwrap();
    let cipher = Aes256Gcm::new_from_slice(&key).unwrap();
    let ct = cipher.encrypt(Nonce::from_slice(&nonce), payload).unwrap();
    let mut out = b"VRTX".to_vec();
    out.push(1);
    out.extend_from_slice(&salt);
    out.extend_from_slice(&nonce);
    out.extend_from_slice(&ct);
    out
}

#[test]
fn open_tui_fixture() {
    let data = tui_file("twelvechars!!", br#"{"version":1,"hosts":[]}"#);
    let out = open_vortex("twelvechars!!", &data).unwrap();
    assert_eq!(out, br#"{"version":1,"hosts":[]}"#);
}

#[test]
fn open_rejects_bad_magic_version_and_short_input() {
    let mut data = tui_file("twelvechars!!", b"{}");
    assert!(matches!(open_vortex("twelvechars!!", &data[..20]), Err(CryptoError::ShortCiphertext)));
    data[4] = 2;
    assert!(matches!(open_vortex("twelvechars!!", &data), Err(CryptoError::BadVersion(2))));
    data[0] = b'X';
    assert!(matches!(open_vortex("twelvechars!!", &data), Err(CryptoError::BadMagic)));
}

#[test]
fn wrong_password_fails_authentication() {
    let data = tui_file("twelvechars!!", b"{}");
    assert!(matches!(open_vortex("twelvechars!?", &data), Err(CryptoError::AuthFailed)));
}

#[test]
fn derive_key_is_deterministic() {
    let a = derive_key(b"twelvechars!!", &[1u8; 16]).unwrap();
    let b = derive_key(b"twelvechars!!", &[1u8; 16]).unwrap();
    let c = derive_key(b"twelvechars!!", &[2u8; 16]).unwrap();
    assert_eq!(a.len(), 32);
    assert_eq!(a, b);
    assert_ne!(a, c);
}

#[test]
fn at_rest_rejects_short_ciphertext() {
    let key = random_key().unwrap();
    assert!(matches!(decrypt_at_rest(&key, &[0u8; 5]), Err(CryptoError::ShortCiphertext)));
}

#[test]
fn sealed_file_differs_per_seal() {
    let a = seal_vortex("twelvechars!!", b"x").unwrap();
    let b = seal_vortex("twelvechars!!", b"x").unwrap();
    assert_ne!(a, b);
    assert_eq!(open_vortex("twelvechars!!", &b).unwrap(), b"x");
}

#[test]
fn wrong_key_length_is_refused() {
    let err = encrypt_at_rest(&[1u8; 16], b"x").unwrap_err();
    assert!(matches!(err, CryptoError::Other(_)));
    assert_eq!(err.message(), "crypto: master key must be 32 bytes");
}
