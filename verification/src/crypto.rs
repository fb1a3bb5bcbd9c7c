//! Secrets at rest (AES-256-GCM under the master key) and the `.vortex`
//! export format: magic `VRTX`, version byte, Argon2id salt, then an
//! AES-256-GCM box (nonce followed by ciphertext and tag).
use vstd::prelude::*;
use vstd::slice::slice_subrange;

use aes_gcm::aead::{Aead, AeadCore, KeyInit, OsRng};
use aes_gcm::{Aes256Gcm, Nonce};
use argon2::{Algorithm, Argon2, Params, Version};
use rand::RngCore;

use crate::text;

verus! {

pub const FILE_VERSION: u8 = 1;

pub const SALT_SIZE: usize = 16;

pub const NONCE_SIZE: usize = 12;

pub const KEY_SIZE: usize = 32;

/// Length of the AES-GCM authentication tag that follows the ciphertext.
pub const TAG_SIZE: usize = 16;

pub const ARGON_TIME: u32 = 3;

pub const ARGON_MEMORY_KIB: u32 = 64 * 1024;

pub const ARGON_THREADS: u32 = 4;

pub const MIN_EXPORT_PASSWORD: usize = 12;

/// Longest plaintext that AES-GCM accepts (`aes_gcm::P_MAX`).
pub const AES_GCM_MAX_PLAINTEXT: u64 = 68719476736;

/// Longest password and salt that Argon2 accepts.
pub const ARGON_MAX_INPUT: usize = 0xFFFF_FFFF;

/// Shortest salt that Argon2 accepts.
pub const ARGON_MIN_SALT: usize = 8;

/// Length of the `.vortex` header: magic, version and salt.
pub const HEADER_SIZE: usize = 21;

/// The `.vortex` magic, `VRTX`.
pub open spec fn file_magic() -> Seq<u8> {
    seq![0x56u8, 0x52u8, 0x54u8, 0x58u8]
}

/// The Argon2id key (version 0x13) of `out_len` bytes for a password and
/// salt, with `t_cost` passes over `m_cost` KiB of memory in `p_cost` lanes.
pub uninterp spec fn spec_argon2id_key(
    password: Seq<u8>,
    salt: Seq<u8>,
    t_cost: u32,
    m_cost: u32,
    p_cost: u32,
    out_len: usize,
) -> Seq<u8>;

/// The export key for a password and salt: Argon2id with t = 3, 64 MiB,
/// p = 4, 32 bytes.
pub open spec fn export_key(password: Seq<u8>, salt: Seq<u8>) -> Seq<u8> {
    spec_argon2id_key(password, salt, ARGON_TIME, ARGON_MEMORY_KIB, ARGON_THREADS, KEY_SIZE)
}

/// AES-256-GCM encryption of `plaintext` under `key` and `nonce`: ciphertext
/// followed by the 16-byte tag.
pub uninterp spec fn spec_aes256_gcm_seal(key: Seq<u8>, nonce: Seq<u8>, plaintext: Seq<u8>) -> Seq<u8>;

/// AES-256-GCM decryption: the plaintext when the tag verifies, otherwise `None`.
pub uninterp spec fn spec_aes256_gcm_open(key: Seq<u8>, nonce: Seq<u8>, sealed: Seq<u8>) -> Option<Seq<u8>>;

/// Argon2id password hashing: `argon2::Params::new(m_cost, t_cost, p_cost,
/// Some(out_len))` and `Argon2::new(Argon2id, V0x13, ..).hash_password_into`
/// into `out_len` bytes. `requires` holds the parameters to what
/// `Params::new` accepts. Claims: it fails exactly when the password or salt
/// has a length that Argon2 refuses, and otherwise yields the named key of
/// `out_len` bytes.
#[verifier::external_body]
fn argon2id_hash(
    password: &[u8],
    salt: &[u8],
    t_cost: u32,
    m_cost: u32,
    p_cost: u32,
    out_len: usize,
) -> (r: Result<Vec<u8>, String>)
    requires
        t_cost >= 1,
        1 <= p_cost <= 0xFF_FFFF,
        m_cost >= 8,
        m_cost >= 8 * p_cost,
        4 <= out_len <= 0xFFFF_FFFF,
    ensures
        r is Ok <==> (password@.len() <= ARGON_MAX_INPUT && ARGON_MIN_SALT <= salt@.len()
            <= ARGON_MAX_INPUT),
        r matches Ok(k) ==> k@ == spec_argon2id_key(password@, salt@, t_cost, m_cost, p_cost, out_len)
            && k@.len() == out_len,
{
    let params = match Params::new(m_cost, t_cost, p_cost, Some(out_len)) {
        Ok(p) => p,
        Err(e) => return Err(e.to_string()),
    };
    let argon = Argon2::new(Algorithm::Argon2id, Version::V0x13, params);
    let mut out = vec![0u8; out_len];
    match argon.hash_password_into(password, salt, &mut out) {
        Ok(()) => Ok(out),
        Err(e) => Err(e.to_string()),
    }
}

/// A fresh AES-GCM nonce from the OS generator (`Aes256Gcm::generate_nonce`).
/// Claims only its length: the value is random.
#[verifier::external_body]
fn aes_gcm_random_nonce() -> (n: Vec<u8>)
    ensures
        n@.len() == NONCE_SIZE,
{
    Aes256Gcm::generate_nonce(&mut OsRng).to_vec()
}

/// AES-256-GCM encryption (`Aead::encrypt` of `Aes256Gcm`). Claims: it fails
/// exactly for plaintexts longer than `P_MAX`; otherwise it yields the named
/// ciphertext, tag appended (16 bytes longer than the plaintext), which
/// decrypts under the same key and nonce to the plaintext.
#[verifier::external_body]
fn aes256_gcm_seal(key: &[u8], nonce: &[u8], plaintext: &[u8]) -> (r: Option<Vec<u8>>)
    requires
        key@.len() == KEY_SIZE,
        nonce@.len() == NONCE_SIZE,
    ensures
        r is Some <==> plaintext@.len() <= AES_GCM_MAX_PLAINTEXT,
        r matches Some(c) ==> {
            &&& c@ == spec_aes256_gcm_seal(key@, nonce@, plaintext@)
            &&& c@.len() == plaintext@.len() + TAG_SIZE
            &&& spec_aes256_gcm_open(key@, nonce@, c@) == Some(plaintext@)
        },
{
    let cipher = Aes256Gcm::new_from_slice(key).ok()?;
    cipher.encrypt(Nonce::from_slice(nonce), plaintext).ok()
}

/// AES-256-GCM decryption (`Aead::decrypt` of `Aes256Gcm`). Claims: the result
/// is the named decryption.
#[verifier::external_body]
fn aes256_gcm_open(key: &[u8], nonce: &[u8], sealed: &[u8]) -> (r: Option<Vec<u8>>)
    requires
        key@.len() == KEY_SIZE,
        nonce@.len() == NONCE_SIZE,
    ensures
        r matches Some(p) ==> spec_aes256_gcm_open(key@, nonce@, sealed@) == Some(p@),
        r is None ==> spec_aes256_gcm_open(key@, nonce@, sealed@) is None,
{
    let cipher = Aes256Gcm::new_from_slice(key).ok()?;
    cipher.decrypt(Nonce::from_slice(nonce), sealed).ok()
}

/// `n` bytes from the thread-local generator (`RngCore::fill_bytes` of
/// `rand::thread_rng()`). Claims only the length: the bytes are random.
#[verifier::external_body]
pub(crate) fn random_bytes(n: usize) -> (b: Vec<u8>)
    ensures
        b@.len() == n,
{
    let mut b = vec![0u8; n];
    rand::thread_rng().fill_bytes(&mut b);
    b
}

/// Why a cryptographic operation failed.
#[derive(Debug)]
pub enum CryptoError {
    ShortCiphertext,
    BadMagic,
    BadVersion(u8),
    AuthFailed,
    WeakPassword,
    Other(String),
}

/// The failure of a cryptographic operation, with an `Other` message by its text.
pub enum CryptoFailure {
    ShortCiphertext,
    BadMagic,
    BadVersion(u8),
    AuthFailed,
    WeakPassword,
    Other(Seq<char>),
}

impl CryptoFailure {
    /// The message that an error of this kind displays.
    pub open spec fn message_seq(self) -> Seq<char> {
        match self {
            CryptoFailure::ShortCiphertext => "ciphertext too short"@,
            CryptoFailure::BadMagic => "invalid .vortex magic"@,
            CryptoFailure::BadVersion(v) => "unsupported .vortex version: "@ + text::decimal_seq(
                v as nat,
            ),
            CryptoFailure::AuthFailed => "decryption failed: wrong password or corrupted file"@,
            CryptoFailure::WeakPassword => "password must be at least 12 characters"@,
            CryptoFailure::Other(m) => "crypto: "@ + m,
        }
    }
}

impl CryptoError {
    pub open spec fn failure(&self) -> CryptoFailure {
        match self {
            CryptoError::ShortCiphertext => CryptoFailure::ShortCiphertext,
            CryptoError::BadMagic => CryptoFailure::BadMagic,
            CryptoError::BadVersion(v) => CryptoFailure::BadVersion(*v),
            CryptoError::AuthFailed => CryptoFailure::AuthFailed,
            CryptoError::WeakPassword => CryptoFailure::WeakPassword,
            CryptoError::Other(m) => CryptoFailure::Other(m@),
        }
    }

    /// The message that the error displays.
    pub open spec fn message_seq(&self) -> Seq<char> {
        self.failure().message_seq()
    }

    /// The message that the error displays.
    pub fn message(&self) -> (m: String)
        ensures
            m@ == self.message_seq(),
    {
        match self {
            CryptoError::ShortCiphertext => String::from_str("ciphertext too short"),
            CryptoError::BadMagic => String::from_str("invalid .vortex magic"),
            CryptoError::BadVersion(v) => {
                let mut m = String::from_str("unsupported .vortex version: ");
                let d = text::u64_to_decimal(*v as u64);
                m.append(d.as_str());
                m
            },
            CryptoError::AuthFailed => String::from_str(
                "decryption failed: wrong password or corrupted file",
            ),
            CryptoError::WeakPassword => String::from_str(
                "password must be at least 12 characters",
            ),
            CryptoError::Other(msg) => {
                let mut m = String::from_str("crypto: ");
                m.append(msg.as_str());
                m
            },
        }
    }
}

/// The message of a key of the wrong length.
pub open spec fn bad_key_message() -> Seq<char> {
    "master key must be 32 bytes"@
}

/// What decrypting `data` (nonce, then ciphertext and tag) under `key` yields.
pub open spec fn aes_gcm_decrypt_spec(key: Seq<u8>, data: Seq<u8>) -> Result<Seq<u8>, CryptoFailure> {
    if key.len() != KEY_SIZE {
        Err(CryptoFailure::Other(bad_key_message()))
    } else if data.len() < NONCE_SIZE {
        Err(CryptoFailure::ShortCiphertext)
    } else {
        match spec_aes256_gcm_open(
            key,
            data.subrange(0, NONCE_SIZE as int),
            data.subrange(NONCE_SIZE as int, data.len() as int),
        ) {
            Some(p) => Ok(p),
            None => Err(CryptoFailure::AuthFailed),
        }
    }
}

/// `data` is a nonce followed by a box that decrypts under `key` to `plaintext`.
pub open spec fn aes_gcm_box_of(key: Seq<u8>, plaintext: Seq<u8>, data: Seq<u8>) -> bool {
    &&& key.len() == KEY_SIZE
    &&& data.len() == NONCE_SIZE + plaintext.len() + TAG_SIZE
    &&& spec_aes256_gcm_open(
        key,
        data.subrange(0, NONCE_SIZE as int),
        data.subrange(NONCE_SIZE as int, data.len() as int),
    ) == Some(plaintext)
}

/// Derive the 32-byte export key from a password and salt with Argon2id.
pub fn derive_key(password: &[u8], salt: &[u8]) -> (r: Result<Vec<u8>, CryptoError>)
    ensures
        r is Ok <==> (password@.len() <= ARGON_MAX_INPUT && ARGON_MIN_SALT <= salt@.len()
            <= ARGON_MAX_INPUT),
        r matches Ok(k) ==> k@ == export_key(password@, salt@) && k@.len() == KEY_SIZE,
        r matches Err(e) ==> e is Other,
{
    match argon2id_hash(password, salt, ARGON_TIME, ARGON_MEMORY_KIB, ARGON_THREADS, KEY_SIZE) {
        Ok(k) => Ok(k),
        Err(e) => Err(CryptoError::Other(e)),
    }
}

/// AES-256-GCM with a fresh random nonce; the output is the nonce followed by
/// ciphertext and tag.
pub fn encrypt_aes_gcm(key: &[u8], plaintext: &[u8]) -> (r: Result<Vec<u8>, CryptoError>)
    ensures
        key@.len() != KEY_SIZE ==> (r matches Err(e) && e.failure() == CryptoFailure::Other(
            bad_key_message(),
        )),
        key@.len() == KEY_SIZE && plaintext@.len() > AES_GCM_MAX_PLAINTEXT ==> r matches Err(
            CryptoError::AuthFailed,
        ),
        key@.len() == KEY_SIZE && plaintext@.len() <= AES_GCM_MAX_PLAINTEXT ==> r is Ok,
        r matches Ok(out) ==> aes_gcm_box_of(key@, plaintext@, out@),
{
    if key.len() != KEY_SIZE {
        return Err(CryptoError::Other(String::from_str("master key must be 32 bytes")));
    }
    let nonce = aes_gcm_random_nonce();
    let sealed = match aes256_gcm_seal(key, nonce.as_slice(), plaintext) {
        Some(c) => c,
        None => return Err(CryptoError::AuthFailed),
    };
    let mut out: Vec<u8> = Vec::new();
    out.extend_from_slice(nonce.as_slice());
    out.extend_from_slice(sealed.as_slice());
    proof {
        assert(out@ =~= nonce@ + sealed@);
        assert(out@.subrange(0, NONCE_SIZE as int) =~= nonce@);
        assert(out@.subrange(NONCE_SIZE as int, out@.len() as int) =~= sealed@);
    }
    Ok(out)
}

/// AES-256-GCM decryption of a nonce-prefixed box.
pub fn decrypt_aes_gcm(key: &[u8], data: &[u8]) -> (r: Result<Vec<u8>, CryptoError>)
    ensures
        r matches Ok(p) ==> aes_gcm_decrypt_spec(key@, data@) == Ok::<Seq<u8>, CryptoFailure>(
            p@,
        ),
        r matches Err(e) ==> aes_gcm_decrypt_spec(key@, data@) == Err::<Seq<u8>, CryptoFailure>(
            e.failure(),
        ),
{
    if key.len() != KEY_SIZE {
        return Err(CryptoError::Other(String::from_str("master key must be 32 bytes")));
    }
    if data.len() < NONCE_SIZE {
        return Err(CryptoError::ShortCiphertext);
    }
    let nonce = slice_subrange(data, 0, NONCE_SIZE);
    let sealed = slice_subrange(data, NONCE_SIZE, data.len());
    match aes256_gcm_open(key, nonce, sealed) {
        Some(p) => Ok(p),
        None => Err(CryptoError::AuthFailed),
    }
}

/// Encrypt a secret for the local database under the master key.
pub fn encrypt_at_rest(master_key: &[u8], plaintext: &[u8]) -> (r: Result<Vec<u8>, CryptoError>)
    ensures
        master_key@.len() != KEY_SIZE ==> (r matches Err(e) && e.failure()
            == CryptoFailure::Other(bad_key_message())),
        master_key@.len() == KEY_SIZE && plaintext@.len() > AES_GCM_MAX_PLAINTEXT ==> r matches Err(
            CryptoError::AuthFailed,
        ),
        master_key@.len() == KEY_SIZE && plaintext@.len() <= AES_GCM_MAX_PLAINTEXT ==> r is Ok,
        r matches Ok(out) ==> aes_gcm_box_of(master_key@, plaintext@, out@),
{
    encrypt_aes_gcm(master_key, plaintext)
}

/// Decrypt a secret stored in the local database under the master key.
pub fn decrypt_at_rest(master_key: &[u8], ciphertext: &[u8]) -> (r: Result<Vec<u8>, CryptoError>)
    ensures
        r matches Ok(p) ==> aes_gcm_decrypt_spec(master_key@, ciphertext@) == Ok::<
            Seq<u8>,
            CryptoFailure,
        >(p@),
        r matches Err(e) ==> aes_gcm_decrypt_spec(master_key@, ciphertext@) == Err::<
            Seq<u8>,
            CryptoFailure,
        >(e.failure()),
{
    decrypt_aes_gcm(master_key, ciphertext)
}

/// Decrypting what was encrypted under the same master key gives the plaintext back.
pub proof fn lemma_at_rest_roundtrip(key: Seq<u8>, plaintext: Seq<u8>, stored: Seq<u8>)
    requires
        aes_gcm_box_of(key, plaintext, stored),
    ensures
        aes_gcm_decrypt_spec(key, stored) == Ok::<Seq<u8>, CryptoFailure>(plaintext),
{
}

/// The bytes of a password as the export key derivation reads them (UTF-8).
pub open spec fn password_bytes(password: Seq<char>) -> Seq<u8> {
    vstd::utf8::encode_utf8(password)
}

/// Shortest well-formed `.vortex` file: header, nonce and tag.
pub open spec fn vortex_min_len() -> int {
    HEADER_SIZE + NONCE_SIZE + TAG_SIZE
}

/// The file starts with the magic and the supported version.
pub open spec fn vortex_header_ok(data: Seq<u8>) -> bool {
    &&& data.len() >= vortex_min_len()
    &&& data.subrange(0, 4) == file_magic()
    &&& data[4] == FILE_VERSION
}

/// The salt stored in a `.vortex` file.
pub open spec fn vortex_salt(data: Seq<u8>) -> Seq<u8> {
    data.subrange(5, HEADER_SIZE as int)
}

/// The box (nonce, ciphertext and tag) stored in a `.vortex` file.
pub open spec fn vortex_box(data: Seq<u8>) -> Seq<u8> {
    data.subrange(HEADER_SIZE as int, data.len() as int)
}

/// The payload that a well-formed `.vortex` file opens to under a password.
pub open spec fn vortex_payload(password: Seq<u8>, data: Seq<u8>) -> Option<Seq<u8>> {
    let b = vortex_box(data);
    spec_aes256_gcm_open(
        export_key(password, vortex_salt(data)),
        b.subrange(0, NONCE_SIZE as int),
        b.subrange(NONCE_SIZE as int, b.len() as int),
    )
}

/// `data` is a `.vortex` file of `payload` sealed under `password`: magic,
/// version, a salt, and a box that opens under the key derived from the
/// password and that salt.
pub open spec fn vortex_sealed(password: Seq<u8>, payload: Seq<u8>, data: Seq<u8>) -> bool {
    &&& MIN_EXPORT_PASSWORD <= password.len() <= ARGON_MAX_INPUT
    &&& data.len() == vortex_min_len() + payload.len()
    &&& vortex_header_ok(data)
    &&& aes_gcm_box_of(export_key(password, vortex_salt(data)), payload, vortex_box(data))
}

/// Seal an export payload under a password of at least 12 bytes.
pub fn seal_vortex(password: &str, payload: &[u8]) -> (r: Result<Vec<u8>, CryptoError>)
    ensures
        password_bytes(password@).len() < MIN_EXPORT_PASSWORD ==> r matches Err(
            CryptoError::WeakPassword,
        ),
        MIN_EXPORT_PASSWORD <= password_bytes(password@).len() <= ARGON_MAX_INPUT
            && payload@.len() <= AES_GCM_MAX_PLAINTEXT ==> r is Ok,
        password_bytes(password@).len() > ARGON_MAX_INPUT ==> r matches Err(CryptoError::Other(_)),
        payload@.len() > AES_GCM_MAX_PLAINTEXT && MIN_EXPORT_PASSWORD <= password_bytes(
            password@,
        ).len() <= ARGON_MAX_INPUT ==> r matches Err(CryptoError::AuthFailed),
        r matches Ok(out) ==> vortex_sealed(password_bytes(password@), payload@, out@),
{
    let pw = password.as_bytes();
    if pw.len() < MIN_EXPORT_PASSWORD {
        return Err(CryptoError::WeakPassword);
    }
    let salt = random_bytes(SALT_SIZE);
    let key = derive_key(pw, salt.as_slice())?;
    let sealed = encrypt_aes_gcm(key.as_slice(), payload)?;
    let mut out: Vec<u8> = Vec::new();
    out.push(0x56u8);
    out.push(0x52u8);
    out.push(0x54u8);
    out.push(0x58u8);
    out.push(FILE_VERSION);
    out.extend_from_slice(salt.as_slice());
    out.extend_from_slice(sealed.as_slice());
    proof {
        assert(out@ =~= seq![0x56u8, 0x52u8, 0x54u8, 0x58u8, FILE_VERSION] + salt@ + sealed@);
        assert(out@.subrange(0, 4) =~= file_magic());
        assert(vortex_salt(out@) =~= salt@);
        assert(vortex_box(out@) =~= sealed@);
    }
    Ok(out)
}

/// Open a `.vortex` file with its password.
pub fn open_vortex(password: &str, data: &[u8]) -> (r: Result<Vec<u8>, CryptoError>)
    ensures
        data@.len() < vortex_min_len() ==> r matches Err(CryptoError::ShortCiphertext),
        data@.len() >= vortex_min_len() && data@.subrange(0, 4) != file_magic() ==> r matches Err(
            CryptoError::BadMagic,
        ),
        data@.len() >= vortex_min_len() && data@.subrange(0, 4) == file_magic() && data@[4]
            != FILE_VERSION ==> (r matches Err(CryptoError::BadVersion(v)) && v == data@[4]),
        vortex_header_ok(data@) && password_bytes(password@).len() > ARGON_MAX_INPUT ==> r matches Err(
            CryptoError::Other(_),
        ),
        vortex_header_ok(data@) && password_bytes(password@).len() <= ARGON_MAX_INPUT ==> {
            &&& r matches Ok(p) ==> vortex_payload(password_bytes(password@), data@) == Some(p@)
            &&& r is Err ==> (vortex_payload(password_bytes(password@), data@) is None && r matches Err(
                CryptoError::AuthFailed,
            ))
        },
{
    if data.len() < HEADER_SIZE + NONCE_SIZE + TAG_SIZE {
        return Err(CryptoError::ShortCiphertext);
    }
    if !(data[0] == 0x56u8 && data[1] == 0x52u8 && data[2] == 0x54u8 && data[3] == 0x58u8) {
        proof {
            if data@.subrange(0, 4) == file_magic() {
                assert(data@.subrange(0, 4)[0] == data@[0]);
                assert(data@.subrange(0, 4)[1] == data@[1]);
                assert(data@.subrange(0, 4)[2] == data@[2]);
                assert(data@.subrange(0, 4)[3] == data@[3]);
            }
        }
        return Err(CryptoError::BadMagic);
    }
    proof {
        assert(data@.subrange(0, 4) =~= file_magic());
    }
    if data[4] != FILE_VERSION {
        return Err(CryptoError::BadVersion(data[4]));
    }
    let salt = slice_subrange(data, 5, HEADER_SIZE);
    let sealed = slice_subrange(data, HEADER_SIZE, data.len());
    let key = derive_key(password.as_bytes(), salt)?;
    decrypt_aes_gcm(key.as_slice(), sealed)
}

/// A `.vortex` file opens, under the password it was sealed with, to the
/// payload that was sealed.
pub proof fn lemma_vortex_roundtrip(password: Seq<u8>, payload: Seq<u8>, data: Seq<u8>)
    requires
        vortex_sealed(password, payload, data),
    ensures
        vortex_header_ok(data),
        vortex_payload(password, data) == Some(payload),
{
}

/// A fresh random 32-byte master key.
pub fn random_key() -> (r: Result<Vec<u8>, CryptoError>)
    ensures
        (r matches Ok(k) && k@.len() == KEY_SIZE),
{
    Ok(random_bytes(KEY_SIZE))
}

} // verus!
