//! The database master key: how a stored key is read back, how a new one is
//! written down, and which of the stored copies is used.
use vstd::prelude::*;

use crate::crypto::KEY_SIZE;
use crate::error::AppError;
use crate::text::{self, trim_seq};
use vstd::utf8::encode_utf8;
use base64::Engine;

verus! {

/// The standard Base64 alphabet, with `=` padding.
pub open spec fn is_base64_char(c: char) -> bool {
    ('A' <= c && c <= 'Z') || ('a' <= c && c <= 'z') || ('0' <= c && c <= '9') || c == '+' || c == '/'
        || c == '='
}

/// Standard Base64 decoding (with padding), if the text is valid.
pub uninterp spec fn spec_base64_decode(text: Seq<u8>) -> Option<Seq<u8>>;

/// Standard Base64 encoding (with padding).
pub uninterp spec fn spec_base64_encode(bytes: Seq<u8>) -> Seq<char>;

/// `base64::engine::general_purpose::STANDARD.decode`. Claims: the result is
/// the named decoding.
#[verifier::external_body]
pub(crate) fn base64_decode(text: &[u8]) -> (r: Option<Vec<u8>>)
    ensures
        match r {
            Some(b) => spec_base64_decode(text@) == Some(b@),
            None => spec_base64_decode(text@) is None,
        },
{
    base64::engine::general_purpose::STANDARD.decode(text).ok()
}

/// `base64::engine::general_purpose::STANDARD.encode`. Claims: the result is
/// the named encoding, made of the standard alphabet, and decoding it gives
/// the bytes back.
#[verifier::external_body]
pub(crate) fn base64_encode(bytes: &[u8]) -> (r: String)
    ensures
        r@ == spec_base64_encode(bytes@),
        forall|i: int| 0 <= i < r@.len() ==> is_base64_char(#[trigger] r@[i]),
        spec_base64_decode(encode_utf8(r@)) == Some(bytes@),
{
    base64::engine::general_purpose::STANDARD.encode(bytes)
}

/// The key that a stored text holds: its trimmed Base64, when that decodes
/// to exactly a key's length.
pub open spec fn stored_key(text: Seq<char>) -> Option<Seq<u8>> {
    match spec_base64_decode(encode_utf8(trim_seq(text))) {
        Some(k) => if k.len() == KEY_SIZE {
            Some(k)
        } else {
            None
        },
        None => None,
    }
}

/// The key that a stored text holds.
pub fn decode_master_key(stored: &str) -> (r: Option<Vec<u8>>)
    ensures
        match stored_key(stored@) {
            Some(k) => r matches Some(v) && v@ == k,
            None => r is None,
        },
{
    let t = text::trim(stored);
    match base64_decode(t.as_bytes()) {
        Some(k) => if k.len() == KEY_SIZE {
            Some(k)
        } else {
            None
        },
        None => None,
    }
}

/// The text a key is stored as.
pub fn encode_master_key(key: &[u8]) -> (r: String)
    ensures
        r@ == spec_base64_encode(key@),
        key@.len() == KEY_SIZE ==> stored_key(r@) == Some(key@),
{
    let r = base64_encode(key);
    proof {
        text::lemma_trim_noop(r@);
    }
    r
}

/// A stored key reads back as itself.
pub proof fn lemma_master_key_roundtrip(key: Seq<u8>, stored: Seq<char>)
    requires
        key.len() == KEY_SIZE,
        stored == spec_base64_encode(key),
        forall|i: int| 0 <= i < stored.len() ==> is_base64_char(#[trigger] stored[i]),
        spec_base64_decode(encode_utf8(stored)) == Some(key),
    ensures
        stored_key(stored) == Some(key),
{
    text::lemma_trim_noop(stored);
}

/// Which master key to use.
#[derive(Debug)]
pub enum MasterKeyChoice {
    /// The key in the OS keyring.
    Keyring(Vec<u8>),
    /// The key in the fallback file; its trimmed text is copied to the keyring.
    File(Vec<u8>, String),
    /// Neither holds a key: generate one and store it in both places.
    Generate,
}

/// Which master key to use: the keyring's if it holds one, else the fallback
/// file's, else a new one.
pub fn choose_master_key(keyring: Option<&str>, file: Option<&str>) -> (c: MasterKeyChoice)
    ensures
        match keyring {
            Some(k) if stored_key(k@) is Some => c matches MasterKeyChoice::Keyring(v) && Some(v@) == stored_key(k@),
            _ => match file {
                Some(f) if stored_key(f@) is Some => c matches MasterKeyChoice::File(v, t) && Some(v@) == stored_key(f@)
                    && t@ == trim_seq(f@),
                _ => c is Generate,
            },
        },
{
    if let Some(k) = keyring {
        if let Some(v) = decode_master_key(k) {
            return MasterKeyChoice::Keyring(v);
        }
    }
    if let Some(f) = file {
        if let Some(v) = decode_master_key(f) {
            return MasterKeyChoice::File(v, String::from_str(text::trim(f)));
        }
    }
    MasterKeyChoice::Generate
}

/// The bytes a terminal sends, from the Base64 text the UI passes.
pub fn decode_terminal_input(data: &str) -> (r: Result<Vec<u8>, AppError>)
    ensures
        match spec_base64_decode(encode_utf8(data@)) {
            Some(b) => r matches Ok(v) && v@ == b,
            None => r matches Err(e) && e is Msg && e.message_seq() == "invalid payload"@,
        },
{
    match base64_decode(data.as_bytes()) {
        Some(b) => Ok(b),
        None => Err(AppError::msg("invalid payload")),
    }
}

} // verus!
