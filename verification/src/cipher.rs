//! Authenticated encryption of one chunk at a time (XChaCha20-Poly1305).

use orion::errors::UnknownCryptoError;
use vstd::prelude::*;

use crate::encoding::{encode, hex_bytes, hex_string, is_hex, lemma_hex_round_trip};

verus! {

/// Length of a usable key in bytes.
pub const KEY_LEN: usize = 32;

/// Bytes that sealing adds to a plaintext: a 24-byte nonce in front and a
/// 16-byte tag behind.
pub const SEAL_OVERHEAD: usize = 40;

/// What opening `sealed` under `key` gives: the plaintext, or `None` where the
/// key is unusable, the input too short or the tag does not match.
pub uninterp spec fn opened(key: Seq<u8>, sealed: Seq<u8>) -> Option<Seq<u8>>;

/// `orion::errors::UnknownCryptoError`, the one error of the cipher; it says
/// nothing of its cause.
#[verifier::external_type_specification]
#[verifier::external_body]
pub struct ExUnknownCryptoError(orion::errors::UnknownCryptoError);

/// Calls `orion::aead::seal` with the key made by `SecretKey::from_slice`.
/// It fails on a key that is not 32 bytes long and on an empty plaintext. On
/// success the result is the plaintext's length plus 40 bytes and opens, under
/// the same key, to the plaintext. The nonce is drawn at random, so two calls
/// on the same input differ; the call panics if the system's random source fails.
#[verifier::external_body]
pub(crate) fn seal(key: &[u8], plain: &[u8]) -> (r: Result<Vec<u8>, UnknownCryptoError>)
    ensures
        key@.len() != KEY_LEN || plain@.len() == 0 ==> r is Err,
        r matches Ok(sealed) ==> sealed@.len() == plain@.len() + SEAL_OVERHEAD && opened(
            key@,
            sealed@,
        ) == Some(plain@),
{
    let secret = orion::aead::SecretKey::from_slice(key)?;
    orion::aead::seal(&secret, plain)
}

/// Calls `orion::aead::open` with the key made by `SecretKey::from_slice`.
/// The outcome depends on the key and the sealed bytes alone.
#[verifier::external_body]
pub(crate) fn open(key: &[u8], sealed: &[u8]) -> (r: Result<Vec<u8>, UnknownCryptoError>)
    ensures
        match r {
            Ok(plain) => opened(key@, sealed@) == Some(plain@),
            Err(_) => opened(key@, sealed@) is None,
        },
{
    let secret = orion::aead::SecretKey::from_slice(key)?;
    orion::aead::open(&secret, sealed)
}

/// Calls `orion::aead::SecretKey::default`: 32 bytes from the system's random
/// source. The call panics if that source fails.
#[verifier::external_body]
pub(crate) fn random_key() -> (key: Vec<u8>)
    ensures
        key@.len() == KEY_LEN,
{
    orion::aead::SecretKey::default().unprotected_as_bytes().to_vec()
}

/// A fresh random key as 64 lower-case hex digits.
pub fn gen_key() -> (text: String)
    ensures
        text@.len() == 2 * KEY_LEN,
        is_hex(text@),
        hex_bytes(text@).len() == KEY_LEN,
        text@ == hex_string(hex_bytes(text@)),
{
    let key = random_key();
    proof {
        lemma_hex_round_trip(key@);
    }
    encode(key.as_slice())
}

} // verus!
