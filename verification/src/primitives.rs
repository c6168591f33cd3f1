//! Bindings to the cryptographic crates.
//!
//! Nothing in this file is proved. Each function makes one call into a
//! cryptographic crate and states what that call returns; the rest of the
//! library is verified against these statements.

use vstd::prelude::*;
use chacha20poly1305::aead::{Aead, AeadCore, KeyInit, OsRng};
use chacha20poly1305::{ChaCha20Poly1305, Key, Nonce};
use ed25519_dalek::{Signature, Signer, SigningKey, VerifyingKey};

verus! {

/// Plaintexts of this many bytes or more are refused by the cipher: the
/// block counter of the stream cipher would overflow.
pub const PLAINTEXT_LIMIT: u64 = 274_877_906_880;

/// The BLAKE3 keyed hash of `message` under `key`.
pub uninterp spec fn blake3_keyed_hash(key: Seq<u8>, message: Seq<u8>) -> Seq<u8>;

/// The Ed25519 signature of `message` under the secret key `secret`.
pub uninterp spec fn ed25519_signature(secret: Seq<u8>, message: Seq<u8>) -> Seq<u8>;

/// The Ed25519 public key that belongs to the secret key `secret`.
pub uninterp spec fn ed25519_public_key(secret: Seq<u8>) -> Seq<u8>;

/// Whether `bytes` encode a point of the curve, and so a public key.
pub uninterp spec fn ed25519_is_public_key(bytes: Seq<u8>) -> bool;

/// Whether strict Ed25519 verification under the public key `public`
/// accepts `signature` for `message`.
pub uninterp spec fn ed25519_strictly_valid(
    public: Seq<u8>,
    message: Seq<u8>,
    signature: Seq<u8>,
) -> bool;

/// The ChaCha20-Poly1305 ciphertext of `plaintext`, authentication tag
/// included, under `key` and `nonce` and with no associated data.
pub uninterp spec fn chacha20poly1305_sealed(
    key: Seq<u8>,
    nonce: Seq<u8>,
    plaintext: Seq<u8>,
) -> Seq<u8>;

/// The plaintext that ChaCha20-Poly1305 decryption under `key` and `nonce`
/// gives for `ciphertext`, or `None` where it gives none: the tag does not
/// authenticate the ciphertext.
pub uninterp spec fn chacha20poly1305_opened(
    key: Seq<u8>,
    nonce: Seq<u8>,
    ciphertext: Seq<u8>,
) -> Option<Seq<u8>>;

/// Calls `blake3::keyed_hash`. The digest depends on key and message alone;
/// its type makes it 32 bytes long.
#[verifier::external_body]
pub(crate) fn keyed_hash(key: &[u8; 32], message: &[u8]) -> (digest: [u8; 32])
    ensures
        digest@ == blake3_keyed_hash(key@, message@),
{
    *blake3::keyed_hash(key, message).as_bytes()
}

/// Calls `Signer::sign` of `ed25519_dalek::SigningKey`. Ed25519 signatures
/// are deterministic: the signature depends on secret key and message alone.
#[verifier::external_body]
pub(crate) fn ed25519_sign(secret: &[u8; 32], message: &[u8]) -> (signature: [u8; 64])
    ensures
        signature@ == ed25519_signature(secret@, message@),
{
    SigningKey::from_bytes(secret).sign(message).to_bytes()
}

/// Calls `SigningKey::verifying_key` of `ed25519_dalek`: the public half of
/// the key pair that the secret bytes determine.
#[verifier::external_body]
pub(crate) fn ed25519_public(secret: &[u8; 32]) -> (public: [u8; 32])
    ensures
        public@ == ed25519_public_key(secret@),
{
    SigningKey::from_bytes(secret).verifying_key().to_bytes()
}

/// Calls `SigningKey::generate` of `ed25519_dalek` on the operating system's
/// random source. Nothing is claimed of the secret bytes that come back.
#[verifier::external_body]
pub(crate) fn ed25519_fresh_secret() -> (secret: [u8; 32]) {
    SigningKey::generate(&mut OsRng).to_bytes()
}

/// Calls `VerifyingKey::from_bytes` of `ed25519_dalek`, which succeeds
/// exactly on the encodings of curve points.
#[verifier::external_body]
pub(crate) fn ed25519_check_public(bytes: &[u8; 32]) -> (ok: bool)
    ensures
        ok == ed25519_is_public_key(bytes@),
{
    VerifyingKey::from_bytes(bytes).is_ok()
}

/// Calls `VerifyingKey::verify_strict` of `ed25519_dalek` on a key that
/// decodes. The verdict depends on key, message and signature alone.
#[verifier::external_body]
pub(crate) fn ed25519_verify_strict(
    public: &[u8; 32],
    message: &[u8],
    signature: &[u8; 64],
) -> (valid: bool)
    requires
        ed25519_is_public_key(public@),
    ensures
        valid == ed25519_strictly_valid(public@, message@, signature@),
{
    match VerifyingKey::from_bytes(public) {
        Ok(key) => key.verify_strict(message, &Signature::from_bytes(signature)).is_ok(),
        Err(_) => false,
    }
}

/// Calls `AeadCore::generate_nonce` of `chacha20poly1305` on the operating
/// system's random source. Nothing is claimed of the nonce that comes back.
#[verifier::external_body]
pub(crate) fn fresh_nonce() -> (nonce: [u8; 12]) {
    ChaCha20Poly1305::generate_nonce(&mut OsRng).into()
}

/// Calls `Aead::encrypt` of `chacha20poly1305::ChaCha20Poly1305`. The call
/// fails exactly on plaintexts that reach `PLAINTEXT_LIMIT`. What it
/// returns otherwise depends on key, nonce and plaintext alone, and
/// decryption under the same key and nonce gives the plaintext back.
#[verifier::external_body]
pub(crate) fn seal(key: &[u8; 32], nonce: &[u8; 12], plaintext: &[u8]) -> (sealed: Option<Vec<u8>>)
    ensures
        sealed.is_some() <==> plaintext@.len() < PLAINTEXT_LIMIT,
        sealed matches Some(c) ==> c@ == chacha20poly1305_sealed(key@, nonce@, plaintext@),
        sealed matches Some(c) ==> chacha20poly1305_opened(key@, nonce@, c@) == Some(
            plaintext@,
        ),
{
    ChaCha20Poly1305::new(Key::from_slice(key)).encrypt(Nonce::from_slice(nonce), plaintext).ok()
}

/// Calls `Aead::decrypt` of `chacha20poly1305::ChaCha20Poly1305`, which
/// fails where the ciphertext is shorter than a tag, reaches the limit of
/// the cipher, or is not authenticated by its tag. The outcome depends on
/// key, nonce and ciphertext alone.
#[verifier::external_body]
pub(crate) fn open(key: &[u8; 32], nonce: &[u8; 12], ciphertext: &[u8]) -> (opened: Option<Vec<u8>>)
    ensures
        match opened {
            Some(p) => chacha20poly1305_opened(key@, nonce@, ciphertext@) == Some(p@),
            None => chacha20poly1305_opened(key@, nonce@, ciphertext@).is_none(),
        },
{
    ChaCha20Poly1305::new(Key::from_slice(key)).decrypt(Nonce::from_slice(nonce), ciphertext).ok()
}

} // verus!
