//! The cryptographic primitives the game rests on: SHA-256 and Ed25519.
//!
//! Everything in this file is trusted. Each primitive is given a name, an
//! uninterpreted function of its inputs, and the function that runs it is stated
//! to compute that name. No contract anywhere assumes that digests are free of
//! collisions or that signatures cannot be forged.

use ed25519_dalek::{Signer, SigningKey, Verifier, VerifyingKey};
use sha2::{Digest, Sha256};
use vstd::prelude::*;

verus! {

/// The SHA-256 digest of `data`, as `sha2::Sha256::digest` computes it.
pub uninterp spec fn sha256_digest(data: Seq<u8>) -> [u8; 32];

/// Whether `ed25519_dalek::VerifyingKey::from_bytes` accepts `pubkey` as the
/// encoding of a curve point.
pub uninterp spec fn ed25519_key_decodes(pubkey: Seq<u8>) -> bool;

/// Whether `ed25519_dalek::VerifyingKey::verify` accepts `signature` on `message`
/// under the key that `pubkey` encodes.
pub uninterp spec fn ed25519_verifies(pubkey: Seq<u8>, message: Seq<u8>, signature: Seq<u8>) -> bool;

/// The public key that `ed25519_dalek::SigningKey::verifying_key` derives from a
/// secret key.
pub uninterp spec fn ed25519_public_key(secret: Seq<u8>) -> [u8; 32];

/// The signature that `ed25519_dalek::SigningKey` makes of `message`. Ed25519
/// signing draws no randomness: it is a function of the key and the message.
pub uninterp spec fn ed25519_signature(secret: Seq<u8>, message: Seq<u8>) -> [u8; 64];

/// Two different inputs with the same SHA-256 digest.
pub open spec fn sha256_collision(a: Seq<u8>, b: Seq<u8>) -> bool {
    a != b && sha256_digest(a) == sha256_digest(b)
}

/// Calls `sha2::Sha256::digest`. Trusted: the digest is a function of the bytes
/// hashed, and of nothing else. SHA-256 counts the bits of its input in 64 bits,
/// which bounds the input's length.
#[verifier::external_body]
pub(crate) fn sha256(data: &[u8]) -> (digest: [u8; 32])
    requires
        data@.len() < 0x2000_0000_0000_0000,
    ensures
        digest@ == sha256_digest(data@)@,
{
    Sha256::digest(data).into()
}

/// Calls `ed25519_dalek::VerifyingKey::from_bytes`. Trusted: whether the 32 bytes
/// decode to a curve point depends on those bytes alone.
#[verifier::external_body]
pub(crate) fn key_decodes(pubkey: &[u8; 32]) -> (ok: bool)
    ensures
        ok == ed25519_key_decodes(pubkey@),
{
    VerifyingKey::from_bytes(pubkey).is_ok()
}

/// Calls `ed25519_dalek::VerifyingKey::verify` on the key that `pubkey` encodes.
/// Trusted: whether the signature is accepted depends on the key, the message and
/// the signature alone. A key that does not decode accepts nothing.
#[verifier::external_body]
pub(crate) fn signature_verifies(pubkey: &[u8; 32], message: &[u8], signature: &[u8; 64]) -> (ok: bool)
    ensures
        ok == ed25519_verifies(pubkey@, message@, signature@),
        !ed25519_key_decodes(pubkey@) ==> !ok,
{
    match VerifyingKey::from_bytes(pubkey) {
        Ok(key) => key.verify(message, &ed25519_dalek::Signature::from_bytes(signature)).is_ok(),
        Err(_) => false,
    }
}

/// Calls `ed25519_dalek::SigningKey::verifying_key`. Trusted: the public key is a
/// function of the secret key, and its encoding decodes.
#[verifier::external_body]
pub(crate) fn derive_public_key(secret: &[u8; 32]) -> (pubkey: [u8; 32])
    ensures
        pubkey@ == ed25519_public_key(secret@)@,
        ed25519_key_decodes(pubkey@),
{
    SigningKey::from_bytes(secret).verifying_key().to_bytes()
}

/// Calls `ed25519_dalek::SigningKey::sign`. Trusted: the signature is a function of
/// the secret key and the message, and the public key of that secret key accepts it.
#[verifier::external_body]
pub(crate) fn sign_message(secret: &[u8; 32], message: &[u8]) -> (signature: [u8; 64])
    ensures
        signature@ == ed25519_signature(secret@, message@)@,
        ed25519_verifies(ed25519_public_key(secret@)@, message@, signature@),
{
    SigningKey::from_bytes(secret).sign(message).to_bytes()
}

} // verus!
