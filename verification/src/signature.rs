//! Ed25519 signatures over a digest.

use vstd::prelude::*;

verus! {

/// Whether the 32 bytes of `key` are read as a point of the curve, that is
/// as a public key.
pub uninterp spec fn ed25519_key(key: Seq<u8>) -> bool;

/// Whether Ed25519 accepts `signature` for `message` under `key`.
pub uninterp spec fn ed25519_accepts(message: Seq<u8>, key: Seq<u8>, signature: Seq<u8>) -> bool;

/// Whether the 64 bytes of a signature are read as one: the three highest
/// bits of the last byte are not set.
pub open spec fn ed25519_signature(signature: Seq<u8>) -> bool {
    signature[63] & 0xe0 == 0
}

/// Whether `signature` is a signature of `message` by the holder of `key`.
/// Bytes that are no key or no signature are signed by nobody.
pub open spec fn signed(message: Seq<u8>, key: Seq<u8>, signature: Seq<u8>) -> bool {
    ed25519_key(key) && ed25519_signature(signature) && ed25519_accepts(message, key, signature)
}

/// `ed25519_dalek::PublicKey::from_bytes`: whether it reads the bytes as a
/// public key.
#[verifier::external_body]
fn key_parses(key: &[u8; 32]) -> (ok: bool)
    ensures
        ok == ed25519_key(key@),
{
    ed25519_dalek::PublicKey::from_bytes(key).is_ok()
}

/// `ed25519_dalek::Signature::from_bytes`: it reads 64 bytes as a signature
/// unless one of the three highest bits of the last byte is set.
#[verifier::external_body]
fn signature_parses(signature: &[u8; 64]) -> (ok: bool)
    ensures
        ok == ed25519_signature(signature@),
{
    ed25519_dalek::Signature::from_bytes(signature).is_ok()
}

/// `fides::ed25519::verify`: whether the signature is accepted. It is called
/// only with bytes that are read as a key and as a signature; with others it
/// would stop the program.
#[verifier::external_body]
fn accepts(message: &[u8; 32], key: &[u8; 32], signature: &[u8; 64]) -> (ok: bool)
    requires
        ed25519_key(key@),
        ed25519_signature(signature@),
    ensures
        ok == ed25519_accepts(message@, key@, signature@),
{
    fides::ed25519::verify(message, key, signature)
}

/// Whether `signature` is a signature of `message` by the holder of `key`.
pub fn verify(message: &[u8; 32], key: &[u8; 32], signature: &[u8; 64]) -> (ok: bool)
    ensures
        ok == signed(message@, key@, signature@),
{
    key_parses(key) && signature_parses(signature) && accepts(message, key, signature)
}

} // verus!
