//! The cryptographic primitives the node relies on: SHA-256, lowercase hex
//! and Ed25519 signatures.
use ed25519_dalek::Signer;
use ed25519_dalek::Verifier;
use sha2::Digest;
use vstd::prelude::*;

use crate::bytes::hex_ascii;

verus! {

/// The SHA-256 digest of a byte string.
pub uninterp spec fn sha256_of(data: Seq<u8>) -> Seq<u8>;

/// Whether Ed25519 accepts `signature` on `message` under `public_key`.
pub uninterp spec fn ed25519_accepts(public_key: Seq<u8>, message: Seq<u8>, signature: Seq<u8>) -> bool;

/// The Ed25519 signature of `message` under the secret key `secret`.
pub uninterp spec fn ed25519_signature_of(secret: Seq<u8>, message: Seq<u8>) -> Seq<u8>;

/// Relies on `sha2::Sha256::digest`: the SHA-256 digest of `data`, 32 bytes.
#[verifier::external_body]
pub fn sha256(data: &[u8]) -> (r: Vec<u8>)
    ensures
        r@ == sha256_of(data@),
        r@.len() == 32,
{
    sha2::Sha256::digest(data).to_vec()
}

/// Relies on `hex::encode`: two lowercase hexadecimal digits per byte.
#[verifier::external_body]
pub fn hex_encode(data: &[u8]) -> (r: Vec<u8>)
    ensures
        r@ == hex_ascii(data@),
{
    hex::encode(data).into_bytes()
}

/// Relies on `ed25519_dalek::VerifyingKey::verify` (with the key read by
/// `VerifyingKey::from_bytes` and the signature by `Signature::from_bytes`):
/// whether the signature is valid. A key that is not a curve point is
/// rejected.
#[verifier::external_body]
fn ed25519_verify(public_key: &[u8], message: &[u8], signature: &[u8]) -> (r: bool)
    requires
        public_key@.len() == 32,
        signature@.len() == 64,
    ensures
        r == ed25519_accepts(public_key@, message@, signature@),
{
    let pk: [u8; 32] = public_key.try_into().unwrap();
    let sig: [u8; 64] = signature.try_into().unwrap();
    match ed25519_dalek::VerifyingKey::from_bytes(&pk) {
        Ok(key) => key.verify(message, &ed25519_dalek::Signature::from_bytes(&sig)).is_ok(),
        Err(_) => false,
    }
}

/// Relies on `ed25519_dalek::SigningKey::sign` (with the key made by
/// `SigningKey::from_bytes` from its 32-byte secret): a 64-byte signature.
#[verifier::external_body]
pub fn ed25519_sign(secret: &[u8], message: &[u8]) -> (r: Vec<u8>)
    requires
        secret@.len() == 32,
    ensures
        r@ == ed25519_signature_of(secret@, message@),
        r@.len() == 64,
{
    let sk: [u8; 32] = secret.try_into().unwrap();
    ed25519_dalek::SigningKey::from_bytes(&sk).sign(message).to_bytes().to_vec()
}

/// The all-zero 64-byte signature, which never verifies.
pub open spec fn zero_signature() -> Seq<u8> {
    Seq::new(64, |i: int| 0u8)
}

/// The outcome of checking a signature: the signature must be 64 bytes long
/// (else it is malformed); the all-zero signature and a public key of any
/// length other than 32 bytes never verify.
pub open spec fn signature_check(public_key: Seq<u8>, message: Seq<u8>, signature: Seq<u8>) -> Option<bool> {
    if signature.len() != 64 {
        None
    } else {
        Some(public_key.len() == 32 && signature != zero_signature() && ed25519_accepts(
            public_key,
            message,
            signature,
        ))
    }
}

/// Whether every byte is zero.
fn all_zero(b: &[u8]) -> (r: bool)
    ensures
        r == (b@ == Seq::new(b@.len(), |i: int| 0u8)),
{
    let mut i: usize = 0;
    while i < b.len()
        invariant
            0 <= i <= b@.len(),
            forall|k: int| 0 <= k < i ==> b@[k] == 0u8,
        decreases b@.len() - i,
    {
        if b[i] != 0 {
            assert(b@[i as int] != Seq::new(b@.len(), |k: int| 0u8)[i as int]);
            return false;
        }
        i = i + 1;
    }
    assert(b@ =~= Seq::new(b@.len(), |k: int| 0u8));
    true
}

/// Checks an Ed25519 signature: `None` for a malformed (not 64-byte)
/// signature, else whether it verifies; the all-zero signature never does.
pub fn check_signature(public_key: &[u8], message: &[u8], signature: &[u8]) -> (r: Option<bool>)
    ensures
        r == signature_check(public_key@, message@, signature@),
{
    if signature.len() != 64 {
        None
    } else if public_key.len() != 32 || all_zero(signature) {
        Some(false)
    } else {
        Some(ed25519_verify(public_key, message, signature))
    }
}

} // verus!
