//! Trusted bindings to the cryptographic primitives the library relies on.
//!
//! Every digest and signature check is an outside computation; each function
//! here makes exactly one such call, and its contract names the result so
//! that verified code can reason about it.

use vstd::prelude::*;

verus! {

/// The SHA-512 digest of a byte string, as computed by the outside hasher.
pub uninterp spec fn sha512_of(data: Seq<u8>) -> Seq<u8>;

/// The SHA-384 digest of a byte string, as computed by the outside hasher.
pub uninterp spec fn sha384_of(data: Seq<u8>) -> Seq<u8>;

/// Whether the given Ed25519 public key accepts the signature over the
/// message. Byte strings that do not decode as a key or whose length is
/// wrong accept no message.
pub uninterp spec fn ed25519_valid(pubkey: Seq<u8>, message: Seq<u8>, signature: Seq<u8>) -> bool;

/// Relies on sha2::Sha512: a 64-byte digest determined by the input alone.
#[verifier::external_body]
pub fn sha512(data: &Vec<u8>) -> (r: Vec<u8>)
    ensures
        r@ == sha512_of(data@),
        r@.len() == 64,
{
    <sha2::Sha512 as sha2::Digest>::digest(data.as_slice()).to_vec()
}

/// Relies on sha2::Sha384: a 48-byte digest determined by the input alone.
#[verifier::external_body]
pub fn sha384(data: &Vec<u8>) -> (r: Vec<u8>)
    ensures
        r@ == sha384_of(data@),
        r@.len() == 48,
{
    <sha2::Sha384 as sha2::Digest>::digest(data.as_slice()).to_vec()
}

/// Relies on ed25519_dalek::VerifyingKey::verify_strict: acceptance is a
/// function of key, message and signature alone. A public key or signature
/// of the wrong length, or one that does not decode, accepts nothing.
#[verifier::external_body]
pub fn ed25519_verify(pubkey: &Vec<u8>, message: &Vec<u8>, signature: &Vec<u8>) -> (r: bool)
    ensures
        r == ed25519_valid(pubkey@, message@, signature@),
{
    let Ok(pk_bytes) = <&[u8; 32]>::try_from(pubkey.as_slice()) else {
        return false;
    };
    let Ok(vk) = ed25519_dalek::VerifyingKey::from_bytes(pk_bytes) else {
        return false;
    };
    let Ok(sig_bytes) = <&[u8; 64]>::try_from(signature.as_slice()) else {
        return false;
    };
    let sig = ed25519_dalek::Signature::from_bytes(sig_bytes);
    vk.verify_strict(message.as_slice(), &sig).is_ok()
}

} // verus!
