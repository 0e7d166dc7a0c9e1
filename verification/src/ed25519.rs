//! Ed25519, as `ed25519_dalek` computes it.

use ed25519_dalek::{Signature, SignatureError, Verifier, VerifyingKey};
use vstd::prelude::*;

verus! {

/// The error of `ed25519_dalek`, which says nothing that a caller could act on.
#[verifier::external_type_specification]
#[verifier::external_body]
pub struct ExSignatureError(ed25519_dalek::SignatureError);

/// Whether `VerifyingKey::from_bytes` takes these bytes for a public key.
pub uninterp spec fn is_public_key(bytes: Seq<u8>) -> bool;

/// Whether `VerifyingKey::verify` accepts the signature over the message, under
/// the public key that `VerifyingKey::from_bytes` makes of the key bytes.
pub uninterp spec fn signature_holds(key: Seq<u8>, message: Seq<u8>, signature: Seq<u8>) -> bool;

/// Calls `VerifyingKey::from_bytes`, which decompresses the curve point that
/// the bytes encode. Whether it succeeds depends on the bytes alone:
/// `is_public_key` names when. The decoded key itself is not handed out.
#[verifier::external_body]
pub(crate) fn decode_public_key(bytes: &[u8; 32]) -> (r: Result<(), SignatureError>)
    ensures
        r is Ok <==> is_public_key(bytes@),
{
    VerifyingKey::from_bytes(bytes).map(|_key| ())
}

/// Calls `VerifyingKey::verify` on the message, with the key and the signature
/// made from their bytes. It succeeds if the key decodes and the signature is
/// valid, which depends on the three byte strings alone: `signature_holds` names
/// when.
#[verifier::external_body]
pub(crate) fn verify_signature(key: &[u8; 32], message: &[u8], signature: &[u8; 64]) -> (r: Result<
    (),
    SignatureError,
>)
    ensures
        r is Ok <==> signature_holds(key@, message@, signature@),
{
    VerifyingKey::from_bytes(key)?.verify(message, &Signature::from_bytes(signature))
}

} // verus!
