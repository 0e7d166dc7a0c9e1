//! The checks that a verifier makes on a captured log.

use crate::attestation::{check_payload_len, parse_log, Attestation, AttestationBytes};
use crate::ed25519::{decode_public_key, verify_signature};
use crate::error::Error;
use crate::gate::check_gate;
use vstd::prelude::*;

verus! {

/// What it amounts to whether the public key decodes and whether the signature
/// holds under it.
pub open spec fn signature_outcome(key_decodes: bool, holds: bool) -> Result<(), Error> {
    if !key_decodes {
        Err(Error::BadPublicKey)
    } else if !holds {
        Err(Error::SignatureInvalid)
    } else {
        Ok(())
    }
}

/// What the signature of an attestation amounts to.
pub open spec fn verify_outcome(a: AttestationBytes) -> Result<(), Error> {
    signature_outcome(
        crate::ed25519::is_public_key(a.public_key),
        crate::ed25519::signature_holds(a.public_key, a.payload, a.signature),
    )
}

/// Judge a signature by whether its public key decodes and whether it holds.
pub fn judge_signature(key_decodes: bool, holds: bool) -> (r: Result<(), Error>)
    ensures
        r == signature_outcome(key_decodes, holds),
{
    if !key_decodes {
        Err(Error::BadPublicKey)
    } else if !holds {
        Err(Error::SignatureInvalid)
    } else {
        Ok(())
    }
}

/// Check the signature over the exact bytes that were signed.
pub fn verify(a: &Attestation) -> (r: Result<(), Error>)
    ensures
        r == verify_outcome(a@),
{
    let key_decodes: bool = decode_public_key(&a.public_key).is_ok();
    let holds: bool = key_decodes && verify_signature(
        &a.public_key,
        a.payload.as_slice(),
        &a.signature,
    ).is_ok();
    judge_signature(key_decodes, holds)
}

/// What a log amounts to before its signature is looked at: the entropy gate, then the
/// fields, then the length of the payload.
pub open spec fn log_outcome(log: Seq<char>) -> Result<AttestationBytes, Error> {
    match crate::gate::gate_outcome(log) {
        Err(e) => Err(e),
        Ok(()) => match crate::attestation::parsed(log) {
            Err(e) => Err(e),
            Ok(a) => match crate::attestation::payload_length_outcome(a.payload.len()) {
                Err(e) => Err(e),
                Ok(()) => Ok(a),
            },
        },
    }
}

/// What a log amounts to.
pub open spec fn check_outcome(log: Seq<char>) -> Result<AttestationBytes, Error> {
    match log_outcome(log) {
        Err(e) => Err(e),
        Ok(a) => match verify_outcome(a) {
            Err(e) => Err(e),
            Ok(()) => Ok(a),
        },
    }
}

/// Run every check against a captured log but the one of the signature.
pub fn check_log(log: &str) -> (r: Result<Attestation, Error>)
    ensures
        match log_outcome(log@) {
            Ok(bytes) => r matches Ok(a) && a@ == bytes,
            Err(e) => r == Err::<Attestation, Error>(e),
        },
{
    match check_gate(log) {
        Ok(()) => {},
        Err(e) => return Err(e),
    }
    let a: Attestation = match parse_log(log) {
        Ok(a) => a,
        Err(e) => return Err(e),
    };
    match check_payload_len(&a) {
        Ok(()) => Ok(a),
        Err(e) => Err(e),
    }
}

/// Run every check against a captured log.
pub fn check_all(log: &str) -> (r: Result<Attestation, Error>)
    ensures
        match check_outcome(log@) {
            Ok(bytes) => r matches Ok(a) && a@ == bytes,
            Err(e) => r == Err::<Attestation, Error>(e),
        },
{
    let a: Attestation = match check_log(log) {
        Ok(a) => a,
        Err(e) => return Err(e),
    };
    match verify(&a) {
        Ok(()) => Ok(a),
        Err(e) => Err(e),
    }
}

/// A signature is judged by its key first: a key that does not decode is refused as
/// such, and under one that does, the signature is accepted if and only if it holds.
pub proof fn law_signatures_are_judged_key_first(key_decodes: bool, holds: bool)
    ensures
        signature_outcome(key_decodes, holds) is Ok <==> key_decodes && holds,
        !key_decodes ==> signature_outcome(key_decodes, holds) == Err::<(), Error>(
            Error::BadPublicKey,
        ),
        key_decodes && !holds ==> signature_outcome(key_decodes, holds) == Err::<(), Error>(
            Error::SignatureInvalid,
        ),
{
}

/// An attestation verifies if and only if its public key decodes and its signature
/// holds under that key over that very payload, whatever the length of the payload.
/// Otherwise it is refused for its key, or else for its signature.
pub proof fn law_verified_means_the_signature_holds(a: AttestationBytes)
    ensures
        ({
            let decodes = crate::ed25519::is_public_key(a.public_key);
            let holds = crate::ed25519::signature_holds(a.public_key, a.payload, a.signature);
            &&& verify_outcome(a) is Ok <==> decodes && holds
            &&& !decodes ==> verify_outcome(a) == Err::<(), Error>(Error::BadPublicKey)
            &&& decodes && !holds ==> verify_outcome(a) == Err::<(), Error>(
                Error::SignatureInvalid,
            )
        }),
{
}

/// The checks are made in a fixed order, and a log is refused for the first that
/// fails: the entropy gate, the fields, the length of the payload, the public key,
/// the signature. A log that passes them all gives the attestation that it holds.
pub proof fn law_checks_are_made_in_order(log: Seq<char>)
    ensures
        match (crate::gate::gate_outcome(log), crate::attestation::parsed(log)) {
            (Err(e), _) => {
                &&& log_outcome(log) == Err::<AttestationBytes, Error>(e)
                &&& check_outcome(log) == Err::<AttestationBytes, Error>(e)
            },
            (Ok(()), Err(e)) => {
                &&& log_outcome(log) == Err::<AttestationBytes, Error>(e)
                &&& check_outcome(log) == Err::<AttestationBytes, Error>(e)
            },
            (Ok(()), Ok(a)) => {
                let decodes = crate::ed25519::is_public_key(a.public_key);
                let holds = crate::ed25519::signature_holds(a.public_key, a.payload, a.signature);
                let refused = |e: Error| check_outcome(log) == Err::<AttestationBytes, Error>(e);
                let short = Error::BadLength {
                    field: "payload",
                    expected: 64,
                    got: a.payload.len() as usize,
                };
                &&& a.payload.len() != 64 ==> log_outcome(log) == Err::<AttestationBytes, Error>(
                    short,
                )
                &&& a.payload.len() != 64 ==> refused(short)
                &&& a.payload.len() == 64 ==> log_outcome(log) == Ok::<AttestationBytes, Error>(a)
                &&& a.payload.len() == 64 && !decodes ==> refused(Error::BadPublicKey)
                &&& a.payload.len() == 64 && decodes && !holds ==> refused(Error::SignatureInvalid)
                &&& a.payload.len() == 64 && decodes && holds ==> check_outcome(log) == Ok::<
                    AttestationBytes,
                    Error,
                >(a)
            },
        },
{
}

} // verus!
