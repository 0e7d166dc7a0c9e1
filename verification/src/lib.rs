//! The console of the IceSickle device, and the host-side verification of the
//! attestations that are captured from it.
//!
//! The device prints an attestation over serial. A verifier parses that text and
//! checks what can be checked:
//!
//! - the signature verifies against the public key over the exact signed bytes,
//! - the signed payload is exactly [`ATTESTATION_PAYLOAD_LEN`] bytes, that is, the
//!   fixed-length padding held,
//! - the entropy gate was demonstrated in the right order at boot.
//!
//! It deliberately does **not** claim that the attestation is evidence of an
//! event.
//!
//! The other half is the device itself: what it decides, from power-on through
//! the event loop, and every line that it prints. The two halves meet in the
//! laws of [`session`]: what the device prints is what a verifier reads.

pub mod attestation;
pub mod checks;
pub mod console;
pub mod decimal;
pub mod device;
pub mod ed25519;
pub mod error;
pub mod gate;
pub mod hex;
pub mod quiet;
pub mod readback;
pub mod run;
pub mod session;
pub mod text;

pub use attestation::{
    check_payload_len, field, parse_log, Attestation, ATTESTATION_PAYLOAD_LEN,
};
pub use checks::{check_all, check_log, judge_signature, verify};
pub use device::Device;
pub use error::Error;
pub use gate::check_gate;
pub use hex::unhex;
