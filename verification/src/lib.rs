//! Attestation-bound TLS certificates.
//!
//! Two parties authenticate over TLS with certificates whose public key is
//! cryptographically bound to a hardware attestation quote, so trust rests on
//! the attested environment rather than on a certificate authority.
//!
//! Issuance: [`challenge`] derives a quote-binding challenge from a fresh
//! key, an external quote service signs it, and [`cert`] embeds the quote
//! and its measurement [`events`] log into a certificate issued by a shared,
//! deliberately untrusted CA. Verification: [`extract`] recovers the
//! evidence from a peer's DER certificate and [`verify`] checks the quote's
//! signature chain, the binding to the live peer key, the event-log replay,
//! and optionally freshness, producing a report from verified data only.

use vstd::prelude::*;

pub mod bytes;
pub mod challenge;
pub mod crypto;
pub mod cert;
pub mod errors;
pub mod events;
pub mod extract;
pub mod quote;
pub mod verify;
pub mod x509io;

verus! {

/// Length in bytes of a quote-binding challenge (report data).
pub const REPORT_DATA_LEN: usize = 64;

/// Length in bytes of a measurement register and of an event digest.
pub const DIGEST_LEN: usize = 48;

/// Number of runtime measurement registers a quote carries.
pub const REGISTER_COUNT: usize = 4;

} // verus!
