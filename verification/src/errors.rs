//! The error taxonomy. The kind itself is the trust-decision input: callers
//! never have to parse a message. Absent attestation is not an error; it is
//! reported as `None` by extraction.

use vstd::prelude::*;

verus! {

/// Everything that can go wrong while issuing or verifying an
/// attestation-bound certificate.
#[derive(Clone, Copy, Debug, PartialEq, Eq, Structural)]
pub enum RaError {
    /// The external quote service failed; the caller may retry.
    QuoteUnavailable,
    /// A mandatory field (key or quote) was missing when signing was invoked.
    IncompleteRequest,
    /// The CA material could not be loaded or could not produce a signature.
    SigningError,
    /// A malformed certificate, or a present but malformed attestation
    /// extension.
    ParseError,
    /// The quote's signature chain did not verify against the trusted roots.
    SignatureVerificationError,
    /// The quote's committed challenge does not match the peer's public key.
    BindingMismatchError,
    /// Replaying the event log does not reproduce the quote's registers.
    EventLogReplayError,
    /// The quote is older than the caller's freshness policy allows.
    StaleQuoteError,
}

impl RaError {
    /// A short stable label for audit logs.
    pub fn label(&self) -> (r: &'static str)
        ensures
            r@ =~= self.spec_label(),
    {
        match self {
            RaError::QuoteUnavailable => "quote unavailable",
            RaError::IncompleteRequest => "incomplete request",
            RaError::SigningError => "signing error",
            RaError::ParseError => "parse error",
            RaError::SignatureVerificationError => "signature verification error",
            RaError::BindingMismatchError => "binding mismatch",
            RaError::EventLogReplayError => "event log replay error",
            RaError::StaleQuoteError => "stale quote",
        }
    }

    /// The label each kind carries.
    pub open spec fn spec_label(&self) -> Seq<char> {
        match self {
            RaError::QuoteUnavailable => "quote unavailable"@,
            RaError::IncompleteRequest => "incomplete request"@,
            RaError::SigningError => "signing error"@,
            RaError::ParseError => "parse error"@,
            RaError::SignatureVerificationError => "signature verification error"@,
            RaError::BindingMismatchError => "binding mismatch"@,
            RaError::EventLogReplayError => "event log replay error"@,
            RaError::StaleQuoteError => "stale quote"@,
        }
    }
}

} // verus!
