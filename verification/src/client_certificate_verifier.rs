//! The client-certificate trust policy.
//!
//! The server asks every client for a certificate but requires none,
//! and accepts whatever is presented: certificates serve only to pin a
//! fingerprint to the session, never to gate admission.  The embedding
//! program wires these decisions into its TLS stack; the policy values
//! themselves are stated here, with their contracts.

use vstd::prelude::*;

verus! {

/// The trust policy for client certificates.
#[derive(Debug, Clone, Copy, PartialEq, Eq, Structural)]
pub struct ClientCertificateVerifier;

impl ClientCertificateVerifier {
    /// The one policy value.
    pub fn new() -> (r: Self)
        ensures
            r == ClientCertificateVerifier,
    {
        ClientCertificateVerifier
    }

    /// Client authentication is offered to every connection.
    pub fn offer_client_auth(&self) -> (r: bool)
        ensures
            r,
    {
        true
    }

    /// A client without a certificate is admitted all the same.
    pub fn client_auth_mandatory(&self) -> (r: bool)
        ensures
            !r,
    {
        false
    }
}

} // verus!
