//! The failures of the gateway, each with the text that a caller sees.
use vstd::prelude::*;

verus! {

/// Why a gateway operation failed.
#[derive(Debug, Clone, PartialEq, Eq)]
pub enum GatewayError {
    /// The pool specification was not configured.
    ConfigurationMissing,
    /// The request carried no credential header.
    MissingApiKey,
    /// The request's credential did not match the configured secret.
    InvalidApiKey,
    /// Asking an agent whether it is busy failed; the transport's description.
    ProbeError(String),
    /// No agent reported itself idle.
    NoAvailableAgents,
    /// Sending the request to the chosen agent failed; the transport's description.
    ForwardError(String),
}

} // verus!
