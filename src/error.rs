//! The ways a proxied request can fail.

use vstd::prelude::*;

verus! {

/// A failure that ends a proxied request.
#[derive(Clone, Copy, Debug, PartialEq, Eq, Structural)]
pub enum ProxyError {
    /// The target selector is missing, or the target has no host.
    BadRequest,
    /// No registered target has the requested id.
    NotFound,
    /// The backend or the token endpoint could not be used.
    UpstreamGateway,
}

/// Why a token could not be obtained.
#[derive(Clone, Copy, Debug, PartialEq, Eq, Structural)]
pub enum FetchError {
    /// The token endpoint could not be reached or refused the request.
    Network,
    /// The endpoint's answer was not a token response.
    InvalidResponse,
}

} // verus!
