//! The error taxonomy of the relay. Every failure is returned to the caller
//! as a typed value; none is thrown.

use vstd::prelude::*;

verus! {

/// Why a relay call was not completed.
#[derive(Debug, PartialEq)]
pub enum RelayError {
    /// The caller does not hold the Rpc role.
    NoPermission,
    /// The caller offered fewer cycles than the computed fee.
    TooFewCycles { required: u128, available: u128 },
    /// The target URL could not be parsed.
    InvalidUrl,
    /// The target URL has no host component.
    HostMissing,
    /// The host is not in the allowlist.
    HostNotAllowed,
    /// No provider carries the given identifier.
    ProviderNotFound,
    /// The transport reported the forwarded call as failed.
    TransportError { code: u32, message: String },
}

} // verus!
