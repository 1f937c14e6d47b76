//! Error types of the authentication core.

use vstd::prelude::*;

verus! {

/// Why an authentication step was refused.
#[derive(Debug, Clone, Copy, PartialEq, Eq, Structural)]
pub enum Error {
    /// The challenge code or the wallet signature did not check out.
    InvalidSignature,
    /// The claim could not be encoded into a token payload.
    FailedToSerializeClaim,
    /// No bearer token came with the request, or it could not be read.
    JwtNotProvidedOrInvalid,
    /// The token's signature, audience, structure or expiry was rejected.
    JwtVerificationFailed,
    /// The requested duration (first) is larger than the allowed maximum (second).
    InvalidDuration(usize, usize),
    /// The challenge timestamp is older than the freshness window.
    InvalidTimestamp,
}

/// Result type of the authentication core.
pub type Result<T> = core::result::Result<T, Error>;

} // verus!
