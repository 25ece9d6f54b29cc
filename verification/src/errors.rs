//! Error kinds surfaced by the trust core.

use vstd::prelude::*;

verus! {

/// Every failure the core can report.
///
/// `InvalidCredentials` deliberately covers both "no such user" and "wrong
/// password", so an error response never reveals whether a username exists.
/// `HashingError` and `VerificationError` are infrastructure failures of the
/// password primitive, not user-facing credential mismatches.
/// `StorageUnavailable` is reserved for a failing credential store; the
/// in-memory store of this crate never raises it.
#[derive(Clone, Copy, Debug, PartialEq, Eq, Structural)]
pub enum AuthError {
    DuplicateUsername,
    InvalidCredentials,
    InvalidSession,
    HashingError,
    VerificationError,
    StorageUnavailable,
}

impl AuthError {
    /// A short description, suitable for an error response body.
    pub fn message(&self) -> (m: &'static str)
    {
        match self {
            AuthError::DuplicateUsername => "username already exists",
            AuthError::InvalidCredentials => "invalid username or password",
            AuthError::InvalidSession => "missing or invalid session",
            AuthError::HashingError => "password hashing failed",
            AuthError::VerificationError => "password verification failed",
            AuthError::StorageUnavailable => "credential store unavailable",
        }
    }
}

} // verus!
