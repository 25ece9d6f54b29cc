//! Password hashing and verification.
//!
//! The keyed, salted hashing itself is done by the `easy_password` crate
//! (HMAC-SHA256 under a process-wide secret, then bcrypt with a configurable
//! cost). Its results are named by two uninterpreted spec functions: which
//! hash strings parse, and which password/hash/key triples match. Everything
//! the rest of the crate proves about credentials rests on those names and on
//! the two trusted wrappers below.

use vstd::prelude::*;

use crate::errors::AuthError;
use easy_password::bcrypt::{hash_password, verify_password};

verus! {

/// The default bcrypt work factor (log rounds).
pub const DEFAULT_COST: u32 = 12;

/// What `easy_password::bcrypt::verify_password` returns on a parseable
/// stored hash: whether `password`, keyed with `key`, matches `stored`.
/// The result is a deterministic function of the three arguments alone.
pub uninterp spec fn hash_matches(password: Seq<char>, stored: Seq<char>, key: Seq<u8>) -> bool;

/// Whether `easy_password::bcrypt::verify_password` accepts `stored` as a
/// structurally valid bcrypt hash string. Acceptance is a deterministic
/// function of the stored string alone: the crate rejects a hash (for any
/// password and key) exactly when the hash itself does not parse.
pub uninterp spec fn parseable_hash(stored: Seq<char>) -> bool;

/// Process-wide configuration of the trust core: the secret key (pepper,
/// also the session-signing key) and the bcrypt work factor.
pub struct AuthConfig {
    pub secret: Vec<u8>,
    pub cost: u32,
}

impl AuthConfig {
    /// The cost must be in bcrypt's allowed range.
    pub open spec fn wf(&self) -> bool {
        4 <= self.cost <= 31
    }

    /// Builds a configuration, rejecting a cost outside bcrypt's range.
    pub fn new(secret: Vec<u8>, cost: u32) -> (r: Result<AuthConfig, AuthError>)
        ensures
            r is Ok <==> 4 <= cost <= 31,
            r matches Ok(c) ==> c.wf() && c.secret@ == secret@ && c.cost == cost,
            r matches Err(e) ==> e == AuthError::HashingError,
    {
        if 4 <= cost && cost <= 31 {
            Ok(AuthConfig { secret, cost })
        } else {
            Err(AuthError::HashingError)
        }
    }
}

/// Produces a salted, keyed hash of `password`.
///
/// Relies on `easy_password::bcrypt::hash_password`: for a cost in bcrypt's
/// 4..=31 range it returns a 60-character bcrypt hash of the HMAC-SHA256 of
/// the password under `secret` (the HMAC key is never rejected, and the
/// 64-byte hex HMAC is below bcrypt's truncation limit); for a cost outside
/// that range it returns an error. Its per-call salt is drawn from the
/// operating system, so two calls on one input may differ; every returned
/// hash parses and verifies against the password it was made from.
#[verifier::external_body]
pub fn hash(password: &str, secret: &[u8], cost: u32) -> (r: Result<String, AuthError>)
    ensures
        r is Ok <==> 4 <= cost <= 31,
        r matches Ok(h) ==> h@.len() == 60,
        r matches Ok(h) ==> parseable_hash(h@),
        r matches Ok(h) ==> hash_matches(password@, h@, secret@),
        r matches Err(e) ==> e == AuthError::HashingError,
{
    match hash_password(password, secret, cost) {
        Ok(h) => Ok(h),
        Err(_) => Err(AuthError::HashingError),
    }
}

/// Checks `password` against a stored hash.
///
/// Relies on `easy_password::bcrypt::verify_password`: it errs exactly when
/// the stored hash does not parse as a bcrypt hash (the HMAC key is never
/// rejected), and otherwise returns, in constant time over the hash bytes,
/// whether the password matches — the value named by `hash_matches`.
#[verifier::external_body]
pub fn verify(hash: &str, password: &str, secret: &[u8]) -> (r: Result<bool, AuthError>)
    ensures
        r is Ok <==> parseable_hash(hash@),
        r matches Ok(b) ==> b == hash_matches(password@, hash@, secret@),
        r matches Err(e) ==> e == AuthError::VerificationError,
{
    match verify_password(password, hash, secret) {
        Ok(b) => Ok(b),
        Err(_) => Err(AuthError::VerificationError),
    }
}

/// Round trip: hashing a password and then verifying that password against
/// the produced hash always succeeds. Verus proves the result is `true` for
/// every password, secret and allowed cost, from the contracts of `hash`
/// and `verify` alone.
pub fn hash_verify_round_trip(password: &str, secret: &[u8], cost: u32) -> (r: bool)
    requires
        4 <= cost <= 31,
    ensures
        r,
{
    match hash(password, secret, cost) {
        Ok(h) => match verify(h.as_str(), password, secret) {
            Ok(b) => b,
            Err(_) => false,
        },
        Err(_) => false,
    }
}

} // verus!
