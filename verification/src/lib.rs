//! Credential management and session issuance.
//!
//! The crate is organised around the trust core of a small authentication
//! service: password hashing and verification (`utils`), a credential store
//! keyed by username (`models`), a signed session-token codec (`session`),
//! and the orchestration of registration, login and password change (`auth`).

pub mod auth;
pub mod errors;
pub mod models;
pub mod session;
pub mod utils;
