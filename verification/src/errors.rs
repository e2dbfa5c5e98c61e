//! Typed, recoverable error results for the two protocol operations.
//!
//! Every failure of the core is reported as one of these values; none of the
//! conditions below terminates the hosting process.

use vstd::prelude::*;

verus! {

/// Why a commit was rejected.
#[derive(Clone, Copy, Debug, PartialEq, Eq)]
pub enum CommitError {
    /// A record already exists at the address derived from the public key;
    /// not retryable with the same `public_key`.
    AlreadyCommitted,
    /// The serialized fields would exceed the fixed storage envelope; the
    /// caller must shrink the inputs.
    PayloadTooLarge,
}

/// Why a reveal was rejected.
#[derive(Clone, Copy, Debug, PartialEq, Eq)]
pub enum RevealError {
    /// No record exists at the given address.
    NoSuchCommitment,
    /// The secret key does not have the width the AEAD scheme requires.
    InvalidKeyLength,
    /// Authenticated decryption failed (wrong key, tampered data, or a nonce
    /// of the wrong width); recoverable, the caller may retry with another
    /// key.
    RevealFailed,
}

} // verus!
