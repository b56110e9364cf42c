//! The outcomes that the protocol reports in place of a result.

use vstd::prelude::*;

verus! {

/// Why a request was not served.
#[derive(Debug, Clone, Copy, PartialEq, Eq, Structural)]
pub enum AuthError {
    /// A field is not a number, or lies outside the range the protocol allows.
    MalformedInput,
    /// No identity is registered under the name or identifier.
    UnknownIdentity,
    /// No challenge is outstanding for the identifier: none was issued, it was
    /// already answered, or the identifier is not one the server gave out.
    NoPendingChallenge,
    /// The persistent store could not be reached or returned something unexpected.
    StorageFailure,
    /// The answer does not satisfy the verification equations.
    ProofMismatch,
}

} // verus!
