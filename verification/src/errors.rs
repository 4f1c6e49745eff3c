use vstd::prelude::*;

verus! {

/// The ways an operation of the registry can fail.  Every failure aborts the
/// one invocation cleanly: no operation leaves a partial state change behind.
#[derive(Clone, Copy, PartialEq, Eq, Structural, Debug)]
pub enum OracleError {
    /// `init` was called while an owner is already set.
    AlreadyInitialized,
    /// A score or threshold lies outside the domain `[0, 100]`.
    InvalidScore,
    /// A timestamp lies in the future or beyond the freshness window.
    StaleTimestamp,
    /// A signature is malformed, fails recovery, or names the wrong signer.
    InvalidSignature,
    /// The caller of an admin operation is not the owner.
    Unauthorized,
}

} // verus!
