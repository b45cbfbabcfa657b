use vstd::prelude::*;

verus! {

/// Why a deployment, or one stage of it, did not succeed.
#[derive(Clone, Copy, Debug, PartialEq, Eq, Structural)]
pub enum DeployError {
    /// The requested target name is not registered.
    UnknownTarget,
    /// The artifact reference is malformed.
    InvalidArtifact,
    /// Another deployment of the same target is still in flight.
    Conflict,
    /// A transient failure (network, timeout) outlasted every retry.
    Transient,
    /// Applying the plan failed with a non-transient error.
    ApplyFailed,
    /// The live target never came to match the plan.
    VerificationFailed,
    /// Rolling back failed, or there was nothing to roll back to.
    RollbackFailed,
    /// The request was cancelled.
    Cancelled,
}

} // verus!
