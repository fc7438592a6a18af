use vstd::prelude::*;

verus! {

/// Failure kinds surfaced by the core operations.
#[derive(Clone, Copy, Debug, PartialEq, Eq, Structural)]
pub enum CoreError {
    /// An operation referred to an address that is not registered.
    UnknownTrainer,
    /// A delta buffer did not have the expected byte length.
    SerializationError,
    /// A trainer weight lookup failed in the middle of a commit.
    InconsistentTrainerState,
    /// The latest-model pointer is set but its referent is missing.
    StoreCorruption,
}

/// Outcome of submitting a delta to the pending pool.
#[derive(Clone, Copy, Debug, PartialEq, Eq, Structural)]
pub enum SubmitOutcome {
    /// The trainer already has a pending entry this round; nothing changed.
    RejectedDuplicate,
    /// The entry was inserted; contributed weight is still below the quorum.
    AcceptedBelowQuorum,
    /// The entry was inserted and the contributed weight reached the quorum.
    AcceptedQuorumReached,
}

} // verus!
