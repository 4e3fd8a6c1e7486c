//! What can go wrong.
use crate::ids::{BlockHash, CandidateHash, ParaId, PeerId};
use crate::statement::PersistedValidationData;
use vstd::prelude::*;

verus! {

/// An error that is reported, and does not stop the subsystem.
#[derive(Clone, Copy, PartialEq, Eq, Debug)]
pub enum JfyiError {
    /// A peer asked for a candidate that we did not tell it of.
    RequestedUnannouncedCandidate(PeerId, CandidateHash),
    /// The relay parent is not an active head.
    NoSuchHead(BlockHash),
    /// The payload of a large statement is not there.
    NoSuchFetchedLargeStatement(BlockHash, CandidateHash),
    /// Nothing is known of a large statement.
    NoSuchLargeStatementStatus(BlockHash, CandidateHash),
    /// The peer is not connected.
    NoSuchPeer(PeerId),
    /// The task that asked for the payload of a large statement does not wait for it any more.
    ResponderGetDataCanceled,
}

/// Why the runtime gave nothing that was asked of it.
#[derive(Clone, Copy, PartialEq, Eq, Debug)]
pub enum RuntimeFailure<E> {
    /// There was no answer.
    NoAnswer,
    /// The answer was an error.
    Failed(E),
}

/// What the runtime answers when it is asked for the validation data of a parachain.
pub type ValidationDataAnswer<E> = Result<Option<PersistedValidationData>, RuntimeFailure<E>>;

/// Why there is no validation data.
#[derive(Clone, Copy, PartialEq, Eq, Debug)]
pub enum Error<E> {
    /// The runtime gave no answer.
    RuntimeApiUnavailable,
    /// The runtime failed to give the validation data of a parachain.
    FetchPersistedValidationData(ParaId, E),
}

} // verus!
