//! Events and error taxonomy of the poll system.

use vstd::prelude::*;

verus! {

/// Why a poll's state changed.  Carried inside every change event.
#[derive(Clone, Copy, Debug, PartialEq, Eq, Structural)]
pub enum ChangeReason {
    VoteCast,
    Closed,
    Reset,
}

/// Transient fact that a poll's state already changed in the store.
/// Published to the notifier after a successful commit, never persisted.
#[derive(Clone, Copy, Debug, PartialEq, Eq, Structural)]
pub struct PollChangedEvent {
    pub poll_id: u64,
    pub reason: ChangeReason,
}

/// Failures of the vote-cast operation, in the order they are checked.
#[derive(Clone, Copy, Debug, PartialEq, Eq, Structural)]
pub enum VoteError {
    /// The poll does not exist.
    NotFound,
    /// The poll exists but its `closed` flag is set.
    PollClosed,
    /// The option does not belong to any question under the poll.
    InvalidOption,
    /// A vote by this voter already exists for the option's question.
    DuplicateVote,
    /// The identity in the request body differs from the authenticated one.
    IdentityMismatch,
}

/// Failures of the close and reset operations.
#[derive(Clone, Copy, Debug, PartialEq, Eq, Structural)]
pub enum AdminError {
    /// The poll is absent or already in its terminal (closed) state.
    NotFound,
    /// The requester is authenticated but is not the poll's creator.
    Forbidden,
}

impl VoteError {
    /// Status code a transport boundary reports for this failure: every
    /// vote-cast rejection is a caller error.
    pub fn http_status(&self) -> (s: u16)
        ensures
            s == 400,
    {
        400
    }
}

impl AdminError {
    /// Status code a transport boundary reports for this failure.
    pub fn http_status(&self) -> (s: u16)
        ensures
            self is NotFound ==> s == 404,
            self is Forbidden ==> s == 401,
    {
        match self {
            AdminError::NotFound => 404,
            AdminError::Forbidden => 401,
        }
    }
}

} // verus!
