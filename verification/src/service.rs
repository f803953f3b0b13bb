//! The poll service: the vote recorder coupled to the notifier.
//!
//! Each mutating operation runs the store transaction first and publishes
//! the poll-changed event only after it succeeded — never before, so no
//! subscriber is ever told about a change that was rolled back — and on
//! failure the notifier is untouched.

use vstd::prelude::*;
use crate::events::AdminError;
use crate::events::ChangeReason;
use crate::events::PollChangedEvent;
use crate::events::VoteError;
use crate::notifier::Notifier;
use crate::notifier::publish_effect;
use crate::store::PollStore;
use crate::store::cast_applied;
use crate::store::close_applied;
use crate::store::reset_applied;

verus! {

/// The store and the notifier, driven together.
pub struct PollService {
    pub store: PollStore,
    pub notifier: Notifier,
}

impl PollService {
    /// Both halves are well-formed.
    pub open spec fn inv(self) -> bool {
        self.store.wf() && self.notifier.inv()
    }

    /// An empty service: no polls, no sessions.
    pub fn new() -> (r: Self)
        ensures
            r.inv(),
            r.store.polls@.len() == 0,
            r.store.votes@.len() == 0,
            forall|id: u64| !r.notifier.connected(id),
    {
        PollService { store: PollStore::new(), notifier: Notifier::new() }
    }

    /// The vote-cast request boundary.
    ///
    /// The identity in the request body must match the authenticated one;
    /// then the store transaction runs, and exactly when it commits the
    /// vote-cast event is fanned out to the poll's subscribers.  On any
    /// failure neither the store nor any session's queue moves.
    pub fn cast_vote(
        &mut self,
        auth_user: &String,
        body_email: &String,
        poll_id: u64,
        option_id: u64,
    ) -> (r: Result<(), VoteError>)
        requires
            old(self).inv(),
            old(self).store.votes@.len() < usize::MAX,
        ensures
            final(self).inv(),
            match r {
                Result::Err(e) => {
                    &&& *final(self) == *old(self)
                    &&& if body_email@ != auth_user@ {
                        e == VoteError::IdentityMismatch
                    } else {
                        Some(e) == old(self).store.cast_vote_error(poll_id, option_id, auth_user@)
                    }
                },
                Result::Ok(u) => {
                    &&& body_email@ == auth_user@
                    &&& old(self).store.cast_vote_error(poll_id, option_id, auth_user@) is None
                    &&& cast_applied(old(self).store, final(self).store, poll_id, option_id, auth_user@)
                    &&& publish_effect(
                        old(self).notifier,
                        final(self).notifier,
                        poll_id,
                        ChangeReason::VoteCast,
                    )
                },
            },
    {
        if !(*body_email == *auth_user) {
            return Err(VoteError::IdentityMismatch);
        }
        let voter = auth_user.clone();
        match self.store.cast_vote(poll_id, option_id, voter) {
            Err(e) => Err(e),
            Ok(ev) => {
                self.notifier.publish(ev.poll_id, ev.reason);
                Ok(())
            },
        }
    }

    /// The close request boundary: the store transaction, then — only on
    /// success — the closed event fans out to the poll's subscribers.
    pub fn close_poll(&mut self, poll_id: u64, requester: &String) -> (r: Result<(), AdminError>)
        requires
            old(self).inv(),
        ensures
            final(self).inv(),
            match r {
                Result::Err(e) => {
                    &&& *final(self) == *old(self)
                    &&& Some(e) == old(self).store.admin_error(poll_id, requester@)
                },
                Result::Ok(u) => {
                    &&& old(self).store.admin_error(poll_id, requester@) is None
                    &&& close_applied(old(self).store, final(self).store, poll_id)
                    &&& final(self).store.poll_closed(poll_id)
                    &&& publish_effect(
                        old(self).notifier,
                        final(self).notifier,
                        poll_id,
                        ChangeReason::Closed,
                    )
                },
            },
    {
        match self.store.close_poll(poll_id, requester) {
            Err(e) => Err(e),
            Ok(ev) => {
                self.notifier.publish(ev.poll_id, ev.reason);
                Ok(())
            },
        }
    }

    /// The reset request boundary: the store transaction, then — only on
    /// success — the reset event fans out to the poll's subscribers.
    pub fn reset_poll(&mut self, poll_id: u64, requester: &String) -> (r: Result<(), AdminError>)
        requires
            old(self).inv(),
        ensures
            final(self).inv(),
            match r {
                Result::Err(e) => {
                    &&& *final(self) == *old(self)
                    &&& Some(e) == old(self).store.admin_error(poll_id, requester@)
                },
                Result::Ok(u) => {
                    &&& old(self).store.admin_error(poll_id, requester@) is None
                    &&& reset_applied(old(self).store, final(self).store, poll_id)
                    &&& !final(self).store.poll_closed(poll_id)
                    &&& publish_effect(
                        old(self).notifier,
                        final(self).notifier,
                        poll_id,
                        ChangeReason::Reset,
                    )
                },
            },
    {
        match self.store.reset_poll(poll_id, requester) {
            Err(e) => Err(e),
            Ok(ev) => {
                self.notifier.publish(ev.poll_id, ev.reason);
                Ok(())
            },
        }
    }
}

} // verus!
