//! The system-wide guarantees, stated and proved once, over the same
//! specifications the operations' own contracts use.

use vstd::prelude::*;
use crate::events::ChangeReason;
use crate::events::PollChangedEvent;
use crate::events::VoteError;
use crate::notifier::Notifier;
use crate::notifier::publish_effect;
use crate::registry::TopicRegistry;
use crate::store::PollStore;
use crate::store::cast_applied;
use crate::store::vote_count;

verus! {

/// After `subscribe(s, p)` and then `drop_session(s)` — however the two
/// calls are interleaved with other sessions' traffic in between, which
/// only the relation for sessions other than `s` may touch — the registry
/// holds no reference to `s` in either direction map: no leaked entries.
///
/// `r1` is a state reached after `subscribe(s, p)` ran on `r0`, and `r2`
/// one reached after `drop_session(s)` ran later; the hypotheses are
/// those calls' postconditions.
pub proof fn lemma_subscribe_then_drop_no_leak(
    r0: TopicRegistry,
    r1: TopicRegistry,
    r2: TopicRegistry,
    s: u64,
    p: u64,
)
    requires
        r0.inv(),
        r1.inv(),
        forall|s2: u64, p2: u64|
            r1.subscribed(s2, p2) == (r0.subscribed(s2, p2) || (s2 == s && p2 == p)),
        r2.inv(),
        !r2.mentions_session(s),
    ensures
        !r2.by_session@.contains_key(s),
        forall|p2: u64| #[trigger] r2.by_poll@.contains_key(p2) ==> !r2.by_poll@[p2]@.contains(s),
        forall|p2: u64| !r2.subscribed(s, p2),
{
    assert forall|p2: u64| #[trigger]
        r2.by_poll@.contains_key(p2) implies !r2.by_poll@[p2]@.contains(s) by {
        if r2.by_poll@[p2]@.contains(s) {
            assert(r2.mentions_session(s));
        }
    }
}

/// Subscribing is idempotent: a second `subscribe(s, p)` leaves the
/// interest relation exactly as the first left it.  `r1` is a state
/// reached by `subscribe(s, p)` from `r0`, and `r2` one reached by the
/// same call again from `r1`; the hypotheses are that call's
/// postcondition.
pub proof fn lemma_subscribe_idempotent(
    r0: TopicRegistry,
    r1: TopicRegistry,
    r2: TopicRegistry,
    s: u64,
    p: u64,
)
    requires
        forall|s2: u64, p2: u64|
            r1.subscribed(s2, p2) == (r0.subscribed(s2, p2) || (s2 == s && p2 == p)),
        forall|s2: u64, p2: u64|
            r2.subscribed(s2, p2) == (r1.subscribed(s2, p2) || (s2 == s && p2 == p)),
    ensures
        forall|s2: u64, p2: u64| r2.subscribed(s2, p2) == r1.subscribed(s2, p2),
{
}

/// Unsubscribing is idempotent, and a no-op for a pair that was never
/// subscribed: the relation afterwards is the old one minus the pair,
/// whether or not the pair was there.
pub proof fn lemma_unsubscribe_idempotent(
    r0: TopicRegistry,
    r1: TopicRegistry,
    r2: TopicRegistry,
    s: u64,
    p: u64,
)
    requires
        forall|s2: u64, p2: u64|
            r1.subscribed(s2, p2) == (r0.subscribed(s2, p2) && !(s2 == s && p2 == p)),
        forall|s2: u64, p2: u64|
            r2.subscribed(s2, p2) == (r1.subscribed(s2, p2) && !(s2 == s && p2 == p)),
    ensures
        forall|s2: u64, p2: u64| r2.subscribed(s2, p2) == r1.subscribed(s2, p2),
{
}

/// Session identifiers are never reused within a process lifetime: every
/// identifier ever handed out is below the allocator counter, no
/// operation lowers the counter — disconnecting included — and `connect`
/// assigns the counter value itself.  So an identifier in use in some
/// earlier state can never be assigned again later.
pub proof fn lemma_session_ids_never_reused(n0: Notifier, n1: Notifier, id: u64)
    requires
        n0.inv(),
        n0.connected(id),
        n1.next_session_id >= n0.next_session_id,
    ensures
        n1.next_session_id != id,
{
}

/// One vote per question and voter, atomically: once a cast for some
/// option of a question by `voter` has succeeded, no later cast by
/// `voter` for any option `oid2` of the same question can succeed — and
/// whenever such a request passes the poll and option checks at all, it
/// is rejected as a duplicate.  The duplicate check and the insert run
/// inside one exclusive borrow of the store, so of overlapping casts for
/// the same question and voter exactly the one serialized first succeeds.
pub proof fn lemma_second_cast_rejected(
    pre: PollStore,
    post: PollStore,
    poll_id: u64,
    option_id: u64,
    poll_id2: u64,
    oid2: u64,
    voter: Seq<char>,
)
    requires
        pre.wf(),
        pre.cast_vote_error(poll_id, option_id, voter) is None,
        cast_applied(pre, post, poll_id, option_id, voter),
        post.has_option(oid2),
        post.option_question(oid2) == pre.option_question(option_id),
    ensures
        post.cast_vote_error(poll_id2, oid2, voter) is Some,
        post.has_poll(poll_id2) && !post.poll_closed(poll_id2) && post.option_under_poll(
            oid2,
            poll_id2,
        ) ==> post.cast_vote_error(poll_id2, oid2, voter) == Some(VoteError::DuplicateVote),
{
    let q = pre.option_question(option_id);
    let n = post.votes@.len() - 1;
    assert(post.votes@[n].question_id == q && post.votes@[n].voter@ == voter);
    assert(post.has_vote(q, voter));
}

/// The score cache never diverges: in every well-formed store, each
/// option's `score` equals the number of recorded votes for that option.
pub proof fn lemma_score_matches_votes(s: PollStore, i: int)
    requires
        s.wf(),
        0 <= i < s.options@.len(),
    ensures
        s.options@[i].score as nat == vote_count(s.votes@, s.options@[i].id),
{
}

/// Fan-out is exact: a publish for `poll_id` appends the event to the
/// queue of every session subscribed to it that has room, and leaves
/// every session not subscribed to it — those watching only other polls
/// included — completely untouched.
pub proof fn lemma_publish_exact(
    pre: Notifier,
    post: Notifier,
    poll_id: u64,
    reason: ChangeReason,
    id: u64,
)
    requires
        pre.inv(),
        publish_effect(pre, post, poll_id, reason),
        pre.connected(id),
    ensures
        pre.subscribed(id, poll_id) && pre.queue_of(id).len() < pre.sessions@[id].capacity
            ==> post.queue_of(id) == pre.queue_of(id).push(PollChangedEvent { poll_id, reason }),
        !pre.subscribed(id, poll_id) ==> post.sessions@[id] == pre.sessions@[id],
{
}

/// A stalled consumer is isolated: when one subscriber's queue is full, a
/// publish still delivers to every other subscriber with room, and the
/// full queue is simply left as it was — the delivery to it is dropped,
/// never waited for.
pub proof fn lemma_stalled_session_blocks_nobody(
    pre: Notifier,
    post: Notifier,
    poll_id: u64,
    reason: ChangeReason,
    stalled: u64,
    other: u64,
)
    requires
        pre.inv(),
        publish_effect(pre, post, poll_id, reason),
        pre.connected(stalled),
        pre.subscribed(stalled, poll_id),
        pre.queue_of(stalled).len() >= pre.sessions@[stalled].capacity,
        pre.connected(other),
        pre.subscribed(other, poll_id),
        pre.queue_of(other).len() < pre.sessions@[other].capacity,
    ensures
        post.queue_of(other) == pre.queue_of(other).push(PollChangedEvent { poll_id, reason }),
        post.sessions@[stalled] == pre.sessions@[stalled],
{
}

} // verus!
