//! Notifier: the single serialized owner of the topic registry and of all
//! live session state.
//!
//! Control events — subscribe, unsubscribe, disconnect, poll-changed — are
//! applied in arrival order.  Publishing appends the event to the bounded
//! outbound queue of every subscribed session; a session whose queue is
//! full has that one delivery silently dropped, so one stalled consumer
//! never blocks delivery to the others.

use vstd::prelude::*;
use vstd::hash_map::HashMapWithView;
use crate::events::ChangeReason;
use crate::events::PollChangedEvent;
use crate::registry::TopicRegistry;
use crate::registry::no_dup;

verus! {

/// One live client connection: its identifier and its outbound queue.
/// A full queue models a stalled consumer on the wire.
pub struct Session {
    pub id: u64,
    pub queue: Vec<PollChangedEvent>,
    pub capacity: usize,
}

impl Session {
    /// The queue never exceeds its bound.
    pub open spec fn wf(self) -> bool {
        self.queue@.len() <= self.capacity
    }

    /// Best-effort enqueue: appends when there is room, otherwise drops
    /// this one delivery (at-most-once, never blocking).
    pub fn offer(&mut self, ev: PollChangedEvent) -> (delivered: bool)
        requires
            old(self).wf(),
        ensures
            final(self).wf(),
            final(self).id == old(self).id,
            final(self).capacity == old(self).capacity,
            delivered == (old(self).queue@.len() < old(self).capacity),
            delivered ==> final(self).queue@ == old(self).queue@.push(ev),
            !delivered ==> *final(self) == *old(self),
    {
        if self.queue.len() < self.capacity {
            self.queue.push(ev);
            true
        } else {
            false
        }
    }

    /// Hand every queued event to the outbound relay, in FIFO order.
    pub fn drain(&mut self) -> (evs: Vec<PollChangedEvent>)
        ensures
            final(self).wf(),
            final(self).id == old(self).id,
            final(self).capacity == old(self).capacity,
            final(self).queue@ == Seq::<PollChangedEvent>::empty(),
            evs@ == old(self).queue@,
    {
        let mut taken: Vec<PollChangedEvent> = Vec::new();
        core::mem::swap(&mut taken, &mut self.queue);
        taken
    }
}

/// Central coordinator: the registry, the session records it exclusively
/// owns, and the allocator for session identifiers.
pub struct Notifier {
    pub registry: TopicRegistry,
    pub sessions: HashMapWithView<u64, Session>,
    pub next_session_id: u64,
}

/// `x` occurs among the first `n` elements of `s`.
spec fn in_prefix(s: Seq<u64>, n: int, x: u64) -> bool {
    exists|j: int| 0 <= j < n && s[j] == x
}

impl Notifier {
    /// Session `id` is currently registered.
    pub open spec fn connected(self, id: u64) -> bool {
        self.sessions@.contains_key(id)
    }

    /// Session `id` is currently subscribed to poll `p`.
    pub open spec fn subscribed(self, id: u64, p: u64) -> bool {
        self.registry.subscribed(id, p)
    }

    /// The pending outbound events of session `id`.
    pub open spec fn queue_of(self, id: u64) -> Seq<PollChangedEvent> {
        self.sessions@[id].queue@
    }

    /// Well-formedness: the registry is consistent, every session record
    /// is keyed by its own identifier and within its queue bound, every
    /// subscription points at a registered session, and no identifier at
    /// or above the allocator position is in use (identifiers are never
    /// reused).
    pub open spec fn inv(self) -> bool {
        &&& self.registry.inv()
        &&& forall|id: u64| #[trigger]
            self.sessions@.contains_key(id) ==> self.sessions@[id].id == id
                && self.sessions@[id].wf() && id < self.next_session_id
        &&& forall|id: u64, p: u64| #[trigger]
            self.registry.subscribed(id, p) ==> self.sessions@.contains_key(id)
    }

    /// A notifier with no sessions and no subscriptions.
    pub fn new() -> (r: Self)
        ensures
            r.inv(),
            r.next_session_id == 0,
            forall|id: u64| !r.connected(id),
            forall|id: u64, p: u64| !r.subscribed(id, p),
    {
        Notifier {
            registry: TopicRegistry::new(),
            sessions: HashMapWithView::new(),
            next_session_id: 0,
        }
    }

    /// Register a new session and subscribe it to `poll_id`.  The returned
    /// identifier is fresh: it was never in use before.  `None` only when
    /// the identifier space is exhausted.
    pub fn connect(&mut self, poll_id: u64, capacity: usize) -> (r: Option<u64>)
        requires
            old(self).inv(),
        ensures
            final(self).inv(),
            r is None <==> old(self).next_session_id == u64::MAX,
            r is None ==> *final(self) == *old(self),
            r is Some ==> {
                let id = r->Some_0;
                &&& id == old(self).next_session_id
                &&& final(self).next_session_id == old(self).next_session_id + 1
                &&& !old(self).connected(id)
                &&& final(self).connected(id)
                &&& final(self).queue_of(id) == Seq::<PollChangedEvent>::empty()
                &&& final(self).sessions@[id].capacity == capacity
                &&& forall|s2: u64, p2: u64|
                    final(self).subscribed(s2, p2) == (old(self).subscribed(s2, p2) || (s2 == id
                        && p2 == poll_id))
                &&& forall|id2: u64|
                    id2 != id ==> final(self).connected(id2) == old(self).connected(id2)
                &&& forall|id2: u64|
                    id2 != id && old(self).connected(id2) ==> final(self).sessions@[id2] == old(
                        self,
                    ).sessions@[id2]
            },
    {
        if self.next_session_id == u64::MAX {
            return None;
        }
        let id = self.next_session_id;
        self.next_session_id = self.next_session_id + 1;
        let sess = Session { id, queue: Vec::new(), capacity };
        self.sessions.insert(id, sess);
        self.registry.subscribe(id, poll_id);
        Some(id)
    }

    /// Remove session `id` and every subscription it held; its queued
    /// events are discarded.  Nothing in the notifier mentions `id`
    /// afterwards.
    pub fn disconnect(&mut self, id: u64)
        requires
            old(self).inv(),
        ensures
            final(self).inv(),
            !final(self).connected(id),
            !final(self).registry.mentions_session(id),
            forall|p: u64| !final(self).subscribed(id, p),
            forall|s2: u64, p2: u64|
                s2 != id ==> final(self).subscribed(s2, p2) == old(self).subscribed(s2, p2),
            forall|id2: u64| id2 != id ==> final(self).connected(id2) == old(self).connected(id2),
            forall|id2: u64|
                id2 != id && old(self).connected(id2) ==> final(self).sessions@[id2] == old(
                    self,
                ).sessions@[id2],
            final(self).next_session_id == old(self).next_session_id,
    {
        self.registry.drop_session(id);
        self.sessions.remove(&id);
    }

    /// Subscribe a registered session to a further poll.  Returns whether
    /// the session is registered; for an unknown session nothing changes.
    pub fn subscribe(&mut self, id: u64, poll_id: u64) -> (known: bool)
        requires
            old(self).inv(),
        ensures
            final(self).inv(),
            known == old(self).connected(id),
            !known ==> *final(self) == *old(self),
            known ==> forall|s2: u64, p2: u64|
                final(self).subscribed(s2, p2) == (old(self).subscribed(s2, p2) || (s2 == id && p2
                    == poll_id)),
            final(self).sessions@ == old(self).sessions@,
            final(self).next_session_id == old(self).next_session_id,
    {
        if self.sessions.contains_key(&id) {
            self.registry.subscribe(id, poll_id);
            true
        } else {
            false
        }
    }

    /// Withdraw a session's subscription to one poll; a no-op for an
    /// unknown session or an absent subscription.
    pub fn unsubscribe(&mut self, id: u64, poll_id: u64)
        requires
            old(self).inv(),
        ensures
            final(self).inv(),
            forall|s2: u64, p2: u64|
                final(self).subscribed(s2, p2) == (old(self).subscribed(s2, p2) && !(s2 == id && p2
                    == poll_id)),
            final(self).sessions@ == old(self).sessions@,
            final(self).next_session_id == old(self).next_session_id,
    {
        self.registry.unsubscribe(id, poll_id);
    }

    /// Hand the queued events of session `id` to its outbound relay, in
    /// the order they were published.  `None` for an unknown session.
    pub fn take_events(&mut self, id: u64) -> (evs: Option<Vec<PollChangedEvent>>)
        requires
            old(self).inv(),
        ensures
            final(self).inv(),
            evs is Some <==> old(self).connected(id),
            evs is None ==> final(self).sessions@ == old(self).sessions@ && final(self).registry
                == old(self).registry && final(self).next_session_id == old(self).next_session_id,
            evs is Some ==> {
                &&& evs->Some_0@ == old(self).queue_of(id)
                &&& final(self).queue_of(id) == Seq::<PollChangedEvent>::empty()
                &&& final(self).connected(id)
                &&& final(self).registry == old(self).registry
                &&& final(self).next_session_id == old(self).next_session_id
                &&& forall|id2: u64| final(self).connected(id2) == old(self).connected(id2)
                &&& forall|id2: u64|
                    id2 != id && old(self).connected(id2) ==> final(self).sessions@[id2] == old(
                        self,
                    ).sessions@[id2]
            },
    {
        let sess_opt = self.sessions.remove(&id);
        match sess_opt {
            Some(mut sess) => {
                let evs = sess.drain();
                self.sessions.insert(id, sess);
                Some(evs)
            },
            None => None,
        }
    }
}

/// What one publish call does: the event reaches the queue of every
/// session subscribed to `poll_id` that has room, the full ones drop this
/// one delivery, and every other session — and the registry itself — is
/// untouched.
pub open spec fn publish_effect(
    pre: Notifier,
    post: Notifier,
    poll_id: u64,
    reason: ChangeReason,
) -> bool {
    let ev = PollChangedEvent { poll_id, reason };
    &&& post.registry == pre.registry
    &&& post.next_session_id == pre.next_session_id
    &&& forall|id: u64|
        #![trigger post.sessions@.contains_key(id)]
        post.connected(id) == pre.connected(id)
    &&& forall|id: u64| #[trigger]
        pre.connected(id) ==> post.sessions@[id].id == pre.sessions@[id].id
            && post.sessions@[id].capacity == pre.sessions@[id].capacity
    &&& forall|id: u64| #[trigger]
        pre.connected(id) && pre.subscribed(id, poll_id) && pre.queue_of(id).len()
            < pre.sessions@[id].capacity ==> post.queue_of(id) == pre.queue_of(id).push(ev)
    &&& forall|id: u64| #[trigger]
        pre.connected(id) && pre.subscribed(id, poll_id) && pre.queue_of(id).len()
            >= pre.sessions@[id].capacity ==> post.sessions@[id] == pre.sessions@[id]
    &&& forall|id: u64| #[trigger]
        pre.connected(id) && !pre.subscribed(id, poll_id) ==> post.sessions@[id]
            == pre.sessions@[id]
}

impl Notifier {
    /// Fan a poll-changed event out to exactly the sessions subscribed to
    /// `poll_id` at this moment, each at most once, without waiting on any
    /// of them.
    pub fn publish(&mut self, poll_id: u64, reason: ChangeReason)
        requires
            old(self).inv(),
        ensures
            final(self).inv(),
            publish_effect(*old(self), *final(self), poll_id, reason),
    {
        let ghost pre = *old(self);
        let ev = PollChangedEvent { poll_id, reason };
        let subs = self.registry.subscribers(poll_id);
        let ghost sq = subs@;
        let mut i: usize = 0;
        while i < subs.len()
            invariant
                pre.inv(),
                subs@ == sq,
                i <= sq.len(),
                no_dup(sq),
                forall|s: u64| sq.contains(s) == pre.registry.subscribed(s, poll_id),
                self.registry == pre.registry,
                self.next_session_id == pre.next_session_id,
                forall|id: u64|
                    #![trigger self.sessions@.contains_key(id)]
                    self.connected(id) == pre.connected(id),
                forall|j: int|
                    #![trigger sq[j]]
                    0 <= j < i ==> {
                        let id = sq[j];
                        &&& self.sessions@.contains_key(id)
                        &&& self.sessions@[id].id == pre.sessions@[id].id
                        &&& self.sessions@[id].capacity == pre.sessions@[id].capacity
                        &&& if pre.queue_of(id).len() < pre.sessions@[id].capacity {
                            self.queue_of(id) == pre.queue_of(id).push(ev)
                        } else {
                            self.sessions@[id] == pre.sessions@[id]
                        }
                    },
                forall|id: u64| #[trigger]
                    pre.connected(id) && !in_prefix(sq, i as int, id) ==> self.sessions@[id]
                        == pre.sessions@[id],
                forall|id: u64| #[trigger]
                    self.sessions@.contains_key(id) ==> self.sessions@[id].id == id
                        && self.sessions@[id].wf() && id < self.next_session_id,
            decreases sq.len() - i,
        {
            let sid = subs[i];
            proof {
                assert(sq[i as int] == sid);
                assert(sq.contains(sid));
                assert(pre.registry.subscribed(sid, poll_id));
                assert(pre.connected(sid));
                assert(!in_prefix(sq, i as int, sid)) by {
                    if in_prefix(sq, i as int, sid) {
                        let j = choose|j: int| 0 <= j < i && sq[j] == sid;
                        assert(sq[j] == sq[i as int]);
                    }
                }
                assert(self.connected(sid));
                assert(self.sessions@.contains_key(sid));
                assert(self.sessions@[sid] == pre.sessions@[sid]);
                assert(pre.sessions@.contains_key(sid));
                assert(self.sessions@[sid].wf());
                assert(self.sessions@[sid].id == sid);
            }
            let sess_opt = self.sessions.remove(&sid);
            let mut sess = sess_opt.unwrap();
            sess.offer(ev);
            self.sessions.insert(sid, sess);
            proof {
                assert forall|id: u64|
                    pre.connected(id) && !in_prefix(sq, i + 1, id) implies self.sessions@[id]
                    == pre.sessions@[id] by {
                    assert(!in_prefix(sq, i as int, id));
                }
                assert forall|j: int| #![trigger sq[j]] 0 <= j < i + 1 implies {
                    let id = sq[j];
                    &&& self.sessions@.contains_key(id)
                    &&& self.sessions@[id].id == pre.sessions@[id].id
                    &&& self.sessions@[id].capacity == pre.sessions@[id].capacity
                    &&& if pre.queue_of(id).len() < pre.sessions@[id].capacity {
                        self.queue_of(id) == pre.queue_of(id).push(ev)
                    } else {
                        self.sessions@[id] == pre.sessions@[id]
                    }
                } by {
                    if j < i {
                        assert(sq[j] != sid);
                    }
                }
            }
            i = i + 1;
        }
        proof {
            assert forall|id: u64| #[trigger]
                pre.connected(id) && pre.subscribed(id, poll_id) && pre.queue_of(id).len()
                    < pre.sessions@[id].capacity implies self.queue_of(id) == pre.queue_of(
                id,
            ).push(ev) by {
                let j = choose|j: int| 0 <= j < sq.len() && sq[j] == id;
            }
            assert forall|id: u64| #[trigger]
                pre.connected(id) && pre.subscribed(id, poll_id) && pre.queue_of(id).len()
                    >= pre.sessions@[id].capacity implies self.sessions@[id]
                == pre.sessions@[id] by {
                let j = choose|j: int| 0 <= j < sq.len() && sq[j] == id;
            }
            assert forall|id: u64| #[trigger]
                pre.connected(id) && !pre.subscribed(id, poll_id) implies self.sessions@[id]
                == pre.sessions@[id] by {
                assert(!in_prefix(sq, sq.len() as int, id));
            }
            assert forall|id: u64| #[trigger]
                pre.connected(id) implies self.sessions@[id].id == pre.sessions@[id].id
                && self.sessions@[id].capacity == pre.sessions@[id].capacity by {
                if pre.subscribed(id, poll_id) {
                    let j = choose|j: int| 0 <= j < sq.len() && sq[j] == id;
                } else {
                    assert(!in_prefix(sq, sq.len() as int, id));
                }
            }
            assert forall|id: u64, p: u64| #[trigger]
                self.registry.subscribed(id, p) implies self.sessions@.contains_key(id) by {
                assert(pre.registry.subscribed(id, p));
                assert(pre.sessions@.contains_key(id));
                assert(self.sessions@.contains_key(id) == pre.sessions@.contains_key(id));
            }
        }
    }
}

} // verus!
