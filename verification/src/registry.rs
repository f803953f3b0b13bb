//! Topic registry: the live interest relation between sessions and polls.
//!
//! The relation is held twice, once per lookup direction, and the two maps
//! are proved to stay mutual inverses.  Entries are never left empty: a
//! poll key is present exactly while some session is subscribed to it, and
//! a session key exactly while that session is subscribed to some poll.

use vstd::prelude::*;
use vstd::hash_map::HashMapWithView;

verus! {

/// True when `s` holds no element twice.
pub open spec fn no_dup(s: Seq<u64>) -> bool {
    forall|i: int, j: int| 0 <= i < j < s.len() ==> s[i] != s[j]
}

/// Membership in a sequence after a push.
proof fn lemma_push_contains(s: Seq<u64>, x: u64, y: u64)
    ensures
        s.push(x).contains(y) <==> (s.contains(y) || y == x),
{
    if s.contains(y) {
        let i = choose|i: int| 0 <= i < s.len() && s[i] == y;
        assert(s.push(x)[i] == y);
    }
    if y == x {
        assert(s.push(x)[s.len() as int] == y);
    }
    if s.push(x).contains(y) {
        let i = choose|i: int| 0 <= i < s.push(x).len() && s.push(x)[i] == y;
        if i < s.len() {
            assert(s[i] == y);
        }
    }
}

/// Pushing a fresh element keeps a sequence duplicate-free.
proof fn lemma_push_no_dup(s: Seq<u64>, x: u64)
    requires
        no_dup(s),
        !s.contains(x),
    ensures
        no_dup(s.push(x)),
{
    assert forall|i: int, j: int| 0 <= i < j < s.push(x).len() implies s.push(x)[i]
        != s.push(x)[j] by {
        if j == s.len() {
            assert(s.contains(s[i]));
        }
    }
}

/// Scan for a value in a vector of identifiers.
fn seq_contains_u64(v: &Vec<u64>, x: u64) -> (r: bool)
    ensures
        r == v@.contains(x),
{
    let mut i: usize = 0;
    while i < v.len()
        invariant
            i <= v@.len(),
            forall|j: int| 0 <= j < i ==> v@[j] != x,
        decreases v@.len() - i,
    {
        if v[i] == x {
            assert(v@[i as int] == x);
            return true;
        }
        i = i + 1;
    }
    false
}

/// Remove the one occurrence of `x` from a duplicate-free vector.
fn seq_remove_u64(v: &mut Vec<u64>, x: u64)
    requires
        no_dup(old(v)@),
    ensures
        no_dup(final(v)@),
        forall|y: u64| final(v)@.contains(y) == (old(v)@.contains(y) && y != x),
{
    let ghost ov = v@;
    let mut i: usize = 0;
    while i < v.len()
        invariant
            v@ == ov,
            ov == old(v)@,
            no_dup(ov),
            i <= ov.len(),
            forall|j: int| 0 <= j < i ==> ov[j] != x,
        decreases ov.len() - i,
    {
        if v[i] == x {
            v.remove(i);
            proof {
                let nv = v@;
                assert forall|y: u64| nv.contains(y) == (ov.contains(y) && y != x) by {
                    lemma_remove_at_contains(ov, i as int, y);
                }
                assert forall|a: int, b: int| 0 <= a < b < nv.len() implies nv[a] != nv[b] by {
                    assert(nv[a] == (if a < i { ov[a] } else { ov[a + 1] }));
                    assert(nv[b] == (if b < i { ov[b] } else { ov[b + 1] }));
                }
            }
            return;
        }
        i = i + 1;
    }
    proof {
        assert forall|y: u64| v@.contains(y) implies y != x by {
            let j = choose|j: int| 0 <= j < ov.len() && ov[j] == y;
        }
    }
}

/// Membership in a duplicate-free sequence after removing position `i`,
/// where position `i` holds `x`.
proof fn lemma_remove_at_contains(s: Seq<u64>, i: int, y: u64)
    requires
        no_dup(s),
        0 <= i < s.len(),
    ensures
        s.remove(i).contains(y) == (s.contains(y) && y != s[i]),
{
    let r = s.remove(i);
    assert forall|k: int| 0 <= k < r.len() implies r[k] == (if k < i {
        s[k]
    } else {
        s[k + 1]
    }) by {}
    if r.contains(y) {
        let k = choose|k: int| 0 <= k < r.len() && r[k] == y;
        if k < i {
            assert(s[k] == y);
        } else {
            assert(s[k + 1] == y);
        }
    }
    if s.contains(y) && y != s[i] {
        let k = choose|k: int| 0 <= k < s.len() && s[k] == y;
        if k < i {
            assert(r[k] == y);
        } else {
            assert(r[k - 1] == y);
        }
    }
}

/// Interest relation `poll -> sessions` with its inverse `session -> polls`.
pub struct TopicRegistry {
    pub by_poll: HashMapWithView<u64, Vec<u64>>,
    pub by_session: HashMapWithView<u64, Vec<u64>>,
}

impl TopicRegistry {
    /// Session `s` is currently interested in poll `p`.
    pub open spec fn subscribed(self, s: u64, p: u64) -> bool {
        self.by_poll@.contains_key(p) && self.by_poll@[p]@.contains(s)
    }

    /// The registry holds some entry that names session `s`.
    pub open spec fn mentions_session(self, s: u64) -> bool {
        ||| self.by_session@.contains_key(s)
        ||| exists|p: u64| #[trigger] self.by_poll@.contains_key(p) && self.by_poll@[p]@.contains(s)
    }

    /// Well-formedness: no list is empty or holds duplicates, and the two
    /// maps are mutual inverses.
    pub open spec fn inv(self) -> bool {
        &&& forall|p: u64| #[trigger] self.by_poll@.contains_key(p) ==> self.by_poll@[p]@.len() > 0
            && no_dup(self.by_poll@[p]@)
        &&& forall|s: u64| #[trigger] self.by_session@.contains_key(s)
            ==> self.by_session@[s]@.len() > 0 && no_dup(self.by_session@[s]@)
        &&& forall|s: u64, p: u64|
            #![trigger self.by_poll@[p]@.contains(s)]
            #![trigger self.by_session@[s]@.contains(p)]
            (self.by_poll@.contains_key(p) && self.by_poll@[p]@.contains(s)) <==> (
            self.by_session@.contains_key(s) && self.by_session@[s]@.contains(p))
    }

    /// An empty registry: no poll has subscribers.
    pub fn new() -> (r: Self)
        ensures
            r.inv(),
            forall|s: u64, p: u64| !r.subscribed(s, p),
            forall|s: u64| !r.mentions_session(s),
    {
        TopicRegistry { by_poll: HashMapWithView::new(), by_session: HashMapWithView::new() }
    }

    /// Record interest of session `s` in poll `p`.  Idempotent: the
    /// resulting relation is the old one plus the single pair `(s, p)`.
    pub fn subscribe(&mut self, s: u64, p: u64)
        requires
            old(self).inv(),
        ensures
            final(self).inv(),
            forall|s2: u64, p2: u64|
                final(self).subscribed(s2, p2) == (old(self).subscribed(s2, p2) || (s2 == s && p2
                    == p)),
    {
        let already = match self.by_poll.get(&p) {
            Some(lst) => seq_contains_u64(lst, s),
            None => false,
        };
        if already {
            proof {
                assert(self.subscribed(s, p));
            }
            return;
        }
        let mut plist = match self.by_poll.remove(&p) {
            Some(lst) => lst,
            None => Vec::new(),
        };
        proof {
            lemma_push_contains(plist@, s, s);
            lemma_push_no_dup(plist@, s);
        }
        plist.push(s);
        self.by_poll.insert(p, plist);
        let mut slist = match self.by_session.remove(&s) {
            Some(lst) => lst,
            None => Vec::new(),
        };
        proof {
            lemma_push_no_dup(slist@, p);
        }
        slist.push(p);
        self.by_session.insert(s, slist);
        proof {
            let pre = *old(self);
            let post = *self;
            assert forall|s2: u64, p2: u64|
                post.subscribed(s2, p2) == (pre.subscribed(s2, p2) || (s2 == s && p2 == p)) by {
                if p2 == p {
                    lemma_push_contains(pre_poll_list(pre, p), s, s2);
                }
            }
            assert forall|s2: u64, p2: u64|
                #![trigger post.by_poll@[p2]@.contains(s2)]
                #![trigger post.by_session@[s2]@.contains(p2)]
                (post.by_poll@.contains_key(p2) && post.by_poll@[p2]@.contains(s2)) <==> (
            post.by_session@.contains_key(s2) && post.by_session@[s2]@.contains(p2)) by {
                if p2 == p {
                    lemma_push_contains(pre_poll_list(pre, p), s, s2);
                }
                if s2 == s {
                    lemma_push_contains(pre_session_list(pre, s), p, p2);
                }
            }
        }
    }

    /// Withdraw interest of session `s` in poll `p`.  Idempotent: the
    /// resulting relation is the old one minus the single pair `(s, p)`.
    pub fn unsubscribe(&mut self, s: u64, p: u64)
        requires
            old(self).inv(),
        ensures
            final(self).inv(),
            forall|s2: u64, p2: u64|
                final(self).subscribed(s2, p2) == (old(self).subscribed(s2, p2) && !(s2 == s && p2
                    == p)),
    {
        let ghost pre = *old(self);
        let was = match self.by_poll.get(&p) {
            Some(lst) => seq_contains_u64(lst, s),
            None => false,
        };
        if !was {
            return;
        }
        let plist_opt = self.by_poll.remove(&p);
        let mut plist = plist_opt.unwrap();
        seq_remove_u64(&mut plist, s);
        if plist.len() > 0 {
            self.by_poll.insert(p, plist);
        }
        let slist_opt = self.by_session.remove(&s);
        proof {
            assert(pre.by_session@[s]@.contains(p));
        }
        let mut slist = slist_opt.unwrap();
        seq_remove_u64(&mut slist, p);
        if slist.len() > 0 {
            self.by_session.insert(s, slist);
        }
        proof {
            let post = *self;
            assert forall|s2: u64, p2: u64|
                post.subscribed(s2, p2) == (pre.subscribed(s2, p2) && !(s2 == s && p2 == p)) by {}
            assert forall|s2: u64, p2: u64|
                #![trigger post.by_poll@[p2]@.contains(s2)]
                #![trigger post.by_session@[s2]@.contains(p2)]
                (post.by_poll@.contains_key(p2) && post.by_poll@[p2]@.contains(s2)) <==> (
            post.by_session@.contains_key(s2) && post.by_session@[s2]@.contains(p2)) by {}
        }
    }

    /// Remove session `s` and every subscription it held.  Afterwards the
    /// registry holds no reference to `s` in either direction map.
    pub fn drop_session(&mut self, s: u64)
        requires
            old(self).inv(),
        ensures
            final(self).inv(),
            forall|p: u64| !final(self).subscribed(s, p),
            !final(self).mentions_session(s),
            forall|s2: u64, p2: u64|
                s2 != s ==> final(self).subscribed(s2, p2) == old(self).subscribed(s2, p2),
    {
        let ghost pre = *old(self);
        let polls_opt = self.by_session.remove(&s);
        let polls = match polls_opt {
            Some(lst) => lst,
            None => {
                proof {
                    assert forall|p: u64| !self.subscribed(s, p) by {
                        assert(!(pre.by_session@.contains_key(s)
                            && pre.by_session@[s]@.contains(p)));
                    }
                }
                return;
            },
        };
        let ghost pl = polls@;
        proof {
            assert forall|j: int|
                0 <= j < pl.len() implies #[trigger] self.by_poll@.contains_key(pl[j])
                && self.by_poll@[pl[j]]@ == pre.by_poll@[pl[j]]@ by {
                assert(pre.by_session@[s]@.contains(pl[j]));
            }
        }
        let mut i: usize = 0;
        while i < polls.len()
            invariant
                polls@ == pl,
                i <= pl.len(),
                pre.inv(),
                no_dup(pl),
                pre.by_session@.contains_key(s),
                pl == pre.by_session@[s]@,
                self.by_session@ == pre.by_session@.remove(s),
                forall|j: int|
                    0 <= j < i ==> !(#[trigger] self.by_poll@.contains_key(pl[j])
                        && self.by_poll@[pl[j]]@.contains(s)),
                forall|j: int|
                    i <= j < pl.len() ==> #[trigger] self.by_poll@.contains_key(pl[j])
                        && self.by_poll@[pl[j]]@ == pre.by_poll@[pl[j]]@,
                forall|p2: u64|
                    !pl.contains(p2) ==> #[trigger] self.by_poll@.contains_key(p2)
                        == pre.by_poll@.contains_key(p2) && (self.by_poll@.contains_key(p2)
                        ==> self.by_poll@[p2]@ == pre.by_poll@[p2]@),
                forall|s2: u64, p2: u64|
                    #![trigger self.by_poll@[p2]@.contains(s2)]
                    #![trigger pre.by_poll@[p2]@.contains(s2)]
                    s2 != s ==> (self.by_poll@.contains_key(p2) && self.by_poll@[p2]@.contains(s2))
                        == (pre.by_poll@.contains_key(p2) && pre.by_poll@[p2]@.contains(s2)),
                forall|p2: u64| #[trigger]
                    self.by_poll@.contains_key(p2) ==> self.by_poll@[p2]@.len() > 0 && no_dup(
                        self.by_poll@[p2]@),
            decreases pl.len() - i,
        {
            let p = polls[i];
            let lst_opt = self.by_poll.remove(&p);
            proof {
                assert(pl[i as int] == p);
            }
            let mut lst = lst_opt.unwrap();
            seq_remove_u64(&mut lst, s);
            if lst.len() > 0 {
                self.by_poll.insert(p, lst);
            }
            proof {
                assert(pl[i as int] == p);
                assert forall|j: int|
                    i + 1 <= j < pl.len() implies #[trigger] self.by_poll@.contains_key(pl[j])
                    && self.by_poll@[pl[j]]@ == pre.by_poll@[pl[j]]@ by {
                    assert(pl[i as int] != pl[j]);
                }
            }
            i = i + 1;
        }
        proof {
            let post = *self;
            assert forall|p: u64| !post.subscribed(s, p) by {
                if post.by_poll@.contains_key(p) {
                    if pl.contains(p) {
                        let j = choose|j: int| 0 <= j < pl.len() && pl[j] == p;
                    } else {
                        assert(!(pre.by_session@.contains_key(s)
                            && pre.by_session@[s]@.contains(p)));
                        assert(!pre.by_poll@[p]@.contains(s));
                    }
                }
            }
            assert forall|s2: u64, p2: u64|
                #![trigger post.by_poll@[p2]@.contains(s2)]
                #![trigger post.by_session@[s2]@.contains(p2)]
                (post.by_poll@.contains_key(p2) && post.by_poll@[p2]@.contains(s2)) <==> (
            post.by_session@.contains_key(s2) && post.by_session@[s2]@.contains(p2)) by {
                if s2 != s {
                } else {
                    assert(!post.subscribed(s, p2));
                }
            }
        }
    }

    /// The sessions currently subscribed to poll `p`, each exactly once.
    pub fn subscribers(&self, p: u64) -> (subs: Vec<u64>)
        requires
            self.inv(),
        ensures
            no_dup(subs@),
            forall|s: u64| subs@.contains(s) == self.subscribed(s, p),
    {
        match self.by_poll.get(&p) {
            Some(lst) => copy_u64_vec(lst),
            None => Vec::new(),
        }
    }
}

/// Element-wise copy of a vector of identifiers.
fn copy_u64_vec(v: &Vec<u64>) -> (r: Vec<u64>)
    ensures
        r@ == v@,
{
    let mut r: Vec<u64> = Vec::new();
    let mut i: usize = 0;
    while i < v.len()
        invariant
            i <= v@.len(),
            r@ == v@.subrange(0, i as int),
        decreases v@.len() - i,
    {
        r.push(v[i]);
        proof {
            assert(r@ =~= v@.subrange(0, i + 1 as int));
        }
        i = i + 1;
    }
    proof {
        assert(r@ =~= v@);
    }
    r
}

/// The poll entry of `r` for `p`, or the empty sequence when absent.
spec fn pre_poll_list(r: TopicRegistry, p: u64) -> Seq<u64> {
    if r.by_poll@.contains_key(p) {
        r.by_poll@[p]@
    } else {
        Seq::empty()
    }
}

/// The session entry of `r` for `s`, or the empty sequence when absent.
spec fn pre_session_list(r: TopicRegistry, s: u64) -> Seq<u64> {
    if r.by_session@.contains_key(s) {
        r.by_session@[s]@
    } else {
        Seq::empty()
    }
}

} // verus!
