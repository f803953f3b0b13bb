//! Poll store: polls, their questions and options, and the recorded votes,
//! together with the vote-recording state machine.
//!
//! Every option's `score` field is a cache of the number of recorded votes
//! for that option; well-formedness says the two never diverge, and every
//! operation preserves it.  A voter answers each question at most once:
//! the duplicate check and the vote insert happen inside one exclusive
//! borrow of the store, so two casts for the same (question, voter) can
//! never both succeed.

use vstd::prelude::*;
use crate::events::AdminError;
use crate::events::ChangeReason;
use crate::events::PollChangedEvent;
use crate::events::VoteError;

verus! {

/// A votable item, owned by its creator, open until closed (one-way).
pub struct Poll {
    pub id: u64,
    pub creator: String,
    pub closed: bool,
}

/// One question under a poll.
pub struct Question {
    pub id: u64,
    pub poll_id: u64,
}

/// One answer choice under a question, with its cached vote count.
pub struct PollOption {
    pub id: u64,
    pub question_id: u64,
    pub score: usize,
}

/// One recorded vote.  Never mutated; deleted only by a poll reset.
pub struct Vote {
    pub question_id: u64,
    pub option_id: u64,
    pub voter: String,
}

/// The number of votes in `votes` recorded for option `oid`.
pub open spec fn vote_count(votes: Seq<Vote>, oid: u64) -> nat
    decreases votes.len(),
{
    if votes.len() == 0 {
        0
    } else {
        vote_count(votes.drop_last(), oid) + (if votes.last().option_id == oid {
            1nat
        } else {
            0nat
        })
    }
}

/// Appending one vote raises exactly that option's count by one.
pub proof fn lemma_vote_count_push(votes: Seq<Vote>, v: Vote, oid: u64)
    ensures
        vote_count(votes.push(v), oid) == vote_count(votes, oid) + (if v.option_id == oid {
            1nat
        } else {
            0nat
        }),
{
    assert(votes.push(v).drop_last() =~= votes);
    assert(votes.push(v).last() == v);
}

/// A count never exceeds the number of votes.
pub proof fn lemma_vote_count_le_len(votes: Seq<Vote>, oid: u64)
    ensures
        vote_count(votes, oid) <= votes.len(),
    decreases votes.len(),
{
    if votes.len() > 0 {
        lemma_vote_count_le_len(votes.drop_last(), oid);
    }
}

/// An option nothing voted for counts zero.
pub proof fn lemma_vote_count_absent(votes: Seq<Vote>, oid: u64)
    requires
        forall|k: int| 0 <= k < votes.len() ==> votes[k].option_id != oid,
    ensures
        vote_count(votes, oid) == 0,
    decreases votes.len(),
{
    if votes.len() > 0 {
        assert(forall|k: int|
            0 <= k < votes.drop_last().len() ==> votes.drop_last()[k] == votes[k]);
        lemma_vote_count_absent(votes.drop_last(), oid);
    }
}

/// How filtering the votes changes a count: keeping every vote for `oid`
/// keeps its count, dropping every vote for `oid` zeroes it.
pub proof fn lemma_vote_count_filter(votes: Seq<Vote>, pred: spec_fn(Vote) -> bool, oid: u64)
    ensures
        (forall|k: int| 0 <= k < votes.len() && votes[k].option_id == oid ==> pred(votes[k]))
            ==> vote_count(votes.filter(pred), oid) == vote_count(votes, oid),
        (forall|k: int| 0 <= k < votes.len() && votes[k].option_id == oid ==> !pred(votes[k]))
            ==> vote_count(votes.filter(pred), oid) == 0,
    decreases votes.len(),
{
    reveal(Seq::filter);
    if votes.len() == 0 {
    } else {
        let prefix = votes.drop_last();
        let last = votes.last();
        assert(forall|k: int| 0 <= k < prefix.len() ==> prefix[k] == votes[k]);
        lemma_vote_count_filter(prefix, pred, oid);
        if pred(last) {
            lemma_vote_count_push(prefix.filter(pred), last, oid);
        }
    }
}

/// The store behind the vote, close and reset operations.
pub struct PollStore {
    pub polls: Vec<Poll>,
    pub questions: Vec<Question>,
    pub options: Vec<PollOption>,
    pub votes: Vec<Vote>,
}

impl PollStore {
    /// A poll with this identifier exists.
    pub open spec fn has_poll(self, pid: u64) -> bool {
        exists|i: int| 0 <= i < self.polls@.len() && self.polls@[i].id == pid
    }

    /// A poll with this identifier exists and its `closed` flag is set.
    pub open spec fn poll_closed(self, pid: u64) -> bool {
        exists|i: int|
            0 <= i < self.polls@.len() && self.polls@[i].id == pid && self.polls@[i].closed
    }

    /// `who` created poll `pid`.
    pub open spec fn is_creator(self, pid: u64, who: Seq<char>) -> bool {
        exists|i: int|
            0 <= i < self.polls@.len() && self.polls@[i].id == pid && self.polls@[i].creator@
                == who
    }

    /// A question with this identifier exists.
    pub open spec fn has_question(self, qid: u64) -> bool {
        exists|i: int| 0 <= i < self.questions@.len() && self.questions@[i].id == qid
    }

    /// The poll a question belongs to (meaningful when the question exists).
    pub open spec fn question_poll(self, qid: u64) -> u64 {
        let i = choose|i: int| 0 <= i < self.questions@.len() && self.questions@[i].id == qid;
        self.questions@[i].poll_id
    }

    /// An option with this identifier exists.
    pub open spec fn has_option(self, oid: u64) -> bool {
        exists|i: int| 0 <= i < self.options@.len() && self.options@[i].id == oid
    }

    /// The question an option belongs to (meaningful when the option exists).
    pub open spec fn option_question(self, oid: u64) -> u64 {
        let i = choose|i: int| 0 <= i < self.options@.len() && self.options@[i].id == oid;
        self.options@[i].question_id
    }

    /// Question `qid` exists and sits under poll `pid`.
    pub open spec fn question_under_poll(self, qid: u64, pid: u64) -> bool {
        self.has_question(qid) && self.question_poll(qid) == pid
    }

    /// Option `oid` exists and belongs to a question under poll `pid`.
    pub open spec fn option_under_poll(self, oid: u64, pid: u64) -> bool {
        self.has_option(oid) && self.question_under_poll(self.option_question(oid), pid)
    }

    /// A vote by `voter` on question `qid` is recorded.
    pub open spec fn has_vote(self, qid: u64, voter: Seq<char>) -> bool {
        exists|i: int|
            0 <= i < self.votes@.len() && self.votes@[i].question_id == qid
                && self.votes@[i].voter@ == voter
    }

    /// Well-formedness.
    ///
    /// Identifiers are unique per table; every option's question and every
    /// vote's option exist, and a vote's question is its option's question;
    /// a voter answered each question at most once; and every option's
    /// cached `score` equals the number of its recorded votes.
    pub open spec fn wf(self) -> bool {
        &&& forall|i: int, j: int|
            0 <= i < j < self.polls@.len() ==> self.polls@[i].id != self.polls@[j].id
        &&& forall|i: int, j: int|
            0 <= i < j < self.questions@.len() ==> self.questions@[i].id != self.questions@[j].id
        &&& forall|i: int, j: int|
            0 <= i < j < self.options@.len() ==> self.options@[i].id != self.options@[j].id
        &&& forall|i: int|
            0 <= i < self.options@.len() ==> self.has_question(
                #[trigger] self.options@[i].question_id,
            )
        &&& forall|i: int|
            0 <= i < self.votes@.len() ==> self.has_option(#[trigger] self.votes@[i].option_id)
                && self.votes@[i].question_id == self.option_question(self.votes@[i].option_id)
        &&& forall|i: int, j: int|
            0 <= i < j < self.votes@.len() ==> !(self.votes@[i].question_id
                == self.votes@[j].question_id && self.votes@[i].voter@ == self.votes@[j].voter@)
        &&& forall|i: int|
            0 <= i < self.options@.len() ==> (#[trigger] self.options@[i].score) as nat
                == vote_count(self.votes@, self.options@[i].id)
    }

    /// An empty store.
    pub fn new() -> (r: Self)
        ensures
            r.wf(),
            r.polls@.len() == 0,
            r.questions@.len() == 0,
            r.options@.len() == 0,
            r.votes@.len() == 0,
    {
        PollStore { polls: Vec::new(), questions: Vec::new(), options: Vec::new(), votes: Vec::new() }
    }

    /// Index of the poll with identifier `pid`, if any.
    fn find_poll(&self, pid: u64) -> (r: Option<usize>)
        ensures
            match r {
                Some(i) => i < self.polls@.len() && self.polls@[i as int].id == pid,
                None => !self.has_poll(pid),
            },
    {
        let mut i: usize = 0;
        while i < self.polls.len()
            invariant
                i <= self.polls@.len(),
                forall|j: int| 0 <= j < i ==> self.polls@[j].id != pid,
            decreases self.polls@.len() - i,
        {
            if self.polls[i].id == pid {
                return Some(i);
            }
            i = i + 1;
        }
        None
    }

    /// Index of the question with identifier `qid`, if any.
    fn find_question(&self, qid: u64) -> (r: Option<usize>)
        ensures
            match r {
                Some(i) => i < self.questions@.len() && self.questions@[i as int].id == qid,
                None => !self.has_question(qid),
            },
    {
        let mut i: usize = 0;
        while i < self.questions.len()
            invariant
                i <= self.questions@.len(),
                forall|j: int| 0 <= j < i ==> self.questions@[j].id != qid,
            decreases self.questions@.len() - i,
        {
            if self.questions[i].id == qid {
                return Some(i);
            }
            i = i + 1;
        }
        None
    }

    /// Index of the option with identifier `oid`, if any.
    fn find_option(&self, oid: u64) -> (r: Option<usize>)
        ensures
            match r {
                Some(i) => i < self.options@.len() && self.options@[i as int].id == oid,
                None => !self.has_option(oid),
            },
    {
        let mut i: usize = 0;
        while i < self.options.len()
            invariant
                i <= self.options@.len(),
                forall|j: int| 0 <= j < i ==> self.options@[j].id != oid,
            decreases self.options@.len() - i,
        {
            if self.options[i].id == oid {
                return Some(i);
            }
            i = i + 1;
        }
        None
    }

    /// With unique option identifiers, the question of the option stored at
    /// index `i` is what `option_question` names.
    proof fn lemma_option_question_at(self, i: int)
        requires
            forall|a: int, b: int|
                0 <= a < b < self.options@.len() ==> self.options@[a].id != self.options@[b].id,
            0 <= i < self.options@.len(),
        ensures
            self.has_option(self.options@[i].id),
            self.option_question(self.options@[i].id) == self.options@[i].question_id,
    {
        let oid = self.options@[i].id;
        assert(self.has_option(oid));
        let j = choose|j: int| 0 <= j < self.options@.len() && self.options@[j].id == oid;
        if i < j {
            assert(self.options@[i].id != self.options@[j].id);
        } else if j < i {
            assert(self.options@[j].id != self.options@[i].id);
        }
    }

    /// Create a poll, open, owned by `creator`.  Refused when the
    /// identifier is taken; nothing changes then.
    pub fn add_poll(&mut self, id: u64, creator: String) -> (ok: bool)
        requires
            old(self).wf(),
        ensures
            final(self).wf(),
            ok == !old(self).has_poll(id),
            !ok ==> *final(self) == *old(self),
            ok ==> {
                &&& final(self).questions@ == old(self).questions@
                &&& final(self).options@ == old(self).options@
                &&& final(self).votes@ == old(self).votes@
                &&& final(self).polls@.len() == old(self).polls@.len() + 1
                &&& final(self).polls@.drop_last() == old(self).polls@
                &&& final(self).polls@.last().id == id
                &&& final(self).polls@.last().creator@ == creator@
                &&& !final(self).polls@.last().closed
                &&& final(self).has_poll(id)
                &&& !final(self).poll_closed(id)
            },
    {
        match self.find_poll(id) {
            Some(_) => false,
            None => {
                let ghost pre = *self;
                self.polls.push(Poll { id, creator, closed: false });
                proof {
                    assert(self.polls@.drop_last() =~= pre.polls@);
                    assert forall|a: int, b: int|
                        0 <= a < b < self.polls@.len() implies self.polls@[a].id
                        != self.polls@[b].id by {
                        if b < self.polls@.len() - 1 {
                            assert(pre.polls@[a].id != pre.polls@[b].id);
                        } else {
                            assert(!(exists|k: int|
                                0 <= k < pre.polls@.len() && pre.polls@[k].id == id));
                        }
                    }
                }
                true
            },
        }
    }

    /// Create a question under an existing poll.  Refused when the poll is
    /// absent or the identifier is taken; nothing changes then.
    pub fn add_question(&mut self, id: u64, poll_id: u64) -> (ok: bool)
        requires
            old(self).wf(),
        ensures
            final(self).wf(),
            ok == (old(self).has_poll(poll_id) && !old(self).has_question(id)),
            !ok ==> *final(self) == *old(self),
            ok ==> {
                &&& final(self).polls@ == old(self).polls@
                &&& final(self).options@ == old(self).options@
                &&& final(self).votes@ == old(self).votes@
                &&& final(self).questions@.len() == old(self).questions@.len() + 1
                &&& final(self).questions@.drop_last() == old(self).questions@
                &&& final(self).questions@.last().id == id
                &&& final(self).questions@.last().poll_id == poll_id
                &&& final(self).question_under_poll(id, poll_id)
            },
    {
        if self.find_poll(poll_id).is_none() {
            return false;
        }
        match self.find_question(id) {
            Some(_) => false,
            None => {
                let ghost pre = *self;
                self.questions.push(Question { id, poll_id });
                proof {
                    assert(self.questions@.drop_last() =~= pre.questions@);
                    let n = self.questions@.len() - 1;
                    assert forall|a: int, b: int|
                        0 <= a < b < self.questions@.len() implies self.questions@[a].id
                        != self.questions@[b].id by {
                        if b < n {
                            assert(pre.questions@[a].id != pre.questions@[b].id);
                        } else {
                            assert(!(exists|k: int|
                                0 <= k < pre.questions@.len() && pre.questions@[k].id == id));
                        }
                    }
                    assert forall|i: int|
                        0 <= i < self.options@.len() implies self.has_question(
                        #[trigger] self.options@[i].question_id,
                    ) by {
                        assert(pre.has_question(pre.options@[i].question_id));
                        let k = choose|k: int|
                            0 <= k < pre.questions@.len() && pre.questions@[k].id
                                == pre.options@[i].question_id;
                        assert(self.questions@[k].id == self.options@[i].question_id);
                    }
                    assert(self.questions@[n].id == id);
                    assert(self.has_question(id));
                    let w = choose|w: int|
                        0 <= w < self.questions@.len() && self.questions@[w].id == id;
                    if w < n {
                        assert(pre.questions@[w].id == id);
                        assert(pre.has_question(id));
                    }
                    assert(self.question_poll(id) == poll_id);
                }
                true
            },
        }
    }

    /// Create an option under an existing question, with score zero.
    /// Refused when the question is absent or the identifier is taken;
    /// nothing changes then.
    pub fn add_option(&mut self, id: u64, question_id: u64) -> (ok: bool)
        requires
            old(self).wf(),
        ensures
            final(self).wf(),
            ok == (old(self).has_question(question_id) && !old(self).has_option(id)),
            !ok ==> *final(self) == *old(self),
            ok ==> {
                &&& final(self).polls@ == old(self).polls@
                &&& final(self).questions@ == old(self).questions@
                &&& final(self).votes@ == old(self).votes@
                &&& final(self).options@.len() == old(self).options@.len() + 1
                &&& final(self).options@.drop_last() == old(self).options@
                &&& final(self).options@.last().id == id
                &&& final(self).options@.last().question_id == question_id
                &&& final(self).options@.last().score == 0
                &&& final(self).has_option(id)
                &&& final(self).option_question(id) == question_id
            },
    {
        let qi = match self.find_question(question_id) {
            None => {
                return false;
            },
            Some(qi) => qi,
        };
        match self.find_option(id) {
            Some(_) => false,
            None => {
                let ghost pre = *self;
                self.options.push(PollOption { id, question_id, score: 0 });
                proof {
                    assert(self.options@.drop_last() =~= pre.options@);
                    let n = self.options@.len() - 1;
                    assert forall|i: int|
                        0 <= i < self.options@.len() implies self.has_question(
                        #[trigger] self.options@[i].question_id,
                    ) by {
                        if i < n {
                            assert(pre.has_question(pre.options@[i].question_id));
                            let k = choose|k: int|
                                0 <= k < pre.questions@.len() && pre.questions@[k].id
                                    == pre.options@[i].question_id;
                            assert(self.questions@[k].id == self.options@[i].question_id);
                        } else {
                            assert(self.questions@[qi as int].id == question_id);
                        }
                    }
                    assert forall|a: int, b: int|
                        0 <= a < b < self.options@.len() implies self.options@[a].id
                        != self.options@[b].id by {
                        if b < n {
                            assert(pre.options@[a].id != pre.options@[b].id);
                        } else {
                            assert(!(exists|k: int|
                                0 <= k < pre.options@.len() && pre.options@[k].id == id));
                        }
                    }
                    assert forall|i: int|
                        0 <= i < self.votes@.len() implies self.has_option(
                        #[trigger] self.votes@[i].option_id,
                    ) && self.votes@[i].question_id == self.option_question(
                        self.votes@[i].option_id,
                    ) by {
                        assert(pre.has_option(pre.votes@[i].option_id));
                        let k = choose|k: int|
                            0 <= k < pre.options@.len() && pre.options@[k].id
                                == pre.votes@[i].option_id;
                        assert(self.options@[k].id == self.votes@[i].option_id);
                        pre.lemma_option_question_at(k);
                        self.lemma_option_question_at(k);
                    }
                    assert forall|i: int|
                        0 <= i < self.options@.len() implies (
                        #[trigger] self.options@[i].score) as nat == vote_count(
                        self.votes@,
                        self.options@[i].id,
                    ) by {
                        if i < n {
                            assert(pre.options@[i].score as nat == vote_count(
                                pre.votes@,
                                pre.options@[i].id,
                            ));
                        } else {
                            assert forall|k: int|
                                0 <= k < self.votes@.len() implies self.votes@[k].option_id
                                != id by {
                                assert(pre.has_option(pre.votes@[k].option_id));
                            }
                            lemma_vote_count_absent(self.votes@, id);
                        }
                    }
                    self.lemma_option_question_at(n);
                }
                true
            },
        }
    }
}

/// Votes answer distinct (question, voter) pairs.
pub open spec fn pair_unique(votes: Seq<Vote>) -> bool {
    forall|i: int, j: int|
        0 <= i < j < votes.len() ==> !(votes[i].question_id == votes[j].question_id
            && votes[i].voter@ == votes[j].voter@)
}

/// Every element of a filtered sequence occurs in the original.
proof fn lemma_filter_subset(s: Seq<Vote>, pred: spec_fn(Vote) -> bool)
    ensures
        forall|x: Vote| #[trigger] s.filter(pred).contains(x) ==> s.contains(x),
    decreases s.len(),
{
    reveal(Seq::filter);
    if s.len() > 0 {
        let prefix = s.drop_last();
        lemma_filter_subset(prefix, pred);
        assert forall|x: Vote| #[trigger] s.filter(pred).contains(x) implies s.contains(x) by {
            if pred(s.last()) && x == s.last() {
                assert(s[s.len() - 1] == x);
            } else {
                if s.filter(pred) =~= prefix.filter(pred).push(s.last()) {
                    let k = choose|k: int|
                        0 <= k < s.filter(pred).len() && s.filter(pred)[k] == x;
                    if k < prefix.filter(pred).len() {
                        assert(prefix.filter(pred).contains(x));
                    }
                } else {
                    assert(prefix.filter(pred).contains(x));
                }
                if prefix.contains(x) {
                    let k = choose|k: int| 0 <= k < prefix.len() && prefix[k] == x;
                    assert(s[k] == x);
                }
            }
        }
    }
}

/// Filtering keeps votes pairwise distinct on (question, voter).
proof fn lemma_filter_pair_unique(s: Seq<Vote>, pred: spec_fn(Vote) -> bool)
    requires
        pair_unique(s),
    ensures
        pair_unique(s.filter(pred)),
    decreases s.len(),
{
    reveal(Seq::filter);
    if s.len() > 0 {
        let prefix = s.drop_last();
        assert(forall|k: int| 0 <= k < prefix.len() ==> prefix[k] == s[k]);
        lemma_filter_pair_unique(prefix, pred);
        lemma_filter_subset(prefix, pred);
        if pred(s.last()) {
            let f = prefix.filter(pred).push(s.last());
            assert(s.filter(pred) == f);
            assert forall|i: int, j: int|
                0 <= i < j < f.len() implies !(f[i].question_id == f[j].question_id && f[i].voter@
                == f[j].voter@) by {
                if j == f.len() - 1 {
                    assert(f[j] == s.last());
                    assert(prefix.filter(pred).contains(f[i]));
                    assert(prefix.contains(f[i]));
                    let k = choose|k: int| 0 <= k < prefix.len() && prefix[k] == f[i];
                    assert(!(s[k].question_id == s[s.len() - 1].question_id && s[k].voter@
                        == s[s.len() - 1].voter@));
                }
            }
        }
    }
}

impl PollStore {
    /// With unique question identifiers, the poll of the question stored
    /// at index `i` is what `question_poll` names.
    proof fn lemma_question_poll_at(self, i: int)
        requires
            forall|a: int, b: int|
                0 <= a < b < self.questions@.len() ==> self.questions@[a].id
                    != self.questions@[b].id,
            0 <= i < self.questions@.len(),
        ensures
            self.has_question(self.questions@[i].id),
            self.question_poll(self.questions@[i].id) == self.questions@[i].poll_id,
    {
        let qid = self.questions@[i].id;
        assert(self.has_question(qid));
        let j = choose|j: int| 0 <= j < self.questions@.len() && self.questions@[j].id == qid;
        if i < j {
            assert(self.questions@[i].id != self.questions@[j].id);
        } else if j < i {
            assert(self.questions@[j].id != self.questions@[i].id);
        }
    }

    /// With unique poll identifiers, the poll stored at index `i` settles
    /// existence, the closed flag and creatorship for its identifier.
    proof fn lemma_poll_at(self, i: int)
        requires
            forall|a: int, b: int|
                0 <= a < b < self.polls@.len() ==> self.polls@[a].id != self.polls@[b].id,
            0 <= i < self.polls@.len(),
        ensures
            self.has_poll(self.polls@[i].id),
            self.poll_closed(self.polls@[i].id) == self.polls@[i].closed,
            forall|who: Seq<char>|
                self.is_creator(self.polls@[i].id, who) == (self.polls@[i].creator@ == who),
    {
        let pid = self.polls@[i].id;
        assert(self.has_poll(pid));
        if self.poll_closed(pid) {
            let j = choose|j: int|
                0 <= j < self.polls@.len() && self.polls@[j].id == pid && self.polls@[j].closed;
            if i < j {
                assert(self.polls@[i].id != self.polls@[j].id);
            } else if j < i {
                assert(self.polls@[j].id != self.polls@[i].id);
            }
        }
        assert forall|who: Seq<char>|
            self.is_creator(pid, who) == (self.polls@[i].creator@ == who) by {
            if self.is_creator(pid, who) {
                let j = choose|j: int|
                    0 <= j < self.polls@.len() && self.polls@[j].id == pid
                        && self.polls@[j].creator@ == who;
                if i < j {
                    assert(self.polls@[i].id != self.polls@[j].id);
                } else if j < i {
                    assert(self.polls@[j].id != self.polls@[i].id);
                }
            }
        }
    }

    /// Option existence and each option's question carry over to a store
    /// whose option table keeps the same identifiers and questions.
    proof fn lemma_option_maps_eq(self, post: PollStore)
        requires
            forall|a: int, b: int|
                0 <= a < b < self.options@.len() ==> self.options@[a].id != self.options@[b].id,
            post.options@.len() == self.options@.len(),
            forall|i: int|
                0 <= i < self.options@.len() ==> (#[trigger] post.options@[i]).id
                    == self.options@[i].id && post.options@[i].question_id
                    == self.options@[i].question_id,
        ensures
            forall|oid: u64| #[trigger] post.has_option(oid) == self.has_option(oid),
            forall|oid: u64| #[trigger]
                self.has_option(oid) ==> post.option_question(oid) == self.option_question(oid),
    {
        assert forall|oid: u64| #[trigger] post.has_option(oid) == self.has_option(oid) by {
            if self.has_option(oid) {
                let k = choose|k: int|
                    0 <= k < self.options@.len() && self.options@[k].id == oid;
                assert(post.options@[k].id == oid);
            }
            if post.has_option(oid) {
                let k = choose|k: int|
                    0 <= k < post.options@.len() && post.options@[k].id == oid;
                assert(self.options@[k].id == oid);
            }
        }
        assert forall|oid: u64| #[trigger]
            self.has_option(oid) implies post.option_question(oid) == self.option_question(
            oid,
        ) by {
            let i = choose|i: int| 0 <= i < self.options@.len() && self.options@[i].id == oid;
            self.lemma_option_question_at(i);
            assert(post.options@[i].id == oid);
            assert forall|a: int, b: int|
                0 <= a < b < post.options@.len() implies post.options@[a].id
                != post.options@[b].id by {
                assert(self.options@[a].id != self.options@[b].id);
            }
            post.lemma_option_question_at(i);
        }
    }

    /// Question existence and each question's poll carry over to a store
    /// with the same question table.
    proof fn lemma_question_maps_eq(self, post: PollStore)
        requires
            forall|a: int, b: int|
                0 <= a < b < self.questions@.len() ==> self.questions@[a].id
                    != self.questions@[b].id,
            post.questions@ == self.questions@,
        ensures
            forall|qid: u64| #[trigger] post.has_question(qid) == self.has_question(qid),
            forall|qid: u64| #[trigger]
                self.has_question(qid) ==> post.question_poll(qid) == self.question_poll(qid),
    {
        assert forall|qid: u64| #[trigger] post.has_question(qid) == self.has_question(qid) by {
            if self.has_question(qid) {
                let k = choose|k: int|
                    0 <= k < self.questions@.len() && self.questions@[k].id == qid;
                assert(post.questions@[k].id == qid);
            }
            if post.has_question(qid) {
                let k = choose|k: int|
                    0 <= k < post.questions@.len() && post.questions@[k].id == qid;
                assert(self.questions@[k].id == qid);
            }
        }
        assert forall|qid: u64| #[trigger]
            self.has_question(qid) implies post.question_poll(qid) == self.question_poll(
            qid,
        ) by {
            let i = choose|i: int|
                0 <= i < self.questions@.len() && self.questions@[i].id == qid;
            self.lemma_question_poll_at(i);
            post.lemma_question_poll_at(i);
        }
    }

    /// A recorded vote by `voter` on question `qid` exists.
    fn has_vote_exec(&self, qid: u64, voter: &String) -> (r: bool)
        ensures
            r == self.has_vote(qid, voter@),
    {
        let mut i: usize = 0;
        while i < self.votes.len()
            invariant
                i <= self.votes@.len(),
                forall|j: int|
                    0 <= j < i ==> !(self.votes@[j].question_id == qid && self.votes@[j].voter@
                        == voter@),
            decreases self.votes@.len() - i,
        {
            if self.votes[i].question_id == qid && self.votes[i].voter == *voter {
                assert(self.votes@[i as int].voter@ == voter@);
                return true;
            }
            i = i + 1;
        }
        false
    }

    /// The failure `cast_vote` reports on this request, if any, with the
    /// checks in their documented order.
    pub open spec fn cast_vote_error(self, poll_id: u64, option_id: u64, voter: Seq<char>) -> Option<
        VoteError,
    > {
        if !self.has_poll(poll_id) {
            Some(VoteError::NotFound)
        } else if self.poll_closed(poll_id) {
            Some(VoteError::PollClosed)
        } else if !self.option_under_poll(option_id, poll_id) {
            Some(VoteError::InvalidOption)
        } else if self.has_vote(self.option_question(option_id), voter) {
            Some(VoteError::DuplicateVote)
        } else {
            None
        }
    }

    /// The failure `close_poll` and `reset_poll` report on this request,
    /// if any: a poll that is absent or already closed reads as not found,
    /// then the requester must be the creator.
    pub open spec fn admin_error(self, poll_id: u64, requester: Seq<char>) -> Option<AdminError> {
        if !self.has_poll(poll_id) || self.poll_closed(poll_id) {
            Some(AdminError::NotFound)
        } else if !self.is_creator(poll_id, requester) {
            Some(AdminError::Forbidden)
        } else {
            None
        }
    }
}

impl PollStore {
    /// Record a vote by `voter` for option `option_id` under poll
    /// `poll_id`.
    ///
    /// The checks run in order — poll present, poll open, option under
    /// the poll, question not yet answered by this voter — and exactly
    /// the first failing one is reported, with the store untouched.  On
    /// success the vote row and the score increment are applied together,
    /// inside the same exclusive borrow, and the poll-changed event is
    /// returned for publication only then.
    pub fn cast_vote(&mut self, poll_id: u64, option_id: u64, voter: String) -> (r: Result<
        PollChangedEvent,
        VoteError,
    >)
        requires
            old(self).wf(),
            old(self).votes@.len() < usize::MAX,
        ensures
            final(self).wf(),
            match r {
                Result::Err(e) => Some(e) == old(self).cast_vote_error(poll_id, option_id, voter@)
                    && *final(self) == *old(self),
                Result::Ok(ev) => {
                    &&& old(self).cast_vote_error(poll_id, option_id, voter@) is None
                    &&& ev == (PollChangedEvent { poll_id, reason: ChangeReason::VoteCast })
                    &&& cast_applied(*old(self), *final(self), poll_id, option_id, voter@)
                },
            },
    {
        let pi = match self.find_poll(poll_id) {
            None => {
                return Err(VoteError::NotFound);
            },
            Some(pi) => pi,
        };
        proof {
            self.lemma_poll_at(pi as int);
        }
        if self.polls[pi].closed {
            return Err(VoteError::PollClosed);
        }
        let oi = match self.find_option(option_id) {
            None => {
                return Err(VoteError::InvalidOption);
            },
            Some(oi) => oi,
        };
        proof {
            self.lemma_option_question_at(oi as int);
        }
        let qid = self.options[oi].question_id;
        let qi = match self.find_question(qid) {
            None => {
                proof {
                    assert(false);
                }
                return Err(VoteError::InvalidOption);
            },
            Some(qi) => qi,
        };
        proof {
            self.lemma_question_poll_at(qi as int);
        }
        if self.questions[qi].poll_id != poll_id {
            return Err(VoteError::InvalidOption);
        }
        if self.has_vote_exec(qid, &voter) {
            return Err(VoteError::DuplicateVote);
        }
        let ghost pre = *self;
        proof {
            lemma_vote_count_le_len(pre.votes@, option_id);
        }
        let new_score = self.options[oi].score + 1;
        self.options.set(oi, PollOption { id: option_id, question_id: qid, score: new_score });
        self.votes.push(Vote { question_id: qid, option_id, voter });
        proof {
            let post = *self;
            let nv = post.votes@.last();
            assert(post.votes@.drop_last() =~= pre.votes@);
            pre.lemma_option_maps_eq(post);
            pre.lemma_question_maps_eq(post);
            assert forall|i: int|
                0 <= i < post.options@.len() implies self.has_question(
                #[trigger] post.options@[i].question_id,
            ) by {
                assert(pre.has_question(pre.options@[i].question_id));
            }
            assert forall|i: int|
                0 <= i < post.votes@.len() implies post.has_option(
                #[trigger] post.votes@[i].option_id,
            ) && post.votes@[i].question_id == post.option_question(post.votes@[i].option_id) by {
                if i < post.votes@.len() - 1 {
                    assert(pre.votes@[i] == post.votes@[i]);
                    assert(pre.has_option(pre.votes@[i].option_id));
                } else {
                    assert(pre.has_option(option_id));
                }
            }
            assert forall|i: int, j: int|
                0 <= i < j < post.votes@.len() implies !(post.votes@[i].question_id
                == post.votes@[j].question_id && post.votes@[i].voter@
                == post.votes@[j].voter@) by {
                if j < post.votes@.len() - 1 {
                    assert(pre.votes@[i] == post.votes@[i]);
                    assert(pre.votes@[j] == post.votes@[j]);
                } else {
                    assert(pre.votes@[i] == post.votes@[i]);
                    assert(!(pre.votes@[i].question_id == qid && pre.votes@[i].voter@
                        == nv.voter@));
                }
            }
            assert forall|i: int|
                0 <= i < post.options@.len() implies (#[trigger] post.options@[i].score) as nat
                == vote_count(post.votes@, post.options@[i].id) by {
                lemma_vote_count_push(pre.votes@, nv, post.options@[i].id);
                if i == oi {
                } else {
                    assert(pre.options@[i].score as nat == vote_count(
                        pre.votes@,
                        pre.options@[i].id,
                    ));
                    if i < oi {
                        assert(pre.options@[i].id != pre.options@[oi as int].id);
                    } else {
                        assert(pre.options@[oi as int].id != pre.options@[i].id);
                    }
                }
            }
        }
        Ok(PollChangedEvent { poll_id, reason: ChangeReason::VoteCast })
    }
}

impl PollStore {
    /// The cached score of option `oid` — by well-formedness, the number
    /// of recorded votes for it.  `None` for an unknown option.
    pub fn option_score(&self, oid: u64) -> (r: Option<usize>)
        requires
            self.wf(),
        ensures
            match r {
                Some(sc) => self.has_option(oid) && sc as nat == vote_count(self.votes@, oid),
                None => !self.has_option(oid),
            },
    {
        match self.find_option(oid) {
            Some(i) => Some(self.options[i].score),
            None => None,
        }
    }

    /// Whether poll `pid` is closed.  `None` for an unknown poll.
    pub fn poll_state(&self, pid: u64) -> (r: Option<bool>)
        requires
            self.wf(),
        ensures
            match r {
                Some(c) => self.has_poll(pid) && c == self.poll_closed(pid),
                None => !self.has_poll(pid),
            },
    {
        match self.find_poll(pid) {
            Some(i) => {
                proof {
                    self.lemma_poll_at(i as int);
                }
                Some(self.polls[i].closed)
            },
            None => None,
        }
    }
}

/// What a successful vote cast does: one vote row is appended for the
/// option's question, exactly that option's score rises by one, and
/// nothing else moves.
pub open spec fn cast_applied(
    pre: PollStore,
    post: PollStore,
    poll_id: u64,
    option_id: u64,
    voter: Seq<char>,
) -> bool {
    &&& post.polls@ == pre.polls@
    &&& post.questions@ == pre.questions@
    &&& post.votes@.len() == pre.votes@.len() + 1
    &&& post.votes@.drop_last() == pre.votes@
    &&& post.votes@.last().question_id == pre.option_question(option_id)
    &&& post.votes@.last().option_id == option_id
    &&& post.votes@.last().voter@ == voter
    &&& post.options@.len() == pre.options@.len()
    &&& forall|i: int|
        0 <= i < pre.options@.len() ==> {
            &&& (#[trigger] post.options@[i]).id == pre.options@[i].id
            &&& post.options@[i].question_id == pre.options@[i].question_id
            &&& post.options@[i].score == pre.options@[i].score + (if pre.options@[i].id
                == option_id {
                1int
            } else {
                0int
            })
        }
}

impl PollStore {
    /// Close poll `poll_id` on behalf of `requester`.
    ///
    /// A poll that is absent or already closed reads as not found; only
    /// the creator may close.  On success the flag is set — one-way — and
    /// the poll-changed event is returned for publication.
    pub fn close_poll(&mut self, poll_id: u64, requester: &String) -> (r: Result<
        PollChangedEvent,
        AdminError,
    >)
        requires
            old(self).wf(),
        ensures
            final(self).wf(),
            match r {
                Result::Err(e) => Some(e) == old(self).admin_error(poll_id, requester@)
                    && *final(self) == *old(self),
                Result::Ok(ev) => {
                    &&& old(self).admin_error(poll_id, requester@) is None
                    &&& ev == (PollChangedEvent { poll_id, reason: ChangeReason::Closed })
                    &&& close_applied(*old(self), *final(self), poll_id)
                    &&& final(self).poll_closed(poll_id)
                },
            },
    {
        let pi = match self.find_poll(poll_id) {
            None => {
                return Err(AdminError::NotFound);
            },
            Some(pi) => pi,
        };
        proof {
            self.lemma_poll_at(pi as int);
        }
        if self.polls[pi].closed {
            return Err(AdminError::NotFound);
        }
        if !(self.polls[pi].creator == *requester) {
            return Err(AdminError::Forbidden);
        }
        let ghost pre = *self;
        let creator = self.polls[pi].creator.clone();
        self.polls.set(pi, Poll { id: poll_id, creator, closed: true });
        proof {
            let post = *self;
            assert forall|a: int, b: int|
                0 <= a < b < post.polls@.len() implies post.polls@[a].id != post.polls@[b].id by {
                assert(pre.polls@[a].id != pre.polls@[b].id);
            }
            pre.lemma_option_maps_eq(post);
            pre.lemma_question_maps_eq(post);
            assert forall|i: int|
                0 <= i < post.options@.len() implies post.has_question(
                #[trigger] post.options@[i].question_id,
            ) by {
                assert(pre.has_question(pre.options@[i].question_id));
            }
            assert forall|i: int|
                0 <= i < post.votes@.len() implies post.has_option(
                #[trigger] post.votes@[i].option_id,
            ) && post.votes@[i].question_id == post.option_question(post.votes@[i].option_id) by {
                assert(pre.has_option(pre.votes@[i].option_id));
            }
            assert(post.polls@[pi as int].closed);
            post.lemma_poll_at(pi as int);
        }
        Ok(PollChangedEvent { poll_id, reason: ChangeReason::Closed })
    }
}

/// What a successful close does: the one poll's flag is set, one-way, and
/// nothing else moves.
pub open spec fn close_applied(pre: PollStore, post: PollStore, poll_id: u64) -> bool {
    &&& post.questions@ == pre.questions@
    &&& post.options@ == pre.options@
    &&& post.votes@ == pre.votes@
    &&& post.polls@.len() == pre.polls@.len()
    &&& forall|i: int|
        0 <= i < pre.polls@.len() ==> {
            &&& (#[trigger] post.polls@[i]).id == pre.polls@[i].id
            &&& post.polls@[i].creator == pre.polls@[i].creator
            &&& post.polls@[i].closed == (pre.polls@[i].closed || pre.polls@[i].id == poll_id)
        }
}

impl PollStore {
    /// Reset poll `poll_id` on behalf of `requester`.
    ///
    /// Permitted only while the poll is open (an absent or closed poll
    /// reads as not found) and only for the creator.  On success every
    /// vote for the poll's questions is deleted and every option under
    /// them scores zero again — both inside the same exclusive borrow, so
    /// no caller ever observes one without the other — and the
    /// poll-changed event is returned for publication.  The poll stays
    /// open.
    pub fn reset_poll(&mut self, poll_id: u64, requester: &String) -> (r: Result<
        PollChangedEvent,
        AdminError,
    >)
        requires
            old(self).wf(),
        ensures
            final(self).wf(),
            match r {
                Result::Err(e) => Some(e) == old(self).admin_error(poll_id, requester@)
                    && *final(self) == *old(self),
                Result::Ok(ev) => {
                    &&& old(self).admin_error(poll_id, requester@) is None
                    &&& ev == (PollChangedEvent { poll_id, reason: ChangeReason::Reset })
                    &&& reset_applied(*old(self), *final(self), poll_id)
                    &&& !final(self).poll_closed(poll_id)
                },
            },
    {
        let pi = match self.find_poll(poll_id) {
            None => {
                return Err(AdminError::NotFound);
            },
            Some(pi) => pi,
        };
        proof {
            self.lemma_poll_at(pi as int);
        }
        if self.polls[pi].closed {
            return Err(AdminError::NotFound);
        }
        if !(self.polls[pi].creator == *requester) {
            return Err(AdminError::Forbidden);
        }
        let ghost pre = *self;
        let ghost pred = |v: Vote| !pre.question_under_poll(v.question_id, poll_id);
        let mut src: Vec<Vote> = Vec::new();
        core::mem::swap(&mut src, &mut self.votes);
        let ghost ov = src@;
        let ghost mut done: int = 0;
        proof {
            assert(ov.subrange(0, 0).filter(pred) =~= Seq::<Vote>::empty());
            assert(src@ =~= ov.subrange(0, ov.len() as int));
        }
        while src.len() > 0
            invariant
                pre.wf(),
                self.polls@ == pre.polls@,
                self.questions@ == pre.questions@,
                self.options@ == pre.options@,
                ov == pre.votes@,
                pred == (|v: Vote| !pre.question_under_poll(v.question_id, poll_id)),
                0 <= done <= ov.len(),
                src@ == ov.subrange(done, ov.len() as int),
                self.votes@ == ov.subrange(0, done).filter(pred),
            decreases src@.len(),
        {
            let ghost src_pre = src@;
            let v = src.remove(0);
            proof {
                assert(src_pre[0] == ov[done]);
                assert(src@ =~= ov.subrange(done + 1, ov.len() as int));
            }
            let keep = match self.find_question(v.question_id) {
                None => true,
                Some(qi) => self.questions[qi].poll_id != poll_id,
            };
            proof {
                self.lemma_question_maps_eq(pre);
                if self.has_question(v.question_id) {
                    let qi2 = choose|k: int|
                        0 <= k < self.questions@.len() && self.questions@[k].id
                            == v.question_id;
                    self.lemma_question_poll_at(qi2);
                }
                assert(keep == pred(v)) by {
                    if keep {
                        if self.has_question(v.question_id) {
                        }
                    }
                }
            }
            if keep {
                self.votes.push(v);
            }
            proof {
                reveal(Seq::filter);
                let longer = ov.subrange(0, done + 1);
                assert(longer.drop_last() =~= ov.subrange(0, done));
                assert(longer.last() == ov[done]);
                done = done + 1;
            }
        }
        proof {
            assert(done == ov.len());
            assert(ov.subrange(0, ov.len() as int) =~= ov);
        }
        let ghost mid = *self;
        let mut i: usize = 0;
        while i < self.options.len()
            invariant
                pre.wf(),
                mid.polls@ == pre.polls@,
                mid.questions@ == pre.questions@,
                mid.votes@ == pre.votes@.filter(pred),
                mid.options@ == pre.options@,
                pred == (|v: Vote| !pre.question_under_poll(v.question_id, poll_id)),
                self.polls@ == mid.polls@,
                self.questions@ == mid.questions@,
                self.votes@ == mid.votes@,
                i <= self.options@.len(),
                self.options@.len() == pre.options@.len(),
                forall|j: int|
                    0 <= j < i ==> {
                        &&& (#[trigger] self.options@[j]).id == pre.options@[j].id
                        &&& self.options@[j].question_id == pre.options@[j].question_id
                        &&& self.options@[j].score == (if pre.question_under_poll(
                            pre.options@[j].question_id,
                            poll_id,
                        ) {
                            0int
                        } else {
                            pre.options@[j].score as int
                        })
                    },
                forall|j: int|
                    i <= j < self.options@.len() ==> (#[trigger] self.options@[j])
                        == pre.options@[j],
            decreases self.options@.len() - i,
        {
            let qid = self.options[i].question_id;
            let under = match self.find_question(qid) {
                None => false,
                Some(qi) => self.questions[qi].poll_id == poll_id,
            };
            proof {
                self.lemma_question_maps_eq(pre);
                if self.has_question(qid) {
                    let qi2 = choose|k: int|
                        0 <= k < self.questions@.len() && self.questions@[k].id == qid;
                    self.lemma_question_poll_at(qi2);
                }
                assert(under == pre.question_under_poll(qid, poll_id));
            }
            if under {
                let oid = self.options[i].id;
                self.options.set(i, PollOption { id: oid, question_id: qid, score: 0 });
            }
            i = i + 1;
        }
        proof {
            let post = *self;
            assert forall|a: int, b: int|
                0 <= a < b < post.options@.len() implies post.options@[a].id
                != post.options@[b].id by {
                assert(pre.options@[a].id != pre.options@[b].id);
            }
            pre.lemma_option_maps_eq(post);
            pre.lemma_question_maps_eq(post);
            assert forall|i2: int|
                0 <= i2 < post.options@.len() implies post.has_question(
                #[trigger] post.options@[i2].question_id,
            ) by {
                assert(pre.has_question(pre.options@[i2].question_id));
            }
            lemma_filter_subset(pre.votes@, pred);
            assert forall|i2: int|
                0 <= i2 < post.votes@.len() implies post.has_option(
                #[trigger] post.votes@[i2].option_id,
            ) && post.votes@[i2].question_id == post.option_question(
                post.votes@[i2].option_id,
            ) by {
                assert(post.votes@.contains(post.votes@[i2]));
                assert(pre.votes@.contains(post.votes@[i2]));
                let k = choose|k: int|
                    0 <= k < pre.votes@.len() && pre.votes@[k] == post.votes@[i2];
                assert(pre.has_option(pre.votes@[k].option_id));
            }
            assert(pair_unique(pre.votes@)) by {
                assert forall|a: int, b: int|
                    0 <= a < b < pre.votes@.len() implies !(pre.votes@[a].question_id
                    == pre.votes@[b].question_id && pre.votes@[a].voter@
                    == pre.votes@[b].voter@) by {}
            }
            lemma_filter_pair_unique(pre.votes@, pred);
            assert forall|i2: int|
                0 <= i2 < post.options@.len() implies (#[trigger] post.options@[i2].score) as nat
                == vote_count(post.votes@, post.options@[i2].id) by {
                let oid = pre.options@[i2].id;
                pre.lemma_option_question_at(i2);
                assert forall|k: int|
                    0 <= k < pre.votes@.len() && pre.votes@[k].option_id == oid implies
                pre.votes@[k].question_id == pre.options@[i2].question_id by {
                    assert(pre.votes@[k].question_id == pre.option_question(
                        pre.votes@[k].option_id,
                    ));
                }
                lemma_vote_count_filter(pre.votes@, pred, oid);
                if pre.question_under_poll(pre.options@[i2].question_id, poll_id) {
                } else {
                    assert(pre.options@[i2].score as nat == vote_count(pre.votes@, oid));
                }
            }
            post.lemma_poll_at(pi as int);
        }
        Ok(PollChangedEvent { poll_id, reason: ChangeReason::Reset })
    }
}

/// What a successful reset does: every vote under the poll's questions is
/// deleted and every option under them scores zero again, as one unit;
/// the polls themselves — the closed flag included — do not move.
pub open spec fn reset_applied(pre: PollStore, post: PollStore, poll_id: u64) -> bool {
    &&& post.polls@ == pre.polls@
    &&& post.questions@ == pre.questions@
    &&& post.votes@ == pre.votes@.filter(
        |v: Vote| !pre.question_under_poll(v.question_id, poll_id),
    )
    &&& post.options@.len() == pre.options@.len()
    &&& forall|i: int|
        0 <= i < pre.options@.len() ==> {
            &&& (#[trigger] post.options@[i]).id == pre.options@[i].id
            &&& post.options@[i].question_id == pre.options@[i].question_id
            &&& post.options@[i].score == (if pre.question_under_poll(
                pre.options@[i].question_id,
                poll_id,
            ) {
                0int
            } else {
                pre.options@[i].score as int
            })
        }
}

} // verus!

