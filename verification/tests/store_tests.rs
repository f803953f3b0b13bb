use live_polls::store::PollStore;
use live_polls::AdminError;
use live_polls::ChangeReason;
use live_polls::PollChangedEvent;
use live_polls::VoteError;

fn one_question_two_options(creator: &str) -> PollStore {
    let mut s = PollStore::new();
    assert!(s.add_poll(1, creator.to_string()));
    assert!(s.add_question(10, 1));
    assert!(s.add_option(100, 10)); // option A
    assert!(s.add_option(101, 10)); // option B
    s
}

#[test]
fn vote_then_duplicate_on_same_question() {
    let mut s = one_question_two_options("creator@x");
    let r = s.cast_vote(1, 100, "alice@x".to_string());
    assert_eq!(r, Ok(PollChangedEvent { poll_id: 1, reason: ChangeReason::VoteCast }));
    assert_eq!(s.options[0].score, 1);
    assert_eq!(s.options[1].score, 0);
    // A second answer to the same question, even for the other option.
    let r2 = s.cast_vote(1, 101, "alice@x".to_string());
    assert_eq!(r2, Err(VoteError::DuplicateVote));
    assert_eq!(r2.unwrap_err().http_status(), 400);
    assert_eq!(s.options[0].score, 1);
    assert_eq!(s.options[1].score, 0);
    assert_eq!(s.votes.len(), 1);
}

#[test]
fn two_voters_may_answer_the_same_question() {
    let mut s = one_question_two_options("creator@x");
    assert!(s.cast_vote(1, 100, "alice@x".to_string()).is_ok());
    assert!(s.cast_vote(1, 100, "bob@x".to_string()).is_ok());
    assert_eq!(s.options[0].score, 2);
}

#[test]
fn vote_on_missing_poll_or_option() {
    let mut s = one_question_two_options("creator@x");
    assert_eq!(s.cast_vote(2, 100, "alice@x".to_string()), Err(VoteError::NotFound));
    assert_eq!(s.cast_vote(1, 999, "alice@x".to_string()), Err(VoteError::InvalidOption));
    // An option of a question under a different poll is invalid too.
    assert!(s.add_poll(2, "creator@x".to_string()));
    assert!(s.add_question(20, 2));
    assert!(s.add_option(200, 20));
    assert_eq!(s.cast_vote(1, 200, "alice@x".to_string()), Err(VoteError::InvalidOption));
}

#[test]
fn closed_poll_rejects_votes() {
    let mut s = one_question_two_options("creator@x");
    let creator = "creator@x".to_string();
    let r = s.close_poll(1, &creator);
    assert_eq!(r, Ok(PollChangedEvent { poll_id: 1, reason: ChangeReason::Closed }));
    let v = s.cast_vote(1, 100, "alice@x".to_string());
    assert_eq!(v, Err(VoteError::PollClosed));
    assert_eq!(v.unwrap_err().http_status(), 400);
}

#[test]
fn close_requires_the_creator() {
    let mut s = one_question_two_options("creator@x");
    let stranger = "mallory@x".to_string();
    let r = s.close_poll(1, &stranger);
    assert_eq!(r, Err(AdminError::Forbidden));
    assert_eq!(r.unwrap_err().http_status(), 401);
}

#[test]
fn close_missing_or_closed_poll_reads_not_found() {
    let mut s = one_question_two_options("creator@x");
    let creator = "creator@x".to_string();
    let r = s.close_poll(7, &creator);
    assert_eq!(r, Err(AdminError::NotFound));
    assert_eq!(r.unwrap_err().http_status(), 404);
    assert!(s.close_poll(1, &creator).is_ok());
    // Closing twice: the closed poll no longer matches.
    assert_eq!(s.close_poll(1, &creator), Err(AdminError::NotFound));
}

#[test]
fn reset_clears_votes_and_scores_and_keeps_the_poll_open() {
    let mut s = one_question_two_options("creator@x");
    assert!(s.cast_vote(1, 100, "alice@x".to_string()).is_ok());
    assert!(s.cast_vote(1, 101, "bob@x".to_string()).is_ok());
    let creator = "creator@x".to_string();
    let r = s.reset_poll(1, &creator);
    assert_eq!(r, Ok(PollChangedEvent { poll_id: 1, reason: ChangeReason::Reset }));
    assert_eq!(s.votes.len(), 0);
    assert_eq!(s.options[0].score, 0);
    assert_eq!(s.options[1].score, 0);
    // The poll stays open: voting works again.
    assert!(s.cast_vote(1, 100, "alice@x".to_string()).is_ok());
    assert_eq!(s.options[0].score, 1);
}

#[test]
fn reset_touches_only_the_one_poll() {
    let mut s = one_question_two_options("creator@x");
    assert!(s.add_poll(2, "creator@x".to_string()));
    assert!(s.add_question(20, 2));
    assert!(s.add_option(200, 20));
    assert!(s.cast_vote(1, 100, "alice@x".to_string()).is_ok());
    assert!(s.cast_vote(2, 200, "alice@x".to_string()).is_ok());
    let creator = "creator@x".to_string();
    assert!(s.reset_poll(1, &creator).is_ok());
    assert_eq!(s.options[0].score, 0);
    assert_eq!(s.options[2].score, 1);
    assert_eq!(s.votes.len(), 1);
}

#[test]
fn reset_requires_creator_and_an_open_poll() {
    let mut s = one_question_two_options("creator@x");
    let stranger = "mallory@x".to_string();
    assert_eq!(s.reset_poll(1, &stranger), Err(AdminError::Forbidden));
    let creator = "creator@x".to_string();
    assert!(s.close_poll(1, &creator).is_ok());
    assert_eq!(s.reset_poll(1, &creator), Err(AdminError::NotFound));
}

#[test]
fn duplicate_identifiers_are_refused() {
    let mut s = PollStore::new();
    assert!(s.add_poll(1, "a@x".to_string()));
    assert!(!s.add_poll(1, "b@x".to_string()));
    assert!(s.add_question(10, 1));
    assert!(!s.add_question(10, 1));
    assert!(!s.add_question(11, 99));
    assert!(s.add_option(100, 10));
    assert!(!s.add_option(100, 10));
    assert!(!s.add_option(101, 99));
}
