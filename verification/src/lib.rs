//! Real-time poll update fan-out.
//!
//! A central, serialized notifier tracks which live sessions are interested
//! in which poll, accepts poll-changed events produced by the vote, close
//! and reset operations, and pushes each event to exactly the sessions
//! subscribed to the affected poll.  The vote recorder enforces the
//! one-vote-per-question rule and keeps every option's cached score equal
//! to the number of recorded votes for that option.

pub mod auth;
pub mod events;
pub mod frames;
pub mod laws;
pub mod notifier;
pub mod registry;
pub mod service;
pub mod store;

pub use events::ChangeReason;
pub use events::PollChangedEvent;
pub use events::VoteError;
pub use events::AdminError;
