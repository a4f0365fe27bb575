//! Recurring issues mirrored onto a remote tracker: recurrence rules, issue
//! lifecycle state, the persisted store and the decisions of one sync pass.

pub mod env;
pub mod github;
pub mod issue;
pub mod recurrence;
pub mod state;
pub mod sync;
pub mod time;
