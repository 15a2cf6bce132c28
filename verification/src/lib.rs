//! Retention enforcement for a single chat channel: no message older than
//! thirty minutes stays visible.
//!
//! The crate holds the decisions only. A driver performs the remote calls
//! (fetching pages of history, deleting by id, reading the clock) and hands
//! their results back as plain values.

//!
//! - [`clock`]: points in time and the threshold.
//! - [`message`]: the managed channel, messages, and which of them a sweep
//!   deletes.
//! - [`store`]: what the remote store reports.
//! - [`live`]: the live expiry scheduler.
//! - [`backfill`]: the backfill sweeper.
//! - [`paging`]: what a sweep does against a paged history.
//! - [`config`]: the settings of the agent.

pub mod backfill;
pub mod clock;
pub mod config;
pub mod live;
pub mod message;
pub mod paging;
pub mod store;
