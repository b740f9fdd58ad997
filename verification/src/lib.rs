//! The core of a poll contract: polls with one tally per option, one ballot
//! per voter and poll, and the vote protocol that keeps tallies and ballots
//! in step.
//!
//! - `state`: the records (configuration, poll, ballot) and what a vote
//!   does to a poll's tallies.
//! - `voting`: the two operations on the records that a request concerns,
//!   for callers that keep the records somewhere else.
//! - `store`: the record store as a value, with the rule that every tally
//!   is the number of ballots counted for it.
//! - `contract`: the entry points that carry out requests on a store.
//! - `msg`, `error`: requests, answers and failures.
//! - `laws`: what holds of the operations on every store.
//! - `assoc`: association lists read as maps.

pub mod assoc;
pub mod contract;
pub mod error;
pub mod laws;
pub mod msg;
pub mod state;
pub mod store;
pub mod voting;
