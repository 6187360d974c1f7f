//! Transactional-outbox sweeper: the decisions of one sweep over the pending
//! rows of an outbox table, stated and proved over plain values.

pub mod config;
pub mod messaging;
pub mod models;
pub mod router;
pub mod sweeper;
pub mod outbox;
pub mod guarantees;
pub mod scheduler;
