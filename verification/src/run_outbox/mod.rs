//! Run outbox: crash-safe state progression for tasks dispatched to the
//! cloud, with compare-and-swap revisions and a hash-chained event log.

pub mod model;
pub mod state_machine;
pub mod laws;

pub use model::{can_transition, OutboxError, OutboxRecord, OutboxResult};
pub use state_machine::{OutboxEvent, OutboxStateMachine};
