//! Core subsystems of a local-first legal workstation: the run outbox state
//! machine with its hash-chained audit log, request sealing with a
//! device-bound key, and the runtime integrity guard.

pub mod text;
pub mod clock;
pub mod digest;
pub mod run_outbox;
pub mod entropy;
pub mod device_seal;
pub mod tamper_guard;

pub use device_seal::{sign_request, DeviceKeys, DeviceSealHeaders};
pub use run_outbox::{can_transition, OutboxError, OutboxRecord, OutboxResult, OutboxStateMachine};
pub use tamper_guard::verify_runtime_integrity;
