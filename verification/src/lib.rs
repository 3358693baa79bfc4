//! Synchronization engine for a download manager's job set: wire decoding,
//! snapshot reconciliation, the shared store with its broadcast hub, and the
//! decisions of the notification listener and the mutation gateway.

pub mod decimal;
pub mod gateway;
pub mod job;
pub mod listener;
pub mod reconcile;
pub mod snapshot;
pub mod store;
pub mod text;
pub mod upstream;
