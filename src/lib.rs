//! Coordination of proof-generating workers: a job ledger that leases
//! sequentially numbered blocks to workers, a write-once witness store, the
//! deadline logic of witness polling, the leader gate of a coordinator
//! replica, the worker-side client state, and the on-chain proof encoding.

pub mod encoder;
pub mod ledger;
pub mod witness;
pub mod leader;
pub mod client;
pub mod coordinator;
