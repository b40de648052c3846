//! Cache-coherence core of a device-status tracker.
//!
//! Field devices report a location, an error margin and a fire / no-fire
//! status. The authoritative copy of every device record lives in an external
//! durable key-value store; reads are served from a process-local cache that a
//! background job rebuilds from the store on a fixed interval. This crate
//! holds the verified logic of that subsystem: the device record and its
//! canonical byte encoding, the cache with its atomic-swap rebuild, the bulk
//! fetch bookkeeping, the refresh policy, the scheduler state machine and the
//! upsert workflow. The surrounding process supplies the transport: it moves
//! bytes to and from the store and drives the scheduler loop.

pub mod device;
pub mod errors;
pub mod cache;
pub mod codec;
pub mod store;
pub mod bulk;
pub mod refresh;
pub mod scheduler;
pub mod clock;
pub mod workflow;
