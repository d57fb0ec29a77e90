//! Metadata control plane core: a consensus-backed replicated log with its
//! durable storage model, the driver's ready-cycle planner, and the bootstrap
//! election decisions.
//!
//! The storage core keeps the replicated log, the hard and conf state, the
//! snapshot metadata and the uncommitted-index map, and records every write
//! it makes as a `WriteOp` so that an engine outside this crate can persist
//! the same state under the documented key schema.

pub mod driver;
pub mod election;
pub mod laws;
pub mod raft_core;
pub mod state;
