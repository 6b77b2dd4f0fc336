//! A multi-priority transmission pipeline.
//!
//! Messages are serialized into fixed-size batches drawn from a bounded,
//! per-priority pool; a message too large for one batch is fragmented.
//! Finished batches queue up for a single consumer, which serves the
//! priorities in strict order and hands every batch back to its pool.
//!
//! The library is sequential: every operation runs to completion on
//! `&mut self` and never waits. Where the pool is exhausted a push reports
//! `Blocked` and keeps its progress, so that the caller can wait for a
//! refill and call again.
pub mod backoff;
pub mod batch;
pub mod config;
pub mod laws;
pub mod message;
pub mod model;
pub mod pipeline;
pub mod push_laws;
pub mod ring;
pub mod seq_num;
pub mod signal;
pub mod stage;
pub mod wire;
