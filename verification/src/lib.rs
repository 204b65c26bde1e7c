//! Library for an operations indexing pipeline: it normalizes upstream
//! blockchain events into script-invocation records, coalesces them in a
//! reorg-absorbing batcher, and applies batches atomically to a store whose
//! rows are ordered by a monotonic surrogate key.

pub mod batcher;
pub mod config;
pub mod encoding;
pub mod envelope;
pub mod json;
pub mod model;
pub mod read;
pub mod store;
pub mod unicode;
pub mod updates;
