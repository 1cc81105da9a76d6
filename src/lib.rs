//! In-memory catalog of the chunks that make up one data partition of a
//! columnar time-series store: chunk identity and ordering, chunk stages and
//! lifecycle actions, and the per-sequencer ingest progress of a partition.

pub mod addr;
pub mod chunk;
pub mod partition;
pub mod persistence_windows;
pub mod time;
