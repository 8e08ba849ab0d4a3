//! Offline audit engine for a content-addressed global-state trie.
//!
//! The library decodes stored trie nodes, walks the structure reachable from
//! a root digest with an explicit stack, aggregates per-type leaf statistics,
//! drives copy-on-write pruning of the obsolete leaf category through an
//! external mutation service, and renders the final report.  Store lookups,
//! the mutation service and the report file are collaborators at the I/O
//! boundary; everything that decides or computes lives here, verified.

pub mod tags;
pub mod digest;
pub mod error;
pub mod decode;
pub mod stats;
pub mod report;
pub mod walk;
pub mod store;
pub mod audit;
