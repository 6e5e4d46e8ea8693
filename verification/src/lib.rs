//! Verified core of a vanity-fingerprint key miner.
//!
//! The library holds the search/match/coordination logic: the pattern
//! catalog, the match registry that deduplicates fingerprints, the
//! per-attempt search step with its shared counters, the exact text of the
//! persisted artifact names and log lines, and the progress arithmetic.
//! Key generation, file writing and the parallel worker pool are left to the
//! surrounding application, which feeds plain values into these functions.

pub mod artifact;
pub mod catalog;
pub mod cli;
pub mod decimal;
pub mod engine;
pub mod progress;
pub mod registry;
