//! One-way incremental synchronization of a source directory tree onto a
//! destination tree.
//!
//! This crate holds the verified engine: relative-path mapping between the
//! source and destination namespaces, the staleness rule that decides which
//! files must be copied, progress accounting for a buffered copy, and the
//! per-run counters with their summary.  The surrounding program performs the
//! actual filesystem traversal and byte transfer and feeds plain values
//! (path components, timestamps, chunk sizes) into these functions.

pub mod errors;
pub mod paths;
pub mod progress;
pub mod session;
pub mod stale;
