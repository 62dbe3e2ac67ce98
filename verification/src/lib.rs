//! Sorts image files into a date-partitioned, content-addressed tree.
//!
//! The library holds the decisions of the per-file pipeline: the short
//! content digest, the capture date read from embedded metadata, the
//! destination derived from both, the choice between copying and skipping,
//! and the three counters that a run reports. Reading and writing files is
//! left to the caller, which hands in bytes and hands back what it found.

pub mod context;
pub mod destination;
pub mod digest;
pub mod error;
pub mod metadata;
pub mod process;
pub mod tree;
