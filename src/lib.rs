//! Content-addressed discovery of project output files.
//!
//! The library walks project output roots with an explicit work stack,
//! skips excluded paths, fingerprints file contents with line endings
//! stripped, and keeps a persistent cache from digest to the first path
//! seen with that content. Reading the disk and printing are left to the
//! caller: every decision is made here.

pub mod analysis;
pub mod args;
pub mod cache;
pub mod cli;
pub mod exclusions;
pub mod hash;
pub mod scheduler;
pub mod stack;
pub mod text;
pub mod walker;
