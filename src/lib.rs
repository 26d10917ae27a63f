//! Planning of a randomized branch-and-merge history for a git repository.
//!
//! The library decides which branches are created and merged; the steps it
//! returns are carried out by the caller against the version-control tool.
pub mod branch;
pub mod names;
pub mod phases;
pub mod pool;
pub mod run;
pub mod random;
