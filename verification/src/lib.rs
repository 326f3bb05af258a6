//! Core of a file-copy utility: user-space copy loops that move exact
//! byte counts between two open files, sequentially or at explicit
//! offsets, plus the fallback sparse-file strategy, the typed error
//! taxonomy for OS failures, and small path and file-type utilities for
//! the traversal layer.
//!
//! The range primitive works purely through positioned reads and writes,
//! and the laws of [`ranges`] show that completed range copies compose
//! in any order — the seam that lets an external scheduler copy one file
//! in parallel chunks safely.

pub mod copier;
pub mod errors;
pub mod fileutil;
pub mod memcopy;
pub mod ranges;
pub mod sparse;
