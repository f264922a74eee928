//! A verified engine for applying unified diffs.
//!
//! The engine treats each hunk as a pattern: it searches the remaining
//! lines of the target for the place where the hunk's context and removed
//! lines occur, tolerating a bounded number of context mismatches, and
//! splices the hunk's added lines in. All file and terminal I/O is left to
//! the caller; the library works on lines held in memory.

pub mod common;
pub mod header;
pub mod hunk;
pub mod laws;
pub mod matching;
pub mod patch;
pub mod target;
