//! Classification engine and transactional move/undo bookkeeping for a
//! folder organizer.
//!
//! The crate is pure: it classifies file names, turns a directory listing
//! into a per-category analysis, validates a caller-supplied organization
//! plan, computes the moves the plan asks for, and folds the outcomes of
//! those moves (performed by the caller) into reports and a reversible
//! move log. All filesystem work stays with the caller.

pub mod classify;
pub mod moves;
pub mod plan;
pub mod scan;
pub mod text;
pub mod undo;
