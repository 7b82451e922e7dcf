//! Merging one directory tree into another, by move or by copy.
//!
//! The library decides; the caller touches the disk. A [`Merge`] names the
//! next filesystem primitive to run as a [`Request`], is told what came of it
//! as a [`Reply`], and goes on until it reports the merge as finished.

pub mod entry;
pub mod invariants;
pub mod merge;
pub mod mirror;
pub mod model;
pub mod protocol;

pub use entry::{join, read_dir, Child, Entry, Type};
pub use protocol::{is_answer, MergeError, Reply, Request};
pub use merge::{Frame, Merge, Step};
