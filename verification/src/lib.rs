//! A buffered, rotating, compressing log sink.
//!
//! Producer threads submit formatted log lines; a single background worker
//! accumulates them in a bounded in-memory buffer, flushes the buffer to the
//! active log file, and rotates the file (rename, recompress, prune old
//! archives) once it grows past a size threshold.
//!
//! This crate holds the worker's verified core: the buffer/flush/rotate
//! policy, archive naming, retention pruning, and startup reconciliation.
//! The surrounding process (channel plumbing, file system calls, background
//! compression) drives these decisions from outside.

use vstd::prelude::*;

mod buffer;
mod level;
mod names;
mod sink;
mod startup;
mod timestamp;

pub use buffer::EntryBuffer;
pub use level::Level;
pub use names::archive_file_name;
pub use names::is_archive_file_name;
pub use names::renamed_file_name;
pub use sink::Effects;
pub use sink::LogMessage;
pub use sink::Rotation;
pub use sink::Sink;
pub use startup::reconcile;
pub use timestamp::Timestamp;
pub use timestamp::now;

verus! {

} // verus!
