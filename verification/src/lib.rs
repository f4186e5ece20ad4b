//! Core of a file-identity tracker: persistent per-file identifiers kept in a
//! side-channel next to the file, and a reconciliation state machine that
//! follows each registered file through renames and moves reported by a
//! per-volume file-system watcher.
//!
//! The library holds the verified logic: path arithmetic, identifier
//! generation, the per-file state machine, and the registry of trackers and
//! volume monitors. The host process performs the raw I/O (side-channel reads
//! and writes, the native watcher calls) and hands the results in as plain
//! values.
pub mod events;
pub mod paths;
pub mod tag;
pub mod registry;
pub mod tracker;
