//! A verified media-ingestion pipeline: dropped filesystem paths are
//! expanded to candidate files, filtered down to videos, deduplicated into
//! an id-allocating registry, dispatched for analysis, and reconciled with
//! the analysis results by a single-threaded reducer.

pub mod entry;
pub mod registry;
pub mod resolver;
pub mod dispatcher;
pub mod reducer;
pub mod laws;
pub mod styles;
