//! Persistent stores of the pipeline.

pub mod dedup;
pub mod metrics;
pub mod store;

pub use dedup::Cache as DedupCache;
pub use metrics::{Snapshot as MetricsSnapshot, Stage, Tracker as Metrics};
