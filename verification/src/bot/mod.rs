//! The Discord bot around the pipeline.

pub mod commands;
pub mod config;
pub mod event;
pub mod ids;
pub mod job;
pub mod probe_cli;
pub mod ratelimit;
pub mod responder;
pub mod resume;
pub mod startup;
pub mod upload;
pub mod worker;

pub use job::{Error, Job, UploadOutcome};
