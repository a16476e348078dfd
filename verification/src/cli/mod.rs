//! Command-line front end.

pub mod args;
pub mod filename;
pub mod local_transcode;
pub mod run;
