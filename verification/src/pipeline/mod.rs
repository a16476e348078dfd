//! The stages of the media pipeline.

pub mod disk;
pub mod download;
pub mod errors;
pub mod ffmpeg;
pub mod optimize;
pub mod probe;
pub mod process;
pub mod quality;
pub mod resolve;
pub mod run;
pub mod ssrf;
pub mod stream_split;
pub mod types;

pub use errors::Error;
pub use types::{Job, PreparedPart, PreparedUpload, Progress, RequestId};
