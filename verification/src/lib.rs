//! Media pipeline rules behind a Discord bot that fetches tweet media,
//! makes it fit the upload limit and posts it back.

pub mod bot;
pub mod cli;
pub mod concurrency;
pub mod config;
pub mod engine;
pub mod media;
pub mod pipeline;
pub mod storage;
pub mod text;
