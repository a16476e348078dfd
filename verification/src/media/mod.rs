//! Tweet links and temporary media files.

pub mod tempfile;
pub mod url;

pub use url::{parse_tweet_urls, TweetId, TweetLink, TweetLinks};
