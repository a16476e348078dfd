//! How many tasks of each stage may run at once.

use crate::config::ConcurrencySettings;
use vstd::prelude::*;

verus! {

pub open spec fn at_least_one(n: u32) -> u32 {
    if n == 0 {
        1
    } else {
        n
    }
}

fn clamp(n: u32) -> (r: usize)
    ensures
        r == at_least_one(n),
        r >= 1,
{
    if n == 0 {
        1
    } else {
        n as usize
    }
}

/// Permits of every bounded stage. No stage is ever closed for good.
#[derive(Debug, Clone, Copy, PartialEq, Eq, Structural)]
pub struct Permits {
    pub download: usize,
    pub upload: usize,
    pub transcode: usize,
    pub ytdlp: usize,
    pub pipeline: usize,
}

impl Permits {
    /// What is configured, but at least one permit per stage.
    pub fn new(config: &ConcurrencySettings) -> (r: Self)
        ensures
            r.download == at_least_one(config.download),
            r.upload == at_least_one(config.upload),
            r.transcode == at_least_one(config.transcode),
            r.ytdlp == at_least_one(config.ytdlp),
            r.pipeline == at_least_one(config.pipeline),
    {
        Permits {
            download: clamp(config.download),
            upload: clamp(config.upload),
            transcode: clamp(config.transcode),
            ytdlp: clamp(config.ytdlp),
            pipeline: clamp(config.pipeline),
        }
    }
}

/// At least one, and else what is asked for.
pub proof fn lemma_at_least_one(n: u32)
    ensures
        at_least_one(n) >= 1,
        n >= 1 ==> at_least_one(n) == n,
        at_least_one(n) <= n + 1,
{
}

} // verus!
