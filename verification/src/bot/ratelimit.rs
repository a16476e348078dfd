//! Request budgets per user and per channel.
//!
//! Each id has a counter that lives for one window.

use vstd::prelude::*;

verus! {

/// How many counters are kept at once.
pub const MAX_COUNTERS: u64 = 10_000;

/// A budget of requests per window; zero means no limit.
#[derive(Debug, Clone, Copy, PartialEq, Eq, Structural)]
pub struct RateLimiter {
    pub max_requests: u32,
    pub window_secs: u64,
}

/// The requests of one id in the current window.
#[derive(Debug, Clone, Copy, PartialEq, Eq, Structural)]
pub struct WindowCount {
    pub requests: u32,
}

impl WindowCount {
    /// A window begins with no request.
    pub fn new() -> (r: Self)
        ensures
            r.requests == 0,
    {
        WindowCount { requests: 0 }
    }
}

impl RateLimiter {
    pub fn new(max_requests: u32, window_secs: u64) -> (r: Self)
        ensures
            r == (RateLimiter { max_requests, window_secs }),
    {
        RateLimiter { max_requests, window_secs }
    }

    /// Whether a request is within the budget after so many others.
    pub open spec fn allows(&self, requests: u32) -> bool {
        self.max_requests == 0 || requests < self.max_requests
    }

    /// The count with one request more. Without a limit nothing is counted;
    /// the counter wraps around.
    pub open spec fn counted(&self, requests: u32) -> u32 {
        if self.max_requests == 0 {
            requests
        } else if requests == u32::MAX {
            0
        } else {
            (requests + 1) as u32
        }
    }

    /// The count after `n` requests of one window.
    pub open spec fn count_after(&self, n: nat) -> u32
        decreases n,
    {
        if n == 0 {
            0
        } else {
            self.counted(self.count_after((n - 1) as nat))
        }
    }

    /// Count a request and say whether it is within the budget.
    pub fn check_raw(&self, count: &mut WindowCount) -> (allowed: bool)
        ensures
            allowed == self.allows(old(count).requests),
            final(count).requests == self.counted(old(count).requests),
    {
        if self.max_requests == 0 {
            return true;
        }
        let current = count.requests;
        count.requests = current.wrapping_add(1);
        current < self.max_requests
    }
}

proof fn lemma_count_after(limiter: RateLimiter, n: nat)
    requires
        limiter.max_requests > 0,
        n <= u32::MAX,
    ensures
        limiter.count_after(n) == n,
    decreases n,
{
    if n > 0 {
        lemma_count_after(limiter, (n - 1) as nat);
    }
}

/// Of the requests of one window the first ones are allowed, as many as the
/// budget says, and the others are not, until the counter wraps around.
/// Without a limit every request is allowed.
pub proof fn lemma_budget_is_spent_in_order(limiter: RateLimiter, n: nat)
    requires
        n <= u32::MAX,
    ensures
        limiter.allows(limiter.count_after(n)) <==> limiter.max_requests == 0 || n
            < limiter.max_requests,
{
    if limiter.max_requests > 0 {
        lemma_count_after(limiter, n);
    }
}

/// The budget of a user.
#[derive(Debug, Clone, Copy, PartialEq, Eq, Structural)]
pub struct UserRateLimiter(pub RateLimiter);

impl UserRateLimiter {
    pub fn new(max_requests: u32, window_secs: u64) -> (r: Self)
        ensures
            r.0 == (RateLimiter { max_requests, window_secs }),
    {
        UserRateLimiter(RateLimiter::new(max_requests, window_secs))
    }

    /// Count a request of a user.
    pub fn check(&self, count: &mut WindowCount) -> (allowed: bool)
        ensures
            allowed == self.0.allows(old(count).requests),
            final(count).requests == self.0.counted(old(count).requests),
    {
        self.0.check_raw(count)
    }
}

/// The budget of a channel.
#[derive(Debug, Clone, Copy, PartialEq, Eq, Structural)]
pub struct ChannelRateLimiter(pub RateLimiter);

impl ChannelRateLimiter {
    pub fn new(max_requests: u32, window_secs: u64) -> (r: Self)
        ensures
            r.0 == (RateLimiter { max_requests, window_secs }),
    {
        ChannelRateLimiter(RateLimiter::new(max_requests, window_secs))
    }

    /// Count a request in a channel.
    pub fn check(&self, count: &mut WindowCount) -> (allowed: bool)
        ensures
            allowed == self.0.allows(old(count).requests),
            final(count).requests == self.0.counted(old(count).requests),
    {
        self.0.check_raw(count)
    }
}

} // verus!
