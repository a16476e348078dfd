//! Discord identifiers, one type per kind of thing.

use vstd::prelude::*;

verus! {

/// The bot's application.
#[derive(Debug, Clone, Copy, PartialEq, Eq, Hash, Structural)]
pub struct ApplicationId(pub u64);

impl ApplicationId {
    pub fn new(raw: u64) -> (r: Self)
        ensures
            r.0 == raw,
    {
        ApplicationId(raw)
    }

    pub fn get(self) -> (r: u64)
        ensures
            r == self.0,
    {
        self.0
    }

    /// An id out of settings: zero is none.
    pub fn from_setting(raw: u64) -> (r: Result<Self, &'static str>)
        ensures
            r is Ok <==> raw != 0,
            r matches Ok(id) ==> id.0 == raw,
            r matches Err(e) ==> e@ == "application_id must be non-zero"@,
    {
        if raw == 0 {
            return Err("application_id must be non-zero");
        }
        Ok(ApplicationId(raw))
    }
}

#[derive(Debug, Clone, Copy, PartialEq, Eq, Hash, Structural)]
pub struct ChannelId(pub u64);

impl ChannelId {
    pub fn new(raw: u64) -> (r: Self)
        ensures
            r.0 == raw,
    {
        ChannelId(raw)
    }

    pub fn get(self) -> (r: u64)
        ensures
            r == self.0,
    {
        self.0
    }
}

#[derive(Debug, Clone, Copy, PartialEq, Eq, Hash, Structural)]
pub struct MessageId(pub u64);

impl MessageId {
    pub fn new(raw: u64) -> (r: Self)
        ensures
            r.0 == raw,
    {
        MessageId(raw)
    }

    pub fn get(self) -> (r: u64)
        ensures
            r == self.0,
    {
        self.0
    }
}

#[derive(Debug, Clone, Copy, PartialEq, Eq, Hash, Structural)]
pub struct UserId(pub u64);

impl UserId {
    pub fn new(raw: u64) -> (r: Self)
        ensures
            r.0 == raw,
    {
        UserId(raw)
    }

    pub fn get(self) -> (r: u64)
        ensures
            r == self.0,
    {
        self.0
    }
}

#[derive(Debug, Clone, Copy, PartialEq, Eq, Hash, Structural)]
pub struct InteractionId(pub u64);

impl InteractionId {
    pub fn new(raw: u64) -> (r: Self)
        ensures
            r.0 == raw,
    {
        InteractionId(raw)
    }

    pub fn get(self) -> (r: u64)
        ensures
            r == self.0,
    {
        self.0
    }
}

/// Numbers requests so that log lines can be told apart.
#[derive(Debug, Clone, Copy, PartialEq, Eq, Structural)]
pub struct RequestCounter {
    pub next: u64,
}

impl RequestCounter {
    /// Counting begins at one.
    pub fn new() -> (r: Self)
        ensures
            r.next == 1,
    {
        RequestCounter { next: 1 }
    }

    /// The next number; the counter wraps around.
    pub fn next_request_id(&mut self) -> (r: u64)
        ensures
            r == old(self).next,
            final(self).next == (if old(self).next == u64::MAX {
                0
            } else {
                (old(self).next + 1) as u64
            }),
    {
        let id = self.next;
        self.next = self.next.wrapping_add(1);
        id
    }
}

} // verus!
