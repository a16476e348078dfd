//! Deduplication of requests.
//!
//! A marker keeps a request from being worked on twice at once, a cache
//! remembers what was processed lately, and an optional store keeps that over
//! restarts. Writes to the store are batched; when the store keeps failing it
//! is given up and the pipeline goes on in memory.

use crate::config::{PipelineSettings, StorageSettings, TranscodeSettings};
use crate::media::url::TweetId;
use std::collections::VecDeque;
use vstd::bytes::{
    lemma_auto_spec_u64_to_from_le_bytes, spec_u64_from_le_bytes, spec_u64_to_le_bytes,
    u64_from_le_bytes, u64_to_le_bytes,
};
use vstd::prelude::*;

verus! {

// ---------------------------------------------------------------------------
// Keys
// ---------------------------------------------------------------------------
/// Scope and tweet of a request.
#[derive(Debug, Clone, Copy, PartialEq, Eq, Hash, Structural)]
pub struct Key {
    pub scope_id: u64,
    pub tweet_id: TweetId,
}

impl Key {
    pub fn new(scope_id: u64, tweet_id: TweetId) -> (key: Self)
        ensures
            key == (Key { scope_id, tweet_id }),
    {
        Key { scope_id, tweet_id }
    }

    /// The stored form: both numbers, little end first.
    pub open spec fn bytes(self) -> Seq<u8> {
        spec_u64_to_le_bytes(self.scope_id) + spec_u64_to_le_bytes(self.tweet_id.0)
    }

    /// The key in sixteen bytes.
    pub fn to_bytes(self) -> (r: Vec<u8>)
        ensures
            r@ == self.bytes(),
            r@.len() == 16,
    {
        let mut r = u64_to_le_bytes(self.scope_id);
        let mut tail = u64_to_le_bytes(self.tweet_id.0);
        r.append(&mut tail);
        r
    }

    /// Read the stored form; sixteen bytes are always a key.
    pub fn from_bytes(bytes: &[u8]) -> (key: Option<Self>)
        ensures
            key is Some <==> bytes@.len() == 16,
            key matches Some(k) ==> k.bytes() == bytes@,
    {
        if bytes.len() != 16 {
            return None;
        }
        let scope_id = u64_from_le_bytes(vstd::slice::slice_subrange(bytes, 0, 8));
        let tweet = u64_from_le_bytes(vstd::slice::slice_subrange(bytes, 8, 16));
        proof {
            lemma_auto_spec_u64_to_from_le_bytes();
            assert(spec_u64_to_le_bytes(scope_id) == bytes@.subrange(0, 8));
            assert(spec_u64_to_le_bytes(tweet) == bytes@.subrange(8, 16));
            assert(bytes@.subrange(0, 8) + bytes@.subrange(8, 16) =~= bytes@);
        }
        Some(Key { scope_id, tweet_id: TweetId(tweet) })
    }
}

/// Two keys are stored alike only where they are the same key: reading a
/// stored key gives back the key that was written.
pub proof fn lemma_key_bytes_tell_keys_apart(a: Key, b: Key)
    requires
        a.bytes() == b.bytes(),
    ensures
        a == b,
{
    lemma_auto_spec_u64_to_from_le_bytes();
    let sa = spec_u64_to_le_bytes(a.scope_id);
    let sb = spec_u64_to_le_bytes(b.scope_id);
    let ta = spec_u64_to_le_bytes(a.tweet_id.0);
    let tb = spec_u64_to_le_bytes(b.tweet_id.0);
    assert(sa =~= a.bytes().take(8));
    assert(sb =~= b.bytes().take(8));
    assert(ta =~= a.bytes().skip(8));
    assert(tb =~= b.bytes().skip(8));
    assert(spec_u64_from_le_bytes(sa) == a.scope_id);
    assert(spec_u64_from_le_bytes(sb) == b.scope_id);
    assert(spec_u64_from_le_bytes(ta) == a.tweet_id.0);
    assert(spec_u64_from_le_bytes(tb) == b.tweet_id.0);
}

// ---------------------------------------------------------------------------
// Time
// ---------------------------------------------------------------------------
/// How far the clock may go back without a warning.
pub const CLOCK_SKEW_THRESHOLD_SECS: u64 = 60;

/// The latest time that was seen.
#[derive(Debug, Clone, Copy, PartialEq, Eq, Structural)]
pub struct LastKnown {
    pub secs: u64,
}

impl LastKnown {
    pub fn new() -> (r: Self)
        ensures
            r.secs == 0,
    {
        LastKnown { secs: 0 }
    }

    /// Whether the clock went back by more than the threshold.
    pub fn jumped_back(&self, now: u64) -> (r: bool)
        ensures
            r == (now + CLOCK_SKEW_THRESHOLD_SECS < self.secs),
    {
        now < self.secs && self.secs - now > CLOCK_SKEW_THRESHOLD_SECS
    }

    /// The time to use when the clock reads `now`: time never goes back.
    pub fn observe(&mut self, now: u64) -> (r: u64)
        ensures
            r == (if now >= old(self).secs {
                now
            } else {
                old(self).secs
            }),
            final(self).secs == r,
    {
        if now >= self.secs {
            self.secs = now;
            now
        } else {
            self.secs
        }
    }
}

/// An entry of time `timestamp` is too old at `now`.
pub open spec fn expired(now: u64, timestamp: u64, ttl_secs: u64) -> bool {
    now - timestamp > ttl_secs
}

pub fn is_expired(now: u64, timestamp: u64, ttl_secs: u64) -> (r: bool)
    ensures
        r == expired(now, timestamp, ttl_secs),
{
    now.saturating_sub(timestamp) > ttl_secs
}

/// How long a marker lives: the stages of a job, or twice the time of an
/// encode, and a minute.
pub open spec fn marker_secs(download: u64, ffmpeg: u64, upload: u64) -> int {
    let total = if download + ffmpeg + upload > u64::MAX {
        u64::MAX as int
    } else {
        download + ffmpeg + upload
    };
    let doubled = if ffmpeg * 2 > u64::MAX {
        u64::MAX as int
    } else {
        ffmpeg * 2
    };
    let longer = if total >= doubled {
        total
    } else {
        doubled
    };
    if longer + 60 > u64::MAX {
        u64::MAX as int
    } else {
        longer + 60
    }
}

pub fn inflight_ttl_secs(pipeline: &PipelineSettings, transcode: &TranscodeSettings) -> (r: u64)
    ensures
        r == marker_secs(
            pipeline.download_timeout_secs,
            transcode.ffmpeg_timeout_secs,
            pipeline.upload_timeout_secs,
        ),
{
    let ffmpeg_secs = transcode.ffmpeg_timeout_secs;
    let total = pipeline.download_timeout_secs.saturating_add(ffmpeg_secs).saturating_add(
        pipeline.upload_timeout_secs,
    );
    let doubled = ffmpeg_secs.saturating_add(ffmpeg_secs);
    let longer = if total >= doubled {
        total
    } else {
        doubled
    };
    longer.saturating_add(60)
}

/// A marker outlives the timeouts of the three stages after the resolve,
/// unless their sum is beyond what can be counted.
pub proof fn lemma_marker_outlives_stages(download: u64, ffmpeg: u64, upload: u64)
    requires
        download + ffmpeg + upload + 60 <= u64::MAX,
    ensures
        marker_secs(download, ffmpeg, upload) >= download + ffmpeg + upload + 60,
{
}

// ---------------------------------------------------------------------------
// Reserving and looking up
// ---------------------------------------------------------------------------
/// What the store says of a key.
#[derive(Debug, Clone, Copy, PartialEq, Eq, Structural)]
pub enum StoredEntry {
    Missing,
    /// Processed within the time that counts.
    Fresh,
    /// Too old: to be removed.
    Stale,
}

/// Judge the entry that the store holds.
pub fn stored_entry(entry: Option<u64>, now: u64, ttl_secs: u64) -> (r: StoredEntry)
    ensures
        r == (match entry {
            None => StoredEntry::Missing,
            Some(timestamp) => if expired(now, timestamp, ttl_secs) {
                StoredEntry::Stale
            } else {
                StoredEntry::Fresh
            },
        }),
{
    match entry {
        None => StoredEntry::Missing,
        Some(timestamp) => {
            if is_expired(now, timestamp, ttl_secs) {
                StoredEntry::Stale
            } else {
                StoredEntry::Fresh
            }
        },
    }
}

/// Where a request stands on its way to be admitted.
#[derive(Debug, Clone, Copy, PartialEq, Eq, Structural)]
pub enum ReserveStep {
    ClaimMarker,
    LookUpCache,
    LookUpStore,
}

/// What to do next.
#[derive(Debug, Clone, Copy, PartialEq, Eq, Structural)]
pub enum ReserveAction {
    /// Ask the next place.
    Ask { step: ReserveStep },
    /// Done. The marker may have to go, the cache may have to learn the key.
    Done { granted: bool, drop_marker: bool, warm_cache: bool },
}

/// One step of a reservation. The marker is claimed before anything is looked
/// up: the other order would let two requests through.
///
/// `answer` says whether the marker was claimed, or whether the place asked
/// knows the key.
pub fn reserve_inflight(step: ReserveStep, answer: bool) -> (action: ReserveAction)
    ensures
        action == reserve_next(step, answer),
{
    match step {
        ReserveStep::ClaimMarker => {
            if answer {
                ReserveAction::Ask { step: ReserveStep::LookUpCache }
            } else {
                ReserveAction::Done { granted: false, drop_marker: false, warm_cache: false }
            }
        },
        ReserveStep::LookUpCache => {
            if answer {
                ReserveAction::Done { granted: false, drop_marker: true, warm_cache: false }
            } else {
                ReserveAction::Ask { step: ReserveStep::LookUpStore }
            }
        },
        ReserveStep::LookUpStore => {
            if answer {
                ReserveAction::Done { granted: false, drop_marker: true, warm_cache: true }
            } else {
                ReserveAction::Done { granted: true, drop_marker: false, warm_cache: false }
            }
        },
    }
}

pub open spec fn reserve_next(step: ReserveStep, answer: bool) -> ReserveAction {
    match (step, answer) {
        (ReserveStep::ClaimMarker, true) => ReserveAction::Ask { step: ReserveStep::LookUpCache },
        (ReserveStep::ClaimMarker, false) => ReserveAction::Done {
            granted: false,
            drop_marker: false,
            warm_cache: false,
        },
        (ReserveStep::LookUpCache, true) => ReserveAction::Done {
            granted: false,
            drop_marker: true,
            warm_cache: false,
        },
        (ReserveStep::LookUpCache, false) => ReserveAction::Ask { step: ReserveStep::LookUpStore },
        (ReserveStep::LookUpStore, true) => ReserveAction::Done {
            granted: false,
            drop_marker: true,
            warm_cache: true,
        },
        (ReserveStep::LookUpStore, false) => ReserveAction::Done {
            granted: true,
            drop_marker: false,
            warm_cache: false,
        },
    }
}

/// What the three places hold.
pub struct Places {
    pub markers: Set<Key>,
    pub cached: Set<Key>,
    pub stored: Set<Key>,
}

/// A whole reservation that nothing interrupts: whether it is granted and what
/// the places hold after it.
pub open spec fn reserve_all(p: Places, key: Key) -> (bool, Places) {
    reserve_from(ReserveStep::ClaimMarker, p, key)
}

pub open spec fn reserve_from(step: ReserveStep, p: Places, key: Key) -> (bool, Places)
    decreases
            (match step {
                ReserveStep::ClaimMarker => 2int,
                ReserveStep::LookUpCache => 1,
                ReserveStep::LookUpStore => 0,
            }),
{
    let answer = match step {
        ReserveStep::ClaimMarker => !p.markers.contains(key),
        ReserveStep::LookUpCache => p.cached.contains(key),
        ReserveStep::LookUpStore => p.stored.contains(key),
    };
    let claimed = if step == ReserveStep::ClaimMarker && answer {
        Places { markers: p.markers.insert(key), ..p }
    } else {
        p
    };
    match reserve_next(step, answer) {
        ReserveAction::Ask { step: next } => match (step, next) {
            (ReserveStep::ClaimMarker, ReserveStep::LookUpCache) => reserve_from(
                next,
                claimed,
                key,
            ),
            (ReserveStep::LookUpCache, ReserveStep::LookUpStore) => reserve_from(
                next,
                claimed,
                key,
            ),
            _ => (false, claimed),
        },
        ReserveAction::Done { granted, drop_marker, warm_cache } => (
            granted,
            Places {
                markers: if drop_marker {
                    claimed.markers.remove(key)
                } else {
                    claimed.markers
                },
                cached: if warm_cache {
                    claimed.cached.insert(key)
                } else {
                    claimed.cached
                },
                stored: claimed.stored,
            },
        ),
    }
}

/// A request is admitted exactly where no place knows its key. Then its marker
/// stands, and the same request is refused from there on; a refused request
/// leaves the markers as they were.
pub proof fn lemma_request_is_admitted_once(p: Places, key: Key)
    ensures
        ({
            let (granted, after) = reserve_all(p, key);
            &&& granted <==> !p.markers.contains(key) && !p.cached.contains(key)
                && !p.stored.contains(key)
            &&& granted ==> after.markers == p.markers.insert(key)
            &&& !granted ==> after.markers == p.markers
            &&& granted ==> !reserve_all(after, key).0
        }),
{
    reveal_with_fuel(reserve_from, 4);
    let (granted, after) = reserve_all(p, key);
    if !granted && !p.markers.contains(key) {
        assert(p.markers.insert(key).remove(key) =~= p.markers);
    }
}

/// Where a lookup stands.
#[derive(Debug, Clone, Copy, PartialEq, Eq, Structural)]
pub enum LookupStep {
    Marker,
    Cache,
    Store,
}

/// What to do next.
#[derive(Debug, Clone, Copy, PartialEq, Eq, Structural)]
pub enum LookupAction {
    Ask { step: LookupStep },
    Done { duplicate: bool, warm_cache: bool },
}

pub open spec fn lookup_next(step: LookupStep, known: bool) -> LookupAction {
    if known {
        LookupAction::Done { duplicate: true, warm_cache: step == LookupStep::Store }
    } else {
        match step {
            LookupStep::Marker => LookupAction::Ask { step: LookupStep::Cache },
            LookupStep::Cache => LookupAction::Ask { step: LookupStep::Store },
            LookupStep::Store => LookupAction::Done { duplicate: false, warm_cache: false },
        }
    }
}

/// One step of a lookup: the first place that knows the key decides, and a hit
/// in the store is taken over into the cache.
pub fn is_duplicate(step: LookupStep, known: bool) -> (action: LookupAction)
    ensures
        action == lookup_next(step, known),
{
    match step {
        LookupStep::Marker => {
            if known {
                LookupAction::Done { duplicate: true, warm_cache: false }
            } else {
                LookupAction::Ask { step: LookupStep::Cache }
            }
        },
        LookupStep::Cache => {
            if known {
                LookupAction::Done { duplicate: true, warm_cache: false }
            } else {
                LookupAction::Ask { step: LookupStep::Store }
            }
        },
        LookupStep::Store => LookupAction::Done { duplicate: known, warm_cache: known },
    }
}

// ---------------------------------------------------------------------------
// Writing to the store
// ---------------------------------------------------------------------------
pub const DEFAULT_BATCH_SIZE: usize = 50;

pub const PENDING_WRITE_CAP_MULTIPLIER: usize = 10;

pub const FLUSH_FAILURE_THRESHOLD: usize = 5;

pub const FLUSH_BACKOFF_MAX_SECS: u64 = 300;

/// One write that the store has not seen yet.
#[derive(Debug, Clone, Copy, PartialEq, Eq, Structural)]
pub struct PendingWrite {
    pub key: Key,
    pub timestamp: u64,
}

/// What waits to be stored, and how the store has behaved.
#[derive(Debug)]
pub struct Cache {
    /// There is a store.
    pub persistent: bool,
    pub ttl_secs: u64,
    pub pending: VecDeque<PendingWrite>,
    pub batch_size: usize,
    pub pending_cap: usize,
    pub flush_failures: usize,
    pub backoff_until: u64,
    pub persistence_disabled: bool,
}

/// Seconds to wait after a number of failures in a row: one, doubled each
/// time, at most five minutes.
pub open spec fn backoff_secs(failures: nat) -> nat
    decreases failures,
{
    if failures <= 1 {
        1
    } else {
        let doubled = 2 * backoff_secs((failures - 1) as nat);
        if failures > 9 {
            backoff_secs((failures - 1) as nat)
        } else if doubled > FLUSH_BACKOFF_MAX_SECS {
            FLUSH_BACKOFF_MAX_SECS as nat
        } else {
            doubled
        }
    }
}

proof fn lemma_backoff_values(failures: nat)
    ensures
        failures <= 1 ==> backoff_secs(failures) == 1,
        failures == 2 ==> backoff_secs(failures) == 2,
        failures == 3 ==> backoff_secs(failures) == 4,
        failures == 4 ==> backoff_secs(failures) == 8,
        failures == 5 ==> backoff_secs(failures) == 16,
        failures == 6 ==> backoff_secs(failures) == 32,
        failures == 7 ==> backoff_secs(failures) == 64,
        failures == 8 ==> backoff_secs(failures) == 128,
        failures >= 9 ==> backoff_secs(failures) == 256,
    decreases failures,
{
    if failures > 1 {
        lemma_backoff_values((failures - 1) as nat);
    }
}

/// The wait never shrinks with another failure and never passes five minutes.
pub proof fn lemma_backoff_grows_and_is_bounded(failures: nat)
    ensures
        1 <= backoff_secs(failures) <= backoff_secs(failures + 1) <= FLUSH_BACKOFF_MAX_SECS,
{
    lemma_backoff_values(failures);
    lemma_backoff_values(failures + 1);
}

pub fn compute_backoff_secs(failures: usize) -> (r: u64)
    ensures
        r == backoff_secs(failures as nat),
{
    proof {
        lemma_backoff_values(failures as nat);
    }
    if failures <= 1 {
        1
    } else if failures == 2 {
        2
    } else if failures == 3 {
        4
    } else if failures == 4 {
        8
    } else if failures == 5 {
        16
    } else if failures == 6 {
        32
    } else if failures == 7 {
        64
    } else if failures == 8 {
        128
    } else {
        256
    }
}

/// The last `cap` writes.
pub open spec fn newest(writes: Seq<PendingWrite>, cap: nat) -> Seq<PendingWrite> {
    if writes.len() <= cap {
        writes
    } else {
        writes.skip(writes.len() - cap)
    }
}

impl Cache {
    /// The queue never outgrows its cap, and a store that was given up has
    /// nothing waiting.
    pub open spec fn wf(&self) -> bool {
        &&& self.pending@.len() <= self.pending_cap
        &&& 0 < self.batch_size <= self.pending_cap
        &&& !self.persistent ==> self.pending@.len() == 0
    }

    /// Start with nothing waiting.
    pub fn new(config: &StorageSettings) -> (r: Self)
        requires
            config.dedup_ttl_hours * 3600 <= u64::MAX,
        ensures
            r.wf(),
            r.persistent == config.dedup_persistent,
            r.ttl_secs == config.dedup_ttl_hours * 3600,
            r.pending@.len() == 0,
            r.batch_size == DEFAULT_BATCH_SIZE,
            r.pending_cap == DEFAULT_BATCH_SIZE * PENDING_WRITE_CAP_MULTIPLIER,
            r.flush_failures == 0,
            r.backoff_until == 0,
            !r.persistence_disabled,
    {
        Cache {
            persistent: config.dedup_persistent,
            ttl_secs: config.dedup_ttl_hours * 3600,
            pending: VecDeque::new(),
            batch_size: DEFAULT_BATCH_SIZE,
            pending_cap: DEFAULT_BATCH_SIZE * PENDING_WRITE_CAP_MULTIPLIER,
            flush_failures: 0,
            backoff_until: 0,
            persistence_disabled: false,
        }
    }

    /// The number of waiting writes.
    pub fn pending_writes_len(&self) -> (n: usize)
        ensures
            n == self.pending@.len(),
    {
        self.pending.len()
    }

    /// Drop the oldest writes beyond the cap.
    fn enforce_pending_cap(&mut self) -> (overflow: usize)
        ensures
            final(self).pending@ == newest(old(self).pending@, old(self).pending_cap as nat),
            overflow == old(self).pending@.len() - final(self).pending@.len(),
            final(self).persistent == old(self).persistent,
            final(self).ttl_secs == old(self).ttl_secs,
            final(self).batch_size == old(self).batch_size,
            final(self).pending_cap == old(self).pending_cap,
            final(self).flush_failures == old(self).flush_failures,
            final(self).backoff_until == old(self).backoff_until,
            final(self).persistence_disabled == old(self).persistence_disabled,
    {
        let ghost all = self.pending@;
        let total = self.pending.len();
        let mut overflow: usize = 0;
        while self.pending.len() > self.pending_cap
            invariant
                overflow <= all.len(),
                all.len() == total,
                self.pending@ == all.skip(overflow as int),
                overflow > 0 ==> all.len() - overflow >= self.pending_cap,
                all == old(self).pending@,
                self.persistent == old(self).persistent,
                self.ttl_secs == old(self).ttl_secs,
                self.batch_size == old(self).batch_size,
                self.pending_cap == old(self).pending_cap,
                self.flush_failures == old(self).flush_failures,
                self.backoff_until == old(self).backoff_until,
                self.persistence_disabled == old(self).persistence_disabled,
            decreases self.pending@.len(),
        {
            let _ = self.pending.pop_front();
            overflow = overflow + 1;
        }
        overflow
    }

    /// Note that a request was processed at `now`; the return value asks for a
    /// flush.
    pub fn mark_processed(&mut self, key: Key, now: u64) -> (should_flush: bool)
        requires
            old(self).wf(),
        ensures
            final(self).wf(),
            final(self).pending@ == (if old(self).persistent && !old(self).persistence_disabled {
                newest(
                    old(self).pending@.push(PendingWrite { key, timestamp: now }),
                    old(self).pending_cap as nat,
                )
            } else {
                old(self).pending@
            }),
            should_flush == (old(self).persistent && !old(self).persistence_disabled
                && final(self).pending@.len() >= old(self).batch_size),
            final(self).persistent == old(self).persistent,
            final(self).ttl_secs == old(self).ttl_secs,
            final(self).batch_size == old(self).batch_size,
            final(self).pending_cap == old(self).pending_cap,
            final(self).flush_failures == old(self).flush_failures,
            final(self).backoff_until == old(self).backoff_until,
            final(self).persistence_disabled == old(self).persistence_disabled,
    {
        if !self.persistent || self.persistence_disabled {
            return false;
        }
        self.pending.push_back(PendingWrite { key, timestamp: now });
        let _ = self.enforce_pending_cap();
        self.pending.len() >= self.batch_size
    }

    /// Take what is to be stored now; nothing while the store is off, is being
    /// waited for, or nothing waits.
    pub fn flush(&mut self, now: u64) -> (writes: Option<Vec<PendingWrite>>)
        requires
            old(self).wf(),
        ensures
            final(self).wf(),
            writes is Some <==> old(self).persistent && !old(self).persistence_disabled
                && old(self).backoff_until <= now && old(self).pending@.len() > 0,
            writes matches Some(w) ==> w@ == old(self).pending@ && final(self).pending@.len() == 0,
            writes is None ==> final(self).pending@ == old(self).pending@,
            final(self).persistent == old(self).persistent,
            final(self).ttl_secs == old(self).ttl_secs,
            final(self).batch_size == old(self).batch_size,
            final(self).pending_cap == old(self).pending_cap,
            final(self).flush_failures == old(self).flush_failures,
            final(self).backoff_until == old(self).backoff_until,
            final(self).persistence_disabled == old(self).persistence_disabled,
    {
        if !self.persistent || self.persistence_disabled || self.backoff_until > now
            || self.pending.len() == 0 {
            return None;
        }
        let mut writes: Vec<PendingWrite> = Vec::new();
        let ghost all = self.pending@;
        while self.pending.len() > 0
            invariant
                writes@ + self.pending@ =~= all,
                all == old(self).pending@,
                self.persistent == old(self).persistent,
                self.ttl_secs == old(self).ttl_secs,
                self.batch_size == old(self).batch_size,
                self.pending_cap == old(self).pending_cap,
                self.flush_failures == old(self).flush_failures,
                self.backoff_until == old(self).backoff_until,
                self.persistence_disabled == old(self).persistence_disabled,
            decreases self.pending@.len(),
        {
            if let Some(write) = self.pending.pop_front() {
                writes.push(write);
            }
        }
        Some(writes)
    }

    /// The writes are stored.
    pub fn flush_succeeded(&mut self)
        requires
            old(self).wf(),
        ensures
            final(self).wf(),
            *final(self) == (Cache { flush_failures: 0, backoff_until: 0, ..*old(self) }),
    {
        self.flush_failures = 0;
        self.backoff_until = 0;
    }

    /// The writes could not be stored: wait longer each time, then give the
    /// store up for good. Returns how many writes are lost where it is given
    /// up.
    pub fn handle_flush_failure(&mut self, writes: Vec<PendingWrite>, now: u64) -> (dropped: Option<
        usize,
    >)
        requires
            old(self).wf(),
            old(self).persistent,
            old(self).flush_failures < usize::MAX,
        ensures
            final(self).wf(),
            final(self).flush_failures == old(self).flush_failures + 1,
            final(self).backoff_until == (if now + backoff_secs(
                (old(self).flush_failures + 1) as nat,
            ) > u64::MAX {
                u64::MAX as int
            } else {
                now + backoff_secs((old(self).flush_failures + 1) as nat)
            }),
            old(self).flush_failures + 1 < FLUSH_FAILURE_THRESHOLD ==> {
                &&& dropped is None
                &&& final(self).persistence_disabled == old(self).persistence_disabled
                &&& final(self).pending@ == newest(
                    old(self).pending@ + writes@,
                    old(self).pending_cap as nat,
                )
            },
            old(self).flush_failures + 1 >= FLUSH_FAILURE_THRESHOLD ==> {
                &&& final(self).persistence_disabled
                &&& old(self).persistence_disabled ==> dropped is None && final(self).pending@
                    == old(self).pending@
                &&& !old(self).persistence_disabled ==> final(self).pending@.len() == 0 && dropped
                    == Some(
                    if old(self).pending@.len() + writes@.len() > usize::MAX {
                        usize::MAX
                    } else {
                        (old(self).pending@.len() + writes@.len()) as usize
                    },
                )
            },
            final(self).persistent == old(self).persistent,
            final(self).ttl_secs == old(self).ttl_secs,
            final(self).batch_size == old(self).batch_size,
            final(self).pending_cap == old(self).pending_cap,
    {
        self.flush_failures = self.flush_failures + 1;
        self.backoff_until = now.saturating_add(compute_backoff_secs(self.flush_failures));
        if self.flush_failures >= FLUSH_FAILURE_THRESHOLD {
            if self.persistence_disabled {
                return None;
            }
            self.persistence_disabled = true;
            let waiting = self.pending.len();
            self.pending.clear();
            return Some(waiting.saturating_add(writes.len()));
        }
        let ghost before = *self;
        let mut i: usize = 0;
        while i < writes.len()
            invariant
                i <= writes@.len(),
                self.pending@ == before.pending@ + writes@.take(i as int),
                self.persistent == before.persistent,
                self.ttl_secs == before.ttl_secs,
                self.batch_size == before.batch_size,
                self.pending_cap == before.pending_cap,
                self.flush_failures == before.flush_failures,
                self.backoff_until == before.backoff_until,
                self.persistence_disabled == before.persistence_disabled,
            decreases writes@.len() - i,
        {
            self.pending.push_back(writes[i]);
            i = i + 1;
            assert(writes@.take(i as int) =~= writes@.take(i - 1).push(writes@[i - 1]));
        }
        assert(writes@.take(writes@.len() as int) =~= writes@);
        let _ = self.enforce_pending_cap();
        None
    }

    /// Whether a periodic task is worth starting.
    pub fn should_start_task(&self, interval_ms: u64, running: bool) -> (r: bool)
        ensures
            r == (self.persistent && interval_ms > 0 && !running),
    {
        self.persistent && interval_ms != 0 && !running
    }
}

// ---------------------------------------------------------------------------
// Reading the store
// ---------------------------------------------------------------------------
/// One row of the store.
#[derive(Debug)]
pub struct StoredRow {
    pub key: Vec<u8>,
    pub timestamp: u64,
}

/// What a scan of the store found.
#[derive(Debug)]
pub struct LoadedRows {
    /// Keys that still count.
    pub keys: Vec<Key>,
    /// Rows to remove, by place.
    pub expired: Vec<usize>,
}

/// The keys of the rows before `n` that still count, in order.
pub open spec fn fresh_keys(rows: Seq<StoredRow>, n: int, now: u64, ttl_secs: u64) -> Seq<Seq<u8>>
    decreases n,
{
    if n <= 0 {
        Seq::empty()
    } else {
        let rest = fresh_keys(rows, n - 1, now, ttl_secs);
        let row = rows[n - 1];
        if !expired(now, row.timestamp, ttl_secs) && row.key@.len() == 16 {
            rest.push(row.key@)
        } else {
            rest
        }
    }
}

/// The places before `n` of the rows that are too old, in order.
pub open spec fn stale_places(rows: Seq<StoredRow>, n: int, now: u64, ttl_secs: u64) -> Seq<usize>
    decreases n,
{
    if n <= 0 {
        Seq::empty()
    } else {
        let rest = stale_places(rows, n - 1, now, ttl_secs);
        if expired(now, rows[n - 1].timestamp, ttl_secs) {
            rest.push((n - 1) as usize)
        } else {
            rest
        }
    }
}

pub open spec fn key_bytes(keys: Seq<Key>) -> Seq<Seq<u8>> {
    keys.map_values(|k: Key| k.bytes())
}

/// Sort the rows of the store into keys to keep and rows to remove. Rows that
/// hold no key are left alone.
pub fn load_from_db(rows: &Vec<StoredRow>, now: u64, ttl_secs: u64) -> (r: LoadedRows)
    ensures
        key_bytes(r.keys@) == fresh_keys(rows@, rows@.len() as int, now, ttl_secs),
        r.expired@ == stale_places(rows@, rows@.len() as int, now, ttl_secs),
{
    let mut keys: Vec<Key> = Vec::new();
    let mut stale: Vec<usize> = Vec::new();
    let mut i: usize = 0;
    while i < rows.len()
        invariant
            i <= rows@.len(),
            key_bytes(keys@) == fresh_keys(rows@, i as int, now, ttl_secs),
            stale@ == stale_places(rows@, i as int, now, ttl_secs),
        decreases rows@.len() - i,
    {
        let ghost before = keys@;
        if is_expired(now, rows[i].timestamp, ttl_secs) {
            stale.push(i);
        } else if let Some(key) = Key::from_bytes(rows[i].key.as_slice()) {
            keys.push(key);
            assert(key_bytes(keys@) =~= key_bytes(before).push(key.bytes()));
        }
        i = i + 1;
    }
    LoadedRows { keys, expired: stale }
}

/// The first rows that are too old, at most `batch_size` of them and at least
/// one where there is one.
pub fn prune_expired(rows: &Vec<StoredRow>, now: u64, ttl_secs: u64, batch_size: usize) -> (r: Vec<
    usize,
>)
    ensures
        ({
            let all = stale_places(rows@, rows@.len() as int, now, ttl_secs);
            let limit: int = if batch_size == 0 {
                1
            } else {
                batch_size as int
            };
            r@ == (if all.len() <= limit {
                all
            } else {
                all.take(limit)
            })
        }),
{
    let limit: usize = if batch_size == 0 {
        1
    } else {
        batch_size
    };
    let mut stale: Vec<usize> = Vec::new();
    let mut i: usize = 0;
    while i < rows.len() && stale.len() < limit
        invariant
            i <= rows@.len(),
            stale@ == stale_places(rows@, i as int, now, ttl_secs),
            stale@.len() <= limit,
        decreases rows@.len() - i,
    {
        if is_expired(now, rows[i].timestamp, ttl_secs) {
            stale.push(i);
        }
        i = i + 1;
    }
    proof {
        lemma_stale_prefix(rows@, i as int, rows@.len() as int, now, ttl_secs);
        let all = stale_places(rows@, rows@.len() as int, now, ttl_secs);
        assert(all.take(stale@.len() as int) == stale@);
        if all.len() <= limit && i < rows@.len() {
            assert(all =~= stale@);
        }
    }
    stale
}

proof fn lemma_stale_prefix(rows: Seq<StoredRow>, m: int, n: int, now: u64, ttl_secs: u64)
    requires
        0 <= m <= n,
    ensures
        stale_places(rows, m, now, ttl_secs).len() <= stale_places(rows, n, now, ttl_secs).len(),
        stale_places(rows, n, now, ttl_secs).take(
            stale_places(rows, m, now, ttl_secs).len() as int,
        ) == stale_places(rows, m, now, ttl_secs),
    decreases n - m,
{
    let a = stale_places(rows, m, now, ttl_secs);
    if m < n {
        lemma_stale_prefix(rows, m, n - 1, now, ttl_secs);
        let b = stale_places(rows, n - 1, now, ttl_secs);
        let c = stale_places(rows, n, now, ttl_secs);
        assert(c.take(a.len() as int) =~= b.take(a.len() as int));
    } else {
        assert(a.take(a.len() as int) =~= a);
    }
}

// ---------------------------------------------------------------------------
// What is remembered, and for how long
// ---------------------------------------------------------------------------
/// An entry counts up to and with the last second of its time, and never again
/// after that.
pub proof fn lemma_entries_expire_once(now: u64, later: u64, timestamp: u64, ttl_secs: u64)
    requires
        now <= later,
    ensures
        expired(now, timestamp, ttl_secs) <==> timestamp + ttl_secs < now,
        expired(now, timestamp, ttl_secs) ==> expired(later, timestamp, ttl_secs),
        !expired(timestamp, timestamp, ttl_secs),
{
}

/// A marker lives a minute longer than the stages of a job and than two
/// encodes, and no longer than the longer of these.
pub proof fn lemma_marker_lives_as_long_as_needed(download: u64, ffmpeg: u64, upload: u64)
    requires
        download + 2 * ffmpeg + upload + 60 <= u64::MAX,
    ensures
        ({
            let secs = marker_secs(download, ffmpeg, upload) - 60;
            &&& secs >= download + ffmpeg + upload
            &&& secs >= ffmpeg + ffmpeg
            &&& secs == download + ffmpeg + upload || secs == ffmpeg + ffmpeg
        }),
{
}

/// A lookup asks the markers, the cache and the store in this order, stops at
/// the first that knows the key, and tells the cache what only the store knew.
pub proof fn lemma_lookups_ask_until_known(marked: bool, cached: bool, stored: bool)
    ensures
        lookup_next(LookupStep::Marker, marked) is Done <==> marked,
        lookup_next(LookupStep::Cache, cached) is Done <==> cached,
        lookup_next(LookupStep::Store, stored) is Done,
        marked ==> lookup_next(LookupStep::Marker, marked) == (LookupAction::Done {
            duplicate: true,
            warm_cache: false,
        }),
        cached ==> lookup_next(LookupStep::Cache, cached) == (LookupAction::Done {
            duplicate: true,
            warm_cache: false,
        }),
        lookup_next(LookupStep::Store, stored) == (LookupAction::Done {
            duplicate: stored,
            warm_cache: stored,
        }),
        lookup_next(LookupStep::Marker, false) == (LookupAction::Ask { step: LookupStep::Cache }),
        lookup_next(LookupStep::Cache, false) == (LookupAction::Ask { step: LookupStep::Store }),
{
}

/// A reservation leaves the store as it was and tells the cache only what the
/// store knew.
pub proof fn lemma_reservations_keep_the_store(p: Places, key: Key)
    ensures
        ({
            let after = reserve_all(p, key).1;
            &&& after.stored == p.stored
            &&& p.cached.subset_of(after.cached)
            &&& after.cached != p.cached ==> p.stored.contains(key) && after.cached
                == p.cached.insert(key)
            &&& !p.markers.contains(key) && p.stored.contains(key) ==> after.cached.contains(key)
        }),
{
    reveal_with_fuel(reserve_from, 4);
}

/// The waits double from one second on, eight times, and then stay.
pub proof fn lemma_backoff_doubles(failures: nat)
    requires
        failures >= 1,
    ensures
        backoff_secs(1) == 1,
        failures < 9 ==> backoff_secs(failures + 1) == backoff_secs(failures) + backoff_secs(
            failures,
        ),
        failures >= 9 ==> backoff_secs(failures + 1) == backoff_secs(failures) == 256,
{
    lemma_backoff_values(failures);
    lemma_backoff_values(failures + 1);
}

/// Of too many writes the newest are kept, in their order, and as many as
/// there is room for.
pub proof fn lemma_newest_writes_are_kept(writes: Seq<PendingWrite>, cap: nat, i: int)
    requires
        0 <= i < newest(writes, cap).len(),
    ensures
        newest(writes, cap).len() == (if cap < writes.len() {
            cap
        } else {
            writes.len()
        }),
        newest(writes, cap)[newest(writes, cap).len() - 1 - i] == writes[writes.len() - 1 - i],
{
}

/// The keys taken from the store are exactly those of rows that are whole and
/// not too old.
pub proof fn lemma_fresh_keys_are_the_live_rows(
    rows: Seq<StoredRow>,
    n: int,
    now: u64,
    ttl_secs: u64,
)
    requires
        0 <= n <= rows.len(),
    ensures
        forall|i: int|
            0 <= i < n && (#[trigger] rows[i]).timestamp + ttl_secs >= now && rows[i].key@.len()
                == 16 ==> fresh_keys(rows, n, now, ttl_secs).contains(rows[i].key@),
        forall|k: int|
            0 <= k < fresh_keys(rows, n, now, ttl_secs).len() ==> exists|i: int|
                0 <= i < n && (#[trigger] rows[i]).timestamp + ttl_secs >= now
                    && rows[i].key@.len() == 16 && rows[i].key@ == #[trigger] fresh_keys(
                    rows,
                    n,
                    now,
                    ttl_secs,
                )[k],
    decreases n,
{
    if n > 0 {
        lemma_fresh_keys_are_the_live_rows(rows, n - 1, now, ttl_secs);
        let rest = fresh_keys(rows, n - 1, now, ttl_secs);
        let all = fresh_keys(rows, n, now, ttl_secs);
        let row = rows[n - 1];
        let live = row.timestamp + ttl_secs >= now && row.key@.len() == 16;
        if live {
            assert(all[rest.len() as int] == row.key@);
        }
        assert forall|i: int|
            0 <= i < n && (#[trigger] rows[i]).timestamp + ttl_secs >= now && rows[i].key@.len()
                == 16 implies all.contains(rows[i].key@) by {
            if i < n - 1 {
                let k = choose|k: int| 0 <= k < rest.len() && rest[k] == rows[i].key@;
                assert(all[k] == rest[k]);
            }
        }
        assert forall|k: int| 0 <= k < all.len() implies exists|i: int|
            0 <= i < n && (#[trigger] rows[i]).timestamp + ttl_secs >= now && rows[i].key@.len()
                == 16 && rows[i].key@ == #[trigger] all[k] by {
            if k < rest.len() {
                assert(all[k] == rest[k]);
            } else {
                assert(rows[n - 1].key@ == all[k]);
            }
        }
    }
}

/// The rows to remove are exactly those that are too old, each once.
pub proof fn lemma_stale_places_are_the_old_rows(
    rows: Seq<StoredRow>,
    n: int,
    now: u64,
    ttl_secs: u64,
)
    requires
        0 <= n <= rows.len() <= usize::MAX,
    ensures
        forall|i: int|
            0 <= i < n && (#[trigger] rows[i]).timestamp + ttl_secs < now ==> stale_places(
                rows,
                n,
                now,
                ttl_secs,
            ).contains(i as usize),
        forall|k: int|
            0 <= k < stale_places(rows, n, now, ttl_secs).len() ==> #[trigger] stale_places(
                rows,
                n,
                now,
                ttl_secs,
            )[k] < n && rows[stale_places(rows, n, now, ttl_secs)[k] as int].timestamp + ttl_secs
                < now,
        stale_places(rows, n, now, ttl_secs).no_duplicates(),
    decreases n,
{
    if n > 0 {
        lemma_stale_places_are_the_old_rows(rows, n - 1, now, ttl_secs);
        let rest = stale_places(rows, n - 1, now, ttl_secs);
        let all = stale_places(rows, n, now, ttl_secs);
        if rows[n - 1].timestamp + ttl_secs < now {
            assert(all[rest.len() as int] == (n - 1) as usize);
        }
        assert forall|i: int|
            0 <= i < n && (#[trigger] rows[i]).timestamp + ttl_secs < now implies all.contains(
            i as usize,
        ) by {
            if i < n - 1 {
                let k = choose|k: int| 0 <= k < rest.len() && rest[k] == i as usize;
                assert(all[k] == rest[k]);
            }
        }
    }
}

} // verus!
