//! Counters of the pipeline.
//!
//! Totals live as long as the store they are kept in; the timing window starts
//! anew at every start and after every flush.

use crate::config::StorageSettings;
use dashmap::DashMap;
use vstd::prelude::*;

verus! {

/// At most so many kinds of error are counted.
pub const MAX_ERROR_KEYS: usize = 128;

/// A stage of the pipeline.
#[derive(Debug, Clone, Copy, PartialEq, Eq, Structural)]
pub enum Stage {
    Resolve,
    Download,
    Optimize,
    Upload,
}

impl Stage {
    /// The place of the stage in the timing window.
    pub open spec fn place(self) -> int {
        match self {
            Stage::Resolve => 0,
            Stage::Download => 1,
            Stage::Optimize => 2,
            Stage::Upload => 3,
        }
    }

    pub open spec fn name(self) -> Seq<char> {
        match self {
            Stage::Resolve => "resolve"@,
            Stage::Download => "download"@,
            Stage::Optimize => "optimize"@,
            Stage::Upload => "upload"@,
        }
    }

    pub fn index(self) -> (r: usize)
        ensures
            r == self.place(),
            r < 4,
    {
        match self {
            Stage::Resolve => 0,
            Stage::Download => 1,
            Stage::Optimize => 2,
            Stage::Upload => 3,
        }
    }

    pub fn as_str(self) -> (s: &'static str)
        ensures
            s@ == self.name(),
    {
        match self {
            Stage::Resolve => "resolve",
            Stage::Download => "download",
            Stage::Optimize => "optimize",
            Stage::Upload => "upload",
        }
    }

    /// All stages, in the order of the pipeline.
    pub fn all() -> (r: [Stage; 4])
        ensures
            r@ == seq![Stage::Resolve, Stage::Download, Stage::Optimize, Stage::Upload],
            forall|i: int| 0 <= i < 4 ==> (#[trigger] r@[i]).place() == i,
    {
        [Stage::Resolve, Stage::Download, Stage::Optimize, Stage::Upload]
    }
}

/// Counters for status reports.
#[derive(Debug, Clone, Copy)]
pub struct Snapshot {
    pub totals: TotalsSnapshot,
    pub stage_window: StageWindowSnapshot,
}

/// Counters over the life of the store.
#[derive(Debug, Clone, Copy, PartialEq, Eq, Structural)]
pub struct TotalsSnapshot {
    pub total_runs: u64,
    pub successes: u64,
    pub failures: u64,
}

/// The current timing window, by stage.
#[derive(Debug, Clone, Copy)]
pub struct StageWindowSnapshot {
    pub avg_ms: [u64; 4],
    pub sample_count: [u64; 4],
}

// ---------------------------------------------------------------------------
// The map of error kinds
// ---------------------------------------------------------------------------
#[verifier::external_type_specification]
#[verifier::external_body]
#[verifier::reject_recursive_types(K)]
#[verifier::reject_recursive_types(V)]
#[verifier::reject_recursive_types(S)]
pub struct ExDashMap<K, V, S>(DashMap<K, V, S>);

/// The counts that a map holds, by kind.
pub uninterp spec fn counts_in(map: DashMap<String, u64>) -> Map<Seq<char>, u64>;

/// No kind was counted.
pub open spec fn no_counts() -> Map<Seq<char>, u64> {
    Map::empty()
}

/// The map has `n` keys.
pub open spec fn has_size(map: Map<Seq<char>, u64>, n: nat) -> bool {
    map.dom().finite() && map.dom().len() == n
}

/// `DashMap::new`: an empty map.
#[verifier::external_body]
fn new_map() -> (map: DashMap<String, u64>)
    ensures
        counts_in(map) == no_counts(),
{
    DashMap::new()
}

/// `DashMap::len`: the number of keys, of which there are finitely many.
#[verifier::external_body]
fn map_len(map: &DashMap<String, u64>) -> (n: usize)
    ensures
        has_size(counts_in(*map), n as nat),
{
    map.len()
}

/// `DashMap::get`: the value under a key, where there is one.
#[verifier::external_body]
fn map_get(map: &DashMap<String, u64>, key: &str) -> (value: Option<u64>)
    ensures
        value == (if counts_in(*map).contains_key(key@) {
            Some(counts_in(*map)[key@])
        } else {
            None
        }),
{
    map.get(key).map(|entry| *entry.value())
}

/// `DashMap::insert`: the value stands under the key afterwards, the rest
/// stays. The map is held exclusively while it changes.
#[verifier::external_body]
fn map_insert(map: &mut DashMap<String, u64>, key: String, value: u64)
    ensures
        counts_in(*final(map)) == counts_in(*old(map)).insert(key@, value),
{
    map.insert(key, value);
}

/// `DashMap::clear`: nothing is left.
#[verifier::external_body]
fn map_clear(map: &mut DashMap<String, u64>)
    ensures
        counts_in(*final(map)) == no_counts(),
{
    map.clear()
}

/// `DashMap::iter`: every pair once, in no particular order.
#[verifier::external_body]
fn map_entries(map: &DashMap<String, u64>) -> (entries: Vec<(String, u64)>)
    ensures
        lists(entries_view(entries@), counts_in(*map)),
{
    map.iter().map(|entry| (entry.key().clone(), *entry.value())).collect()
}

pub open spec fn entries_view(entries: Seq<(String, u64)>) -> Seq<(Seq<char>, u64)> {
    entries.map_values(|e: (String, u64)| (e.0@, e.1))
}

/// The entries are the pairs of the map, each once.
pub open spec fn lists(entries: Seq<(Seq<char>, u64)>, map: Map<Seq<char>, u64>) -> bool {
    &&& forall|i: int|
        0 <= i < entries.len() ==> map.contains_key((#[trigger] entries[i]).0) && map[entries[i].0]
            == entries[i].1
    &&& forall|key: Seq<char>| #[trigger]
        map.contains_key(key) ==> exists|i: int|
            0 <= i < entries.len() && (#[trigger] entries[i]).0 == key
    &&& forall|i: int, j: int|
        0 <= i < j < entries.len() ==> (#[trigger] entries[i]).0 != (#[trigger] entries[j]).0
}

/// The map that entries give when they are put in one after the other.
pub open spec fn map_of(entries: Seq<(Seq<char>, u64)>) -> Map<Seq<char>, u64>
    decreases entries.len(),
{
    if entries.len() == 0 {
        no_counts()
    } else {
        map_of(entries.drop_last()).insert(entries.last().0, entries.last().1)
    }
}

proof fn lemma_map_of(entries: Seq<(Seq<char>, u64)>, key: Seq<char>)
    requires
        forall|i: int, j: int|
            0 <= i < j < entries.len() ==> (#[trigger] entries[i]).0 != (#[trigger] entries[j]).0,
    ensures
        map_of(entries).contains_key(key) <==> exists|i: int|
            0 <= i < entries.len() && (#[trigger] entries[i]).0 == key,
        forall|i: int|
            0 <= i < entries.len() && (#[trigger] entries[i]).0 == key ==> map_of(entries)[key]
                == entries[i].1,
    decreases entries.len(),
{
    if entries.len() > 0 {
        let rest = entries.drop_last();
        let last = entries.len() - 1;
        assert forall|i: int, j: int| 0 <= i < j < rest.len() implies (#[trigger] rest[i]).0 != (
        #[trigger] rest[j]).0 by {
            assert(rest[i] == entries[i]);
            assert(rest[j] == entries[j]);
        }
        lemma_map_of(rest, key);
        if map_of(entries).contains_key(key) {
            if entries.last().0 == key {
                assert(entries[last].0 == key);
            } else {
                let i = choose|i: int| 0 <= i < rest.len() && (#[trigger] rest[i]).0 == key;
                assert(entries[i].0 == key);
            }
        }
        assert forall|i: int| 0 <= i < entries.len() && (#[trigger] entries[i]).0
            == key implies map_of(entries).contains_key(key) && map_of(entries)[key]
            == entries[i].1 by {
            if i < last {
                assert(rest[i] == entries[i]);
                assert(entries[i].0 != entries[last].0);
            }
        }
    }
}

/// Entries that list a map give that map back.
pub proof fn lemma_listed_map_is_restored(
    entries: Seq<(Seq<char>, u64)>,
    map: Map<Seq<char>, u64>,
)
    requires
        lists(entries, map),
    ensures
        map_of(entries) == map,
{
    assert forall|key: Seq<char>| map_of(entries).contains_key(key) <==> map.contains_key(key) by {
        lemma_map_of(entries, key);
        if map_of(entries).contains_key(key) {
            let i = choose|i: int| 0 <= i < entries.len() && (#[trigger] entries[i]).0 == key;
            assert(map.contains_key(entries[i].0));
        }
    }
    assert forall|key: Seq<char>| map.contains_key(key) implies map_of(entries)[key]
        == map[key] by {
        lemma_map_of(entries, key);
        let i = choose|i: int| 0 <= i < entries.len() && (#[trigger] entries[i]).0 == key;
        assert(map[entries[i].0] == entries[i].1);
    }
    assert(map_of(entries) =~= map);
}

/// A kind is counted while there are not too many, or where it is known.
pub open spec fn has_room(map: Map<Seq<char>, u64>, kind: Seq<char>) -> bool {
    map.dom().len() < MAX_ERROR_KEYS || map.contains_key(kind)
}

/// The counts after one more error of a kind.
pub open spec fn with_error(map: Map<Seq<char>, u64>, kind: Seq<char>) -> Map<Seq<char>, u64> {
    if has_room(map, kind) {
        map.insert(
            kind,
            plus_one(
                if map.contains_key(kind) {
                    map[kind]
                } else {
                    0
                },
            ),
        )
    } else {
        map
    }
}

/// How often each kind of error came.
pub struct ErrorCounts {
    map: DashMap<String, u64>,
}

impl View for ErrorCounts {
    type V = Map<Seq<char>, u64>;

    closed spec fn view(&self) -> Map<Seq<char>, u64> {
        counts_in(self.map)
    }
}

impl ErrorCounts {
    fn new() -> (r: Self)
        ensures
            r@ == no_counts(),
    {
        ErrorCounts { map: new_map() }
    }

    /// How often a kind came.
    pub fn count(&self, kind: &str) -> (n: u64)
        ensures
            n == (if self@.contains_key(kind@) {
                self@[kind@]
            } else {
                0
            }),
    {
        match map_get(&self.map, kind) {
            Some(n) => n,
            None => 0,
        }
    }

    /// The number of kinds.
    pub fn len(&self) -> (n: usize)
        ensures
            self@.dom().finite(),
            n == self@.dom().len(),
    {
        map_len(&self.map)
    }

    fn bump(&mut self, kind: &str) -> (counted: bool)
        ensures
            old(self)@.dom().finite(),
            counted == has_room(old(self)@, kind@),
            final(self)@ == with_error(old(self)@, kind@),
    {
        let known = map_get(&self.map, kind);
        let kinds = map_len(&self.map);
        if kinds >= MAX_ERROR_KEYS && known.is_none() {
            return false;
        }
        let n: u64 = match known {
            Some(n) => n,
            None => 0,
        };
        map_insert(&mut self.map, kind.to_owned(), n.wrapping_add(1));
        true
    }

    fn replace(&mut self, entries: &Vec<(String, u64)>)
        ensures
            final(self)@ == map_of(entries_view(entries@)),
    {
        map_clear(&mut self.map);
        let ghost all = entries_view(entries@);
        let mut i: usize = 0;
        assert(all.take(0) =~= Seq::<(Seq<char>, u64)>::empty());
        while i < entries.len()
            invariant
                i <= entries@.len(),
                all == entries_view(entries@),
                counts_in(self.map) == map_of(all.take(i as int)),
            decreases entries@.len() - i,
        {
            map_insert(&mut self.map, entries[i].0.clone(), entries[i].1);
            i = i + 1;
            assert(all.take(i as int).drop_last() =~= all.take(i - 1));
        }
        assert(all.take(all.len() as int) =~= all);
    }
}

// ---------------------------------------------------------------------------
// The tracker
// ---------------------------------------------------------------------------
/// One more; the counters wrap around.
pub open spec fn plus_one(n: u64) -> u64 {
    if n == u64::MAX {
        0
    } else {
        (n + 1) as u64
    }
}

/// The sum modulo the size of a counter.
pub open spec fn plus(a: u64, b: u64) -> int {
    if a + b > u64::MAX {
        a + b - u64::MAX - 1
    } else {
        a + b
    }
}

/// What a store keeps of the counters.
#[derive(Debug)]
pub struct StoredCounters {
    pub total_runs: u64,
    pub successes: u64,
    pub failures: u64,
    pub errors: Vec<(String, u64)>,
}

/// Counters in memory; a disabled tracker counts nothing.
pub struct Tracker {
    pub enabled: bool,
    pub total_runs: u64,
    pub successes: u64,
    pub failures: u64,
    pub stage_sum_ms: [u64; 4],
    pub stage_count: [u64; 4],
    pub errors: ErrorCounts,
}

impl Tracker {
    /// Every run was counted as a success or as a failure.
    pub open spec fn balanced(&self) -> bool {
        self.total_runs == plus(self.successes, self.failures)
    }

    /// Nothing counted so far.
    pub open spec fn is_fresh(&self) -> bool {
        &&& self.total_runs == 0
        &&& self.successes == 0
        &&& self.failures == 0
        &&& self.window_is_empty()
        &&& self.errors@ == no_counts()
    }

    pub open spec fn window_is_empty(&self) -> bool {
        &&& forall|i: int| 0 <= i < 4 ==> #[trigger] self.stage_sum_ms@[i] == 0
        &&& forall|i: int| 0 <= i < 4 ==> #[trigger] self.stage_count@[i] == 0
    }

    pub fn new(config: &StorageSettings) -> (r: Self)
        ensures
            r.enabled == config.metrics_enabled,
            r.is_fresh(),
            r.balanced(),
    {
        Tracker {
            enabled: config.metrics_enabled,
            total_runs: 0,
            successes: 0,
            failures: 0,
            stage_sum_ms: [0, 0, 0, 0],
            stage_count: [0, 0, 0, 0],
            errors: ErrorCounts::new(),
        }
    }

    /// Count a run that worked.
    pub fn record_success(&mut self)
        ensures
            old(self).enabled ==> *final(self) == (Tracker {
                total_runs: plus_one(old(self).total_runs),
                successes: plus_one(old(self).successes),
                ..*old(self)
            }),
            !old(self).enabled ==> *final(self) == *old(self),
            old(self).balanced() ==> final(self).balanced(),
    {
        if !self.enabled {
            return;
        }
        self.total_runs = self.total_runs.wrapping_add(1);
        self.successes = self.successes.wrapping_add(1);
    }

    /// Count a run that failed.
    pub fn record_failure(&mut self)
        ensures
            old(self).enabled ==> *final(self) == (Tracker {
                total_runs: plus_one(old(self).total_runs),
                failures: plus_one(old(self).failures),
                ..*old(self)
            }),
            !old(self).enabled ==> *final(self) == *old(self),
            old(self).balanced() ==> final(self).balanced(),
    {
        if !self.enabled {
            return;
        }
        self.total_runs = self.total_runs.wrapping_add(1);
        self.failures = self.failures.wrapping_add(1);
    }

    /// Take a stage's duration into the timing window.
    pub fn record_stage_duration(&mut self, stage: Stage, duration_ms: u64)
        ensures
            !old(self).enabled ==> *final(self) == *old(self),
            old(self).enabled ==> {
                &&& final(self).stage_sum_ms@ == old(self).stage_sum_ms@.update(
                    stage.place(),
                    plus(old(self).stage_sum_ms@[stage.place()], duration_ms) as u64,
                )
                &&& final(self).stage_count@ == old(self).stage_count@.update(
                    stage.place(),
                    plus_one(old(self).stage_count@[stage.place()]),
                )
            },
            final(self).enabled == old(self).enabled,
            final(self).total_runs == old(self).total_runs,
            final(self).successes == old(self).successes,
            final(self).failures == old(self).failures,
            final(self).errors@ == old(self).errors@,
    {
        if !self.enabled {
            return;
        }
        let idx = stage.index();
        let sum = self.stage_sum_ms[idx].wrapping_add(duration_ms);
        let count = self.stage_count[idx].wrapping_add(1);
        self.stage_sum_ms[idx] = sum;
        self.stage_count[idx] = count;
    }

    /// Count an error by its kind. A new kind is dropped once there are too
    /// many; the return value says whether it was counted.
    pub fn record_error(&mut self, kind: &str) -> (counted: bool)
        ensures
            old(self).enabled ==> old(self).errors@.dom().finite(),
            counted == (old(self).enabled && has_room(old(self).errors@, kind@)),
            final(self).errors@ == (if old(self).enabled {
                with_error(old(self).errors@, kind@)
            } else {
                old(self).errors@
            }),
            old(self).errors@.dom().len() <= MAX_ERROR_KEYS ==> final(self).errors@.dom().len()
                <= MAX_ERROR_KEYS,
            final(self).enabled == old(self).enabled,
            final(self).total_runs == old(self).total_runs,
            final(self).successes == old(self).successes,
            final(self).failures == old(self).failures,
            final(self).stage_sum_ms == old(self).stage_sum_ms,
            final(self).stage_count == old(self).stage_count,
    {
        if !self.enabled {
            return false;
        }
        let counted = self.errors.bump(kind);
        proof {
            if counted && !old(self).errors@.contains_key(kind@) {
                assert(final(self).errors@.dom() =~= old(self).errors@.dom().insert(kind@));
            } else if counted {
                assert(final(self).errors@.dom() =~= old(self).errors@.dom());
            }
        }
        counted
    }

    /// Take over what a store kept; the timing window starts anew.
    pub fn load_from_db(&mut self, stored: &StoredCounters)
        ensures
            !old(self).enabled ==> *final(self) == *old(self),
            old(self).enabled ==> {
                &&& final(self).total_runs == stored.total_runs
                &&& final(self).successes == stored.successes
                &&& final(self).failures == stored.failures
                &&& final(self).window_is_empty()
                &&& final(self).errors@ == map_of(entries_view(stored.errors@))
            },
            final(self).enabled == old(self).enabled,
    {
        if !self.enabled {
            return;
        }
        self.total_runs = stored.total_runs;
        self.successes = stored.successes;
        self.failures = stored.failures;
        self.stage_sum_ms = [0, 0, 0, 0];
        self.stage_count = [0, 0, 0, 0];
        self.errors.replace(&stored.errors);
    }

    /// The counters as they stand.
    pub fn snapshot(&self) -> (r: Snapshot)
        ensures
            r.totals == (TotalsSnapshot {
                total_runs: self.total_runs,
                successes: self.successes,
                failures: self.failures,
            }),
            r.stage_window.sample_count@ == self.stage_count@,
            forall|i: int|
                0 <= i < 4 ==> #[trigger] r.stage_window.avg_ms@[i] == (if self.stage_count@[i]
                    == 0 {
                    0
                } else {
                    (self.stage_sum_ms@[i] as int) / (self.stage_count@[i] as int)
                }),
    {
        Snapshot {
            totals: TotalsSnapshot {
                total_runs: self.total_runs,
                successes: self.successes,
                failures: self.failures,
            },
            stage_window: StageWindowSnapshot {
                avg_ms: [
                    average(self.stage_sum_ms[0], self.stage_count[0]),
                    average(self.stage_sum_ms[1], self.stage_count[1]),
                    average(self.stage_sum_ms[2], self.stage_count[2]),
                    average(self.stage_sum_ms[3], self.stage_count[3]),
                ],
                sample_count: [
                    self.stage_count[0],
                    self.stage_count[1],
                    self.stage_count[2],
                    self.stage_count[3],
                ],
            },
        }
    }

    /// What a store is to keep; nothing of a disabled tracker.
    pub fn flush(&self) -> (r: Option<StoredCounters>)
        ensures
            r is Some <==> self.enabled,
            r matches Some(stored) ==> stored.total_runs == self.total_runs && stored.successes
                == self.successes && stored.failures == self.failures && lists(
                entries_view(stored.errors@),
                self.errors@,
            ),
    {
        if !self.enabled {
            return None;
        }
        Some(
            StoredCounters {
                total_runs: self.total_runs,
                successes: self.successes,
                failures: self.failures,
                errors: map_entries(&self.errors.map),
            },
        )
    }

    /// The counters are stored: the timing window starts anew.
    pub fn flush_succeeded(&mut self)
        ensures
            final(self).window_is_empty(),
            final(self).enabled == old(self).enabled,
            final(self).total_runs == old(self).total_runs,
            final(self).successes == old(self).successes,
            final(self).failures == old(self).failures,
            final(self).errors@ == old(self).errors@,
    {
        self.stage_sum_ms = [0, 0, 0, 0];
        self.stage_count = [0, 0, 0, 0];
    }
}

fn average(sum: u64, count: u64) -> (r: u64)
    ensures
        count == 0 ==> r == 0,
        count > 0 ==> r == (sum as int) / (count as int),
{
    if count == 0 {
        0
    } else {
        sum / count
    }
}

/// Loading what was flushed restores the totals and the error counts.
pub proof fn lemma_flush_then_load_restores(
    flushed: Tracker,
    stored: StoredCounters,
    loaded: Tracker,
)
    requires
        stored.total_runs == flushed.total_runs,
        stored.successes == flushed.successes,
        stored.failures == flushed.failures,
        lists(entries_view(stored.errors@), flushed.errors@),
        loaded.total_runs == stored.total_runs,
        loaded.successes == stored.successes,
        loaded.failures == stored.failures,
        loaded.errors@ == map_of(entries_view(stored.errors@)),
    ensures
        loaded.total_runs == flushed.total_runs,
        loaded.successes == flushed.successes,
        loaded.failures == flushed.failures,
        loaded.errors@ == flushed.errors@,
{
    lemma_listed_map_is_restored(entries_view(stored.errors@), flushed.errors@);
}

// ---------------------------------------------------------------------------
// What is counted
// ---------------------------------------------------------------------------
/// The stages have their own places, in the order in which they run, and their
/// own names.
pub proof fn lemma_stages_have_their_own_places(a: Stage, b: Stage)
    ensures
        0 <= a.place() < 4,
        a.place() == b.place() <==> a == b,
        a.name() == b.name() <==> a == b,
        a.name() == "resolve"@ <==> a == Stage::Resolve,
        a.name() == "download"@ <==> a == Stage::Download,
        a.name() == "optimize"@ <==> a == Stage::Optimize,
        a.name() == "upload"@ <==> a == Stage::Upload,
        Stage::Resolve.place() < Stage::Download.place() < Stage::Optimize.place()
            < Stage::Upload.place(),
{
    reveal_strlit("resolve");
    reveal_strlit("download");
    reveal_strlit("optimize");
    reveal_strlit("upload");
    assert("resolve"@.len() == 7);
    assert("download"@.len() == 8);
    assert("optimize"@.len() == 8);
    assert("upload"@.len() == 6);
    assert("download"@[0] != "optimize"@[0]);
}

/// An error raises the count of its own kind by one and no other; a kind is
/// left out only where it is new and there are 128 others.
pub proof fn lemma_errors_are_counted_by_kind(
    map: Map<Seq<char>, u64>,
    kind: Seq<char>,
    other: Seq<char>,
)
    requires
        other != kind,
    ensures
        with_error(map, kind).contains_key(other) == map.contains_key(other),
        map.contains_key(other) ==> with_error(map, kind)[other] == map[other],
        map.contains_key(kind) && map[kind] < u64::MAX ==> with_error(map, kind)[kind] == map[kind]
            + 1,
        !map.contains_key(kind) ==> (with_error(map, kind).contains_key(kind) <==> map.dom().len()
            < 128),
        !map.contains_key(kind) && map.dom().len() < 128 ==> with_error(map, kind)[kind] == 1,
{
}

/// Counters go round: the sum and the number are the same up to whole rounds.
pub proof fn lemma_counters_go_round(a: u64, b: u64)
    ensures
        0 <= plus(a, b) < 0x1_0000_0000_0000_0000,
        plus(a, b) == a + b || plus(a, b) + 0x1_0000_0000_0000_0000 == a + b,
        plus_one(a) == plus(a, 1),
{
}

/// A fresh tracker has counted nothing, in no stage.
pub proof fn lemma_fresh_trackers_have_counted_nothing(t: Tracker, i: int)
    requires
        t.is_fresh(),
        0 <= i < 4,
    ensures
        t.total_runs == 0 && t.successes == 0 && t.failures == 0,
        t.stage_sum_ms@[i] == 0 && t.stage_count@[i] == 0,
        t.errors@ == Map::<Seq<char>, u64>::empty(),
        t.balanced(),
{
}

} // verus!
