//! Deduplication, metrics and their stores.

use azalea::config::{PipelineSettings, StorageSettings, TranscodeSettings};
use azalea::media::tempfile::{
    drain_remaining_ms, guard_action, remove_path_async, remove_path_sync, EntryAction, EntryFacts,
    GuardAction, QueueOutcome, RemoveFailure, RemoveNext, StaleTempCleanup,
};
use azalea::media::url::TweetId;
use azalea::storage::dedup::{
    compute_backoff_secs, inflight_ttl_secs, is_duplicate, is_expired, load_from_db,
    prune_expired, reserve_inflight, stored_entry, Cache, Key, LastKnown, LookupAction,
    LookupStep, ReserveAction, ReserveStep, StoredEntry, StoredRow, DEFAULT_BATCH_SIZE,
    FLUSH_FAILURE_THRESHOLD,
};
use azalea::storage::metrics::{Stage, StoredCounters, Tracker, MAX_ERROR_KEYS};
use azalea::storage::store::{
    corrupt_store_name, is_corruption_error, next_corrupt_store_path, no_file_name_error,
    no_free_name_error, open_or_rotate_corrupt_store, recreate_context, rotate_context,
    FlushWorker, NameSearch, OpenAction, StoreFailure, WorkerAction, WorkerSignal,
};
use std::collections::HashSet;

fn storage_config(metrics_enabled: bool) -> StorageSettings {
    StorageSettings { metrics_enabled, ..StorageSettings::default() }
}

#[test]
fn disabled_metrics_are_noop() {
    let mut tracker = Tracker::new(&storage_config(false));
    tracker.record_success();
    tracker.record_failure();
    tracker.record_stage_duration(Stage::Resolve, 123);
    tracker.record_error("resolve_failed");

    let snapshot = tracker.snapshot();
    assert_eq!(snapshot.totals.total_runs, 0);
    assert_eq!(snapshot.totals.successes, 0);
    assert_eq!(snapshot.totals.failures, 0);
    assert_eq!(snapshot.stage_window.avg_ms, [0; 4]);
    assert_eq!(snapshot.stage_window.sample_count, [0; 4]);
    assert!(tracker.flush().is_none());
}

#[test]
fn snapshot_aggregates_counters_and_stage_averages() {
    let mut tracker = Tracker::new(&storage_config(true));
    tracker.record_success();
    tracker.record_failure();
    tracker.record_stage_duration(Stage::Resolve, 100);
    tracker.record_stage_duration(Stage::Resolve, 300);
    tracker.record_stage_duration(Stage::Upload, 80);

    let snapshot = tracker.snapshot();
    assert_eq!(snapshot.totals.total_runs, 2);
    assert_eq!(snapshot.totals.successes, 1);
    assert_eq!(snapshot.totals.failures, 1);
    assert_eq!(snapshot.stage_window.avg_ms.get(Stage::Resolve.index()).copied(), Some(200));
    assert_eq!(snapshot.stage_window.avg_ms.get(Stage::Upload.index()).copied(), Some(80));
    assert_eq!(snapshot.stage_window.sample_count.get(Stage::Resolve.index()).copied(), Some(2));
}

#[test]
fn flush_then_load_restores_persisted_state() {
    let mut tracker = Tracker::new(&storage_config(true));
    tracker.record_success();
    tracker.record_stage_duration(Stage::Download, 250);
    tracker.record_error("download_failed");
    let stored = tracker.flush().expect("enabled metrics are stored");
    tracker.flush_succeeded();
    assert_eq!(tracker.snapshot().stage_window.sample_count, [0; 4]);

    let mut restored = Tracker::new(&storage_config(true));
    restored.record_error("forgotten");
    restored.load_from_db(&stored);

    let snapshot = restored.snapshot();
    assert_eq!(snapshot.totals.total_runs, 1);
    assert_eq!(snapshot.totals.successes, 1);
    assert_eq!(snapshot.totals.failures, 0);
    assert_eq!(snapshot.stage_window.avg_ms, [0; 4]);
    assert_eq!(snapshot.stage_window.sample_count, [0; 4]);
    assert_eq!(restored.errors.count("download_failed"), 1);
    assert_eq!(restored.errors.count("forgotten"), 0);
}

#[test]
fn error_kinds_are_bounded() {
    let mut tracker = Tracker::new(&storage_config(true));
    for i in 0..MAX_ERROR_KEYS {
        assert!(tracker.record_error(&format!("kind-{i}")));
    }
    assert!(!tracker.record_error("one-more"));
    assert!(tracker.record_error("kind-5"));
    assert_eq!(tracker.errors.len(), MAX_ERROR_KEYS);
    assert_eq!(tracker.errors.count("kind-5"), 2);
    assert_eq!(tracker.errors.count("one-more"), 0);
    let stored = tracker.flush().expect("enabled");
    let kinds: HashSet<String> = stored.errors.iter().map(|e| e.0.clone()).collect();
    assert_eq!(stored.errors.len(), MAX_ERROR_KEYS);
    assert_eq!(kinds.len(), MAX_ERROR_KEYS);
}

#[test]
fn later_rows_of_a_kind_win() {
    let mut tracker = Tracker::new(&storage_config(true));
    tracker.load_from_db(&StoredCounters {
        total_runs: 3,
        successes: 1,
        failures: 2,
        errors: vec![("a".to_string(), 1), ("a".to_string(), 4)],
    });
    assert_eq!(tracker.errors.count("a"), 4);
    assert_eq!(tracker.snapshot().totals.failures, 2);
    assert_eq!(Stage::all().map(|s| s.as_str()), ["resolve", "download", "optimize", "upload"]);
}

#[test]
fn keys_survive_their_bytes() {
    let key = Key::new(55, TweetId(0x0102_0304_0506_0708));
    let bytes = key.to_bytes();
    assert_eq!(
        bytes,
        [55, 0, 0, 0, 0, 0, 0, 0, 8, 7, 6, 5, 4, 3, 2, 1]
    );
    assert_eq!(Key::from_bytes(&bytes), Some(key));
    assert_eq!(Key::from_bytes(&bytes[1..]), None);
    assert_ne!(key.to_bytes(), Key::new(56, key.tweet_id).to_bytes());
}

#[test]
fn time_never_goes_back() {
    let mut clock = LastKnown::new();
    assert_eq!(clock.observe(100), 100);
    assert_eq!(clock.observe(90), 100);
    assert!(!clock.jumped_back(40));
    assert!(clock.jumped_back(39));
    assert_eq!(clock.observe(10), 100);
    assert_eq!(clock.observe(101), 101);
}

#[test]
fn entries_expire_after_their_time() {
    assert!(!is_expired(110, 100, 10));
    assert!(is_expired(111, 100, 10));
    assert!(!is_expired(5, 100, 0));
    assert_eq!(stored_entry(None, 1, 1), StoredEntry::Missing);
    assert_eq!(stored_entry(Some(100), 110, 10), StoredEntry::Fresh);
    assert_eq!(stored_entry(Some(100), 111, 10), StoredEntry::Stale);
    let pipeline = PipelineSettings {
        download_timeout_secs: 100,
        upload_timeout_secs: 50,
        ..PipelineSettings::default()
    };
    let mut transcode = TranscodeSettings::default();
    transcode.ffmpeg_timeout_secs = 120;
    assert_eq!(inflight_ttl_secs(&pipeline, &transcode), 330);
    transcode.ffmpeg_timeout_secs = 1_000;
    assert_eq!(inflight_ttl_secs(&pipeline, &transcode), 2_060);
    transcode.ffmpeg_timeout_secs = u64::MAX;
    assert_eq!(inflight_ttl_secs(&pipeline, &transcode), u64::MAX);
}

/// The three places of a deduplication, driven by its steps.
struct Dedup {
    markers: HashSet<Key>,
    cached: HashSet<Key>,
    stored: HashSet<Key>,
}

impl Dedup {
    fn reserve(&mut self, key: Key) -> bool {
        let mut step = ReserveStep::ClaimMarker;
        loop {
            let answer = match step {
                ReserveStep::ClaimMarker => self.markers.insert(key),
                ReserveStep::LookUpCache => self.cached.contains(&key),
                ReserveStep::LookUpStore => self.stored.contains(&key),
            };
            match reserve_inflight(step, answer) {
                ReserveAction::Ask { step: next } => step = next,
                ReserveAction::Done { granted, drop_marker, warm_cache } => {
                    if drop_marker {
                        self.markers.remove(&key);
                    }
                    if warm_cache {
                        self.cached.insert(key);
                    }
                    return granted;
                }
            }
        }
    }

    fn is_duplicate(&mut self, key: Key) -> bool {
        let mut step = LookupStep::Marker;
        loop {
            let known = match step {
                LookupStep::Marker => self.markers.contains(&key),
                LookupStep::Cache => self.cached.contains(&key),
                LookupStep::Store => self.stored.contains(&key),
            };
            match is_duplicate(step, known) {
                LookupAction::Ask { step: next } => step = next,
                LookupAction::Done { duplicate, warm_cache } => {
                    if warm_cache {
                        self.cached.insert(key);
                    }
                    return duplicate;
                }
            }
        }
    }
}

#[test]
fn dedup_cache_smoke_flow() {
    let mut dedup =
        Dedup { markers: HashSet::new(), cached: HashSet::new(), stored: HashSet::new() };
    let key = Key::new(55, TweetId(77));
    assert!(dedup.reserve(key));
    dedup.cached.insert(key);
    dedup.markers.remove(&key);
    assert!(dedup.is_duplicate(key));
}

#[test]
fn a_request_is_admitted_once() {
    let key = Key::new(1, TweetId(2));
    let mut dedup =
        Dedup { markers: HashSet::new(), cached: HashSet::new(), stored: HashSet::new() };
    assert!(dedup.reserve(key));
    assert!(!dedup.reserve(key));
    assert!(dedup.markers.contains(&key));

    let mut stored = Dedup {
        markers: HashSet::new(),
        cached: HashSet::new(),
        stored: HashSet::from([key]),
    };
    assert!(!stored.reserve(key));
    assert!(stored.markers.is_empty());
    assert!(stored.cached.contains(&key));
    assert!(!stored.is_duplicate(Key::new(1, TweetId(3))));
}

fn key(n: u64) -> Key {
    Key::new(n, TweetId(n))
}

#[test]
fn writes_wait_for_a_batch() {
    let mut cache = Cache::new(&StorageSettings::default());
    assert_eq!(cache.ttl_secs, 24 * 3600);
    for n in 0..DEFAULT_BATCH_SIZE as u64 - 1 {
        assert!(!cache.mark_processed(key(n), n));
    }
    assert!(cache.mark_processed(key(99), 99));
    assert_eq!(cache.pending_writes_len(), DEFAULT_BATCH_SIZE);
    let writes = cache.flush(100).expect("writes are due");
    assert_eq!(writes.len(), DEFAULT_BATCH_SIZE);
    assert_eq!(writes[0].key, key(0));
    assert_eq!(cache.pending_writes_len(), 0);
    assert!(cache.flush(100).is_none());

    let memory = StorageSettings { dedup_persistent: false, ..StorageSettings::default() };
    let mut cache = Cache::new(&memory);
    assert!(!cache.mark_processed(key(1), 1));
    assert_eq!(cache.pending_writes_len(), 0);
    assert!(!cache.should_start_task(1_000, false));
}

#[test]
fn a_failing_store_is_given_up() {
    let mut cache = Cache::new(&StorageSettings::default());
    let mut now = 1_000;
    for attempt in 1..FLUSH_FAILURE_THRESHOLD {
        cache.mark_processed(key(attempt as u64), now);
        let writes = cache.flush(now).expect("due");
        assert_eq!(writes.len(), attempt);
        assert_eq!(cache.handle_flush_failure(writes, now), None);
        let wait = compute_backoff_secs(attempt);
        assert_eq!(cache.backoff_until, now + wait);
        assert!(cache.flush(now + wait - 1).is_none());
        now += wait;
    }
    let writes = cache.flush(now).expect("due");
    cache.mark_processed(key(77), now);
    assert_eq!(cache.handle_flush_failure(writes, now), Some(FLUSH_FAILURE_THRESHOLD));
    assert!(cache.persistence_disabled);
    assert!(!cache.mark_processed(key(78), now));
    assert!(cache.flush(u64::MAX).is_none());

    let mut good = Cache::new(&StorageSettings::default());
    good.mark_processed(key(1), 1);
    let writes = good.flush(1).expect("due");
    good.handle_flush_failure(writes, 1);
    good.flush_succeeded();
    assert_eq!(good.flush_failures, 0);
    assert_eq!(good.backoff_until, 0);
    assert!(good.should_start_task(1_000, false));
    assert!(!good.should_start_task(1_000, true));
    assert!(!good.should_start_task(0, false));
}

#[test]
fn the_oldest_writes_leave_a_full_queue() {
    let mut cache = Cache::new(&StorageSettings::default());
    for n in 0..600u64 {
        cache.mark_processed(key(n), n);
    }
    assert_eq!(cache.pending_writes_len(), 500);
    assert_eq!(cache.flush(600).unwrap()[0].key, key(100));
}

#[test]
fn waits_double_up_to_a_bound() {
    let waits: Vec<u64> = (0..=12).map(compute_backoff_secs).collect();
    assert_eq!(waits, [1, 1, 2, 4, 8, 16, 32, 64, 128, 256, 256, 256, 256]);
}

#[test]
fn stored_rows_are_sorted_by_age() {
    let row = |n: u64, timestamp: u64| StoredRow { key: key(n).to_bytes(), timestamp };
    let rows = vec![
        row(1, 100),
        row(2, 10),
        StoredRow { key: vec![1, 2], timestamp: 100 },
        row(3, 20),
        row(4, 5),
    ];
    let loaded = load_from_db(&rows, 110, 50);
    assert_eq!(loaded.keys, vec![key(1)]);
    assert_eq!(loaded.expired, vec![1, 3, 4]);
    assert_eq!(prune_expired(&rows, 110, 50, 2), vec![1, 3]);
    assert_eq!(prune_expired(&rows, 110, 50, 0), vec![1]);
    assert_eq!(prune_expired(&rows, 110, 50, 9), vec![1, 3, 4]);
}

#[test]
fn corrupt_stores_are_moved_aside_once() {
    assert_eq!(open_or_rotate_corrupt_store(false, Ok(())), OpenAction::Ready);
    assert_eq!(
        open_or_rotate_corrupt_store(false, Err(StoreFailure::Corrupted)),
        OpenAction::Rotate
    );
    assert_eq!(
        open_or_rotate_corrupt_store(false, Err(StoreFailure::Other)),
        OpenAction::Fail
    );
    assert_eq!(
        open_or_rotate_corrupt_store(true, Err(StoreFailure::Corrupted)),
        OpenAction::FailAfterRotation
    );
    assert!(is_corruption_error(StoreFailure::InvalidData));
    assert!(!is_corruption_error(StoreFailure::Other));
    assert_eq!(corrupt_store_name("a.redb", 12, 0), "a.redb.corrupt.12");
    assert_eq!(corrupt_store_name("a.redb", 12, 3), "a.redb.corrupt.12.3");
    assert_eq!(next_corrupt_store_path(7, false), NameSearch::Use);
    assert_eq!(next_corrupt_store_path(7, true), NameSearch::Try { attempt: 8 });
    assert_eq!(next_corrupt_store_path(u16::MAX, true), NameSearch::Exhausted);
    assert_eq!(
        recreate_context("dedup", "p"),
        "failed to recreate dedup redb store after rotating p"
    );
    assert_eq!(rotate_context("p", "q"), "failed to rotate corrupt redb store p to q");
    assert_eq!(no_file_name_error("/"), "redb store path / has no file name to rotate");
    assert_eq!(
        no_free_name_error("p"),
        "failed to allocate unique corrupt-store path for p"
    );
}

#[test]
fn one_flush_task_runs_at_a_time() {
    let mut worker = FlushWorker::new();
    assert!(!worker.start(0));
    assert!(!worker.schedule());
    assert!(worker.start(1_000));
    assert!(!worker.start(1_000));
    assert!(worker.schedule());
    assert!(worker.stop());
    assert!(!worker.stop());
    assert_eq!(
        FlushWorker::on_signal(WorkerSignal::CancelChanged { cancelled: true }),
        WorkerAction::Stop
    );
    assert_eq!(
        FlushWorker::on_signal(WorkerSignal::CancelChanged { cancelled: false }),
        WorkerAction::Wait
    );
    assert_eq!(FlushWorker::on_signal(WorkerSignal::Tick), WorkerAction::Flush);
    assert_eq!(FlushWorker::on_signal(WorkerSignal::Wake), WorkerAction::Flush);
}

#[test]
fn only_stale_entries_are_removed() {
    let ms: u128 = 1_000_000;
    let mut cleanup = StaleTempCleanup::new();
    let old = EntryFacts::Dated { age_nanos: Some(40 * ms), is_dir: false };
    let new = EntryFacts::Dated { age_nanos: Some(1 * ms), is_dir: false };
    assert_eq!(cleanup.scan(old, 20 * ms), EntryAction::RemoveFile);
    cleanup.removed("old.tmp".to_string(), true);
    assert_eq!(cleanup.scan(new, 20 * ms), EntryAction::Keep);
    assert_eq!(
        cleanup.scan(EntryFacts::Dated { age_nanos: Some(41 * ms), is_dir: true }, 20 * ms),
        EntryAction::RemoveDir
    );
    cleanup.removed("busy".to_string(), false);
    assert_eq!(cleanup.scan(EntryFacts::Undated, 0), EntryAction::Keep);
    assert_eq!(cleanup.removed_paths, vec!["old.tmp".to_string()]);
    assert_eq!(cleanup.removed_entries(), 1);
}

#[test]
fn guards_remove_what_cannot_be_queued() {
    assert_eq!(guard_action(false, QueueOutcome::Queued), GuardAction::Nothing);
    assert_eq!(guard_action(false, QueueOutcome::Full), GuardAction::RemoveNow);
    assert_eq!(guard_action(false, QueueOutcome::Closed), GuardAction::RemoveNow);
    assert_eq!(guard_action(true, QueueOutcome::Full), GuardAction::Nothing);
    assert_eq!(remove_path_sync(Ok(())), RemoveNext::Done);
    assert_eq!(remove_path_sync(Err(RemoveFailure::NotFound)), RemoveNext::Done);
    assert_eq!(remove_path_async(Err(RemoveFailure::IsDirectory)), RemoveNext::RemoveDir);
    assert_eq!(drain_remaining_ms(1_000), Some(4_000));
    assert_eq!(drain_remaining_ms(6_000), None);
}
