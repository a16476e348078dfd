//! Uploads and the worker.

use azalea::bot::ids::MessageId;
use azalea::bot::job::Error;
use azalea::bot::responder::ErrorAction;
use azalea::bot::upload::{
    attachment_filename, attachment_payload_bytes, batch_request_count, build_attachment,
    build_attachment_from_path, checked_preallocation_len, exponential_backoff,
    file_size_checked_from_metadata, jitter_millis_for_seed, part_progress, retry_delay,
    should_batch_upload, AttachmentSource, BatchPreparation, Metrics, RequestParts, RequestTimings,
    SendAttempts, SendFailure, UploadRun,
};
use azalea::bot::worker::{
    after_upload, error_kind, is_hwacc_error, is_timeout_error, job_is_slow, max_concurrency,
    shutdown_steps, step_timeout_secs, success_cleanup, upload_is_slow, JobAction, JobFlow,
    JobPhase, MarkerAction, QueueDepth, ShutdownStep, WorkerDiagnostics, WorkerSlots,
};
use azalea::config::{EngineSettings, StorageSettings};
use azalea::media::url::TweetId;
use azalea::pipeline::errors::{Error as CoreError, TranscodeStage};
use azalea::pipeline::types::{PreparedPart, Progress};
use azalea::storage::metrics::Tracker;

fn prepared_part(path: &str, size: u64) -> PreparedPart {
    PreparedPart::new(path.to_string(), size)
}

#[test]
fn exponential_backoff_grows_and_caps() {
    for seed in 0..64 {
        let a = exponential_backoff(0, 500, 2_000, seed);
        let b = exponential_backoff(1, 500, 2_000, seed);
        let c = exponential_backoff(8, 500, 2_000, seed);

        assert!(b >= a);
        assert!(c <= 2_249);
    }
}

#[test]
fn exponential_backoff_max_delay_is_bounded_for_all_attempts() {
    const BASE_MS: u64 = 500;
    const MAX_MS: u64 = 2_000;
    const JITTER_MAX_MS: u64 = 250;

    for attempt in 0..=64usize {
        let capped = BASE_MS.saturating_mul(1u64 << (attempt.min(8) as u32)).min(MAX_MS);
        let expected_max = capped + (JITTER_MAX_MS - 1);
        for seed in 0..32 {
            let delay = exponential_backoff(attempt, BASE_MS, MAX_MS, seed);
            assert!(
                delay <= expected_max,
                "attempt {attempt} exceeded max: delay={delay}ms expected_max={expected_max}ms"
            );
            assert!(delay >= capped);
        }
    }
}

#[test]
fn exponential_backoff_saturates_without_overflow_for_large_attempts() {
    for attempt in [1_024, 1 << 20, usize::MAX - 1, usize::MAX] {
        for seed in 0..8 {
            assert_eq!(exponential_backoff(attempt, u64::MAX, u64::MAX, seed), u64::MAX);
        }
    }
}

#[test]
fn jitter_seed_stays_within_requested_bound() {
    const SEED_LIMIT: u64 = u16::MAX as u64;

    for max_ms in [1, 2, 3, 7, 250, 1_024, u16::MAX as u64 + 1] {
        for seed in 0..=SEED_LIMIT {
            let jitter = jitter_millis_for_seed(max_ms, seed);
            assert!(
                jitter < max_ms,
                "seed {seed} exceeded bound: jitter={jitter} max_ms={max_ms}"
            );
        }
    }

    for seed in 0..=SEED_LIMIT {
        assert_eq!(jitter_millis_for_seed(0, seed), 0);
    }
}

#[test]
fn jitter_is_mixed_from_its_seed() {
    assert_eq!(jitter_millis_for_seed(u64::MAX, 0), 0xe220_a839_7b1d_cdaf);
    assert_eq!(jitter_millis_for_seed(250, 0), 0xe220_a839_7b1d_cdaf % 250);
}

#[test]
fn file_size_checked_oversized_file_is_rejected() {
    let mut config = EngineSettings::default();
    config.transcode.max_upload_bytes = 4;

    let part = prepared_part("oversized-size-check", 8);
    let result = file_size_checked_from_metadata(
        part.size(),
        config.transcode.max_upload_bytes,
        1,
        1,
    );

    let rendered = result.as_ref().err().map(|e| e.message());
    assert!(matches!(result, Err(Error::UploadFailed { part: 1, total: 1, .. })));
    assert!(rendered.as_deref().is_some_and(|message| message.contains("file too large")));
}

#[test]
fn file_size_checked_normal_file_returns_size() {
    let payload = b"normal-file";
    let mut config = EngineSettings::default();
    config.transcode.max_upload_bytes = payload.len() as u64 + 1;

    let part = prepared_part("normal-size-check", payload.len() as u64);
    let result = file_size_checked_from_metadata(
        part.size(),
        config.transcode.max_upload_bytes,
        1,
        1,
    );

    assert_eq!(result.ok(), Some(payload.len() as u64));
}

#[test]
fn read_file_preallocated_oversized_size_is_rejected() {
    let result = checked_preallocation_len((isize::MAX as u64).saturating_add(1));
    assert!(matches!(
        result,
        Err(ref err) if err.message == "file size exceeds addressable memory"
    ));
    assert!(matches!(checked_preallocation_len(isize::MAX as u64), Ok(n) if n == isize::MAX as usize));
}

#[test]
fn build_attachments_assigns_split_filenames_and_unique_ids() {
    let mut config = EngineSettings::default();
    config.transcode.max_upload_bytes = 1024;
    let parts = vec![prepared_part("batch-1", 8), prepared_part("batch-2", 8)];

    let mut preparation =
        BatchPreparation::new(parts.len(), config.pipeline.attachment_prepare_concurrency);
    let first = preparation.start_next().expect("first slot");
    let second = preparation.start_next().expect("second slot");
    assert_eq!(preparation.start_next(), None);
    assert!(preparation.result(0, parts.len()).is_err());
    preparation.finished(second);
    preparation.finished(first);
    assert!(preparation.result(0, parts.len()).is_ok());

    assert_eq!(attachment_filename(None, TweetId(42), first + 1, 2), "tweet_42_part1.mp4");
    assert_eq!(attachment_filename(None, TweetId(42), second + 1, 2), "tweet_42_part2.mp4");
    assert_eq!(first, 0);
    assert_eq!(second, 1);
    for part in &parts {
        assert!(matches!(
            build_attachment_from_path(part.size(), config.transcode.max_upload_bytes, 1, 2),
            Ok(AttachmentSource::File { size: 8 })
        ));
    }
    assert_eq!(attachment_payload_bytes(&[8, 8]), 16);
    assert_eq!(attachment_payload_bytes(&[]), 0);
}

#[test]
fn build_attachment_uses_in_memory_payload_without_reopening_file() {
    let payload = b"in-memory-upload";
    let config = EngineSettings::default();
    let part = PreparedPart::with_upload_ready_bytes(
        "missing-upload-fast-path.mp4".to_string(),
        payload.len() as u64,
        payload.to_vec(),
    );

    assert!(matches!(
        build_attachment(&part, config.transcode.max_upload_bytes, 1, 1),
        Ok(AttachmentSource::Memory)
    ));
    assert_eq!(attachment_filename(Some("mp4"), TweetId(7), 1, 1), "tweet_7.mp4");

    let short = PreparedPart::with_upload_ready_bytes("p".to_string(), 3, vec![0; 2]);
    match build_attachment(&short, 10, 1, 1) {
        Err(error) => assert_eq!(
            error.message(),
            "upload failed (1/1): in-memory upload payload size mismatch"
        ),
        Ok(source) => panic!("a wrong size should be refused: {source:?}"),
    }
}

#[test]
fn batch_request_count_uses_discord_attachment_limit() {
    assert_eq!(batch_request_count(1), 1);
    assert_eq!(batch_request_count(10), 1);
    assert_eq!(batch_request_count(11), 2);
    assert_eq!(batch_request_count(20), 2);
    assert_eq!(batch_request_count(21), 3);
}

#[test]
fn batch_upload_only_applies_to_multi_part_uploads() {
    let mut config = EngineSettings::default();
    config.pipeline.batch_upload_multiple_media = true;

    let first = prepared_part("batch-toggle-1", 1);
    let second = prepared_part("batch-toggle-2", 1);

    assert!(!should_batch_upload(std::slice::from_ref(&first), &config));
    assert!(should_batch_upload(&[first, second], &config));
}

fn timings(ms: u64) -> RequestTimings {
    RequestTimings { prepare_ms: ms, send_ms: 2 * ms, parse_ms: ms, cleanup_ms: ms, payload_bytes: 9 }
}

fn run_of(parts: usize, batch: bool) -> UploadRun {
    let mut config = EngineSettings::default();
    config.pipeline.batch_upload_multiple_media = batch;
    let parts: Vec<PreparedPart> = (0..parts).map(|i| prepared_part(&format!("{i}"), 1)).collect();
    UploadRun::begin(&parts, &config).expect("there are files")
}

#[test]
fn uploads_send_every_file_in_order() {
    let mut run = run_of(21, true);
    let mut seen = Vec::new();
    while let Some(parts) = run.next_request() {
        seen.push((parts.start, parts.end));
        run.request_done(parts, MessageId(parts.start as u64 + 100), &timings(1));
    }
    assert_eq!(seen, [(0, 10), (10, 20), (20, 21)]);
    let outcome = run.finish().expect("messages were sent");
    assert_eq!(outcome.first_message_id, MessageId(100));
    assert_eq!(outcome.messages_sent, batch_request_count(21));
    assert_eq!(run.metrics.request_count, 3);
    assert_eq!(run.metrics.payload_bytes, 27);
    assert_eq!(run.metrics.total_duration_ms(), 15);
    assert_eq!(run.metrics.slowest_stage(), ("http_send", 6));

    let mut single = run_of(2, false);
    assert_eq!(single.next_request(), Some(RequestParts { start: 0, end: 1 }));
    match single.finish() {
        Err(error) => {
            assert_eq!(error.message(), "upload failed (0/2): upload produced no messages")
        }
        Ok(outcome) => panic!("nothing was sent: {outcome:?}"),
    }
    single.request_done(RequestParts { start: 0, end: 1 }, MessageId(5), &timings(0));
    assert_eq!(
        single.request_failed(RequestParts { start: 1, end: 2 }, "gone".to_string()).message(),
        "upload failed (2/2): gone"
    );
    match UploadRun::begin(&[], &EngineSettings::default()) {
        Err(error) => {
            assert_eq!(error.message(), "upload failed (0/0): no upload files provided")
        }
        Ok(run) => panic!("nothing to send: {run:?}"),
    }
    assert_eq!(part_progress(2, 3), Progress::UploadingSegment(2, 3));
    assert_eq!(part_progress(1, 1), Progress::Uploading);
}

#[test]
fn the_later_of_equal_stages_is_slowest() {
    assert_eq!(Metrics::default().slowest_stage(), ("post_upload_cleanup", 0));
    let metrics = Metrics { attachment_prepare_ms: u64::MAX, http_send_ms: 1, ..Metrics::default() };
    assert_eq!(metrics.total_duration_ms(), u64::MAX);
    assert_eq!(metrics.slowest_stage(), ("attachment_preparation", u64::MAX));
}

#[test]
fn preparations_are_bounded() {
    let mut preparation = BatchPreparation::new(3, 2);
    assert_eq!(preparation.start_next(), Some(0));
    assert_eq!(preparation.start_next(), Some(1));
    assert_eq!(preparation.start_next(), None);
    preparation.finished(1);
    assert_eq!(preparation.start_next(), Some(2));
    preparation.finished(2);
    match preparation.result(10, 13) {
        Err(error) => assert_eq!(
            error.message(),
            "upload failed (11/13): attachment preparation produced incomplete batch"
        ),
        Ok(()) => panic!("the first slot is empty"),
    }
    preparation.finished(0);
    assert!(preparation.result(10, 13).is_ok());
    assert!(BatchPreparation::new(2, 0).result(0, 2).is_err());
}

#[test]
fn only_passing_failures_are_retried() {
    let status = |status: u16| SendFailure::Status { status, retry_after_nanos: None };
    let ms = |attempt, base, max, seed| {
        Some(exponential_backoff(attempt, base, max, seed) as u128 * 1_000_000)
    };
    assert_eq!(retry_delay(1, SendFailure::Connection, 3), ms(1, 500, 8_000, 3));
    assert_eq!(retry_delay(2, status(503), 3), ms(2, 500, 8_000, 3));
    assert_eq!(retry_delay(0, status(429), 3), ms(0, 1_000, 15_000, 3));
    assert_eq!(retry_delay(0, status(404), 3), None);
    assert_eq!(retry_delay(0, SendFailure::Other, 3), None);
    assert_eq!(
        retry_delay(0, SendFailure::Status { status: 429, retry_after_nanos: Some(7) }, 3),
        Some(7 + jitter_millis_for_seed(250, 3) as u128 * 1_000_000)
    );
    let mut attempts = SendAttempts::new();
    for _ in 0..3 {
        assert!(attempts.on_failure(SendFailure::Connection, 1).is_some());
    }
    assert_eq!(attempts.on_failure(SendFailure::Connection, 1), None);
}

fn timeout() -> Error {
    Error::Core(CoreError::Timeout { operation: "ffmpeg", duration_ms: 5 })
}

fn encode_failure(stderr: &str) -> Error {
    Error::Core(CoreError::TranscodeFailed {
        stage: TranscodeStage::Transcode,
        exit_code: Some(1),
        stderr_tail: stderr.to_string(),
    })
}

#[test]
fn jobs_are_counted_once() {
    let mut diagnostics = WorkerDiagnostics::new();
    diagnostics.record_success();
    diagnostics.record_failure(&timeout());
    diagnostics.record_failure(&encode_failure("Cannot load CUDA"));
    assert_eq!(
        diagnostics,
        WorkerDiagnostics { completed_jobs: 3, failed_jobs: 2, timeout_jobs: 1, hwacc_failures: 1 }
    );
    assert!(is_timeout_error(&timeout()));
    assert!(!is_timeout_error(&encode_failure("")));
    assert!(is_hwacc_error(&encode_failure("no VAAPI device")));
    assert!(!is_hwacc_error(&encode_failure("bad input")));
    assert_eq!(error_kind(&timeout()), "timeout");
    assert_eq!(error_kind(&encode_failure("")), "transcode_failed");
    assert_eq!(error_kind(&Error::Core(CoreError::Duplicate)), "duplicate");
    assert_eq!(
        error_kind(&Error::DiscordApi { operation: "x", source: String::new() }),
        "discord_api"
    );
}

#[test]
fn a_job_goes_from_announcement_to_cleanup() {
    let mut metrics = Tracker::new(&StorageSettings::default());
    let mut diagnostics = WorkerDiagnostics::new();
    let mut job = JobFlow::new(Some(MessageId(1)));
    assert!(matches!(job.announced(Some(MessageId(2))), JobAction::RunPipeline));
    assert!(matches!(job.pipeline_ended(None, &mut diagnostics), JobAction::Upload));
    match job.upload_ended(Ok(40), &mut metrics, &mut diagnostics) {
        JobAction::Succeed { cleanup } => {
            assert_eq!(cleanup, success_cleanup(Some(MessageId(1)), Some(MessageId(2))))
        }
        other => panic!("unexpected action: {other:?}"),
    }
    assert_eq!(job.phase, JobPhase::Over);
    assert_eq!(metrics.snapshot().totals.successes, 1);
    assert_eq!(metrics.snapshot().stage_window.avg_ms, [0, 0, 0, 40]);
    assert_eq!(diagnostics.completed_jobs, 1);
}

#[test]
fn failed_jobs_clear_what_the_pipeline_has_not() {
    let mut metrics = Tracker::new(&StorageSettings::default());
    let mut diagnostics = WorkerDiagnostics::new();
    let mut job = JobFlow::new(None);
    job.announced(None);
    assert!(matches!(
        job.pipeline_ended(Some(timeout()), &mut diagnostics),
        JobAction::Fail { clear_marker: false, reply: ErrorAction::NewMessage { .. } }
    ));
    assert_eq!(metrics.snapshot().totals.total_runs, 0);

    let mut job = JobFlow::new(None);
    job.announced(Some(MessageId(3)));
    job.pipeline_ended(None, &mut diagnostics);
    let error = Error::UploadFailed { part: 1, total: 1, source: "boom".to_string() };
    assert!(matches!(
        job.upload_ended(Err(error), &mut metrics, &mut diagnostics),
        JobAction::Fail { clear_marker: true, reply: ErrorAction::EditStatus { .. } }
    ));
    assert_eq!(metrics.snapshot().totals.failures, 1);
    assert_eq!(metrics.errors.count("upload_failed"), 1);
    assert_eq!(diagnostics.failed_jobs, 2);
    assert_eq!(after_upload(&mut metrics, Ok(1)), MarkerAction::MarkProcessed);
    assert_eq!(after_upload(&mut metrics, Err(())), MarkerAction::Clear);
}

#[test]
fn workers_take_no_more_than_they_may() {
    let mut slots = WorkerSlots::new(2);
    slots.started();
    assert!(!slots.is_full());
    slots.started();
    assert!(slots.is_full());
    slots.ended();
    assert_eq!(slots.running, 1);
    assert_eq!(WorkerSlots::new(0).limit, 1);
    assert_eq!(max_concurrency(0), 1);
    assert_eq!(max_concurrency(8), 8);
    let mut depth = QueueDepth::new();
    depth.leave();
    assert_eq!(depth.jobs, 0);
    for _ in 0..80 {
        assert!(!depth.is_deep());
        depth.enter();
    }
    assert!(depth.is_deep());
    assert!(upload_is_slow(20_001));
    assert!(!upload_is_slow(20_000));
    assert!(job_is_slow(45_001));
    assert!(!job_is_slow(45_000));
}

#[test]
fn shutdown_stops_writers_before_the_last_flush() {
    assert_eq!(
        shutdown_steps(),
        [
            ShutdownStep::StopMetricsFlush,
            ShutdownStep::StopDedupFlush,
            ShutdownStep::StopDedupMaintenance,
            ShutdownStep::StopTempCleanup,
            ShutdownStep::FlushDedup,
            ShutdownStep::FlushMetrics,
        ]
    );
    assert_eq!(step_timeout_secs(true), Some(5));
    assert_eq!(step_timeout_secs(false), None);
}
