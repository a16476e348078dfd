//! The worker that runs jobs, and what a job leaves in counters and markers.

use crate::bot::ids::MessageId;
use crate::bot::job::Error;
use crate::bot::responder::{send_error, ErrorAction};
use crate::pipeline::errors::Error as CoreError;
use crate::pipeline::optimize::{mentions_acceleration, names_acceleration};
use crate::storage::metrics::{plus, plus_one, with_error, Stage, Tracker};
use vstd::prelude::*;

verus! {

pub const JOB_QUEUE_CAPACITY: usize = 100;

pub const JOB_DURATION_WARN_MS: u64 = 45_000;

pub const UPLOAD_DURATION_WARN_MS: u64 = 20_000;

pub const QUEUE_DEPTH_WARN_THRESHOLD: usize = 80;

pub const PROGRESS_UPDATE_DEBOUNCE_MS: u64 = 3_000;

pub const METRICS_FLUSH_INTERVAL_SECS: u64 = 60;

pub const DEDUP_PRUNE_INTERVAL_SECS: u64 = 21_600;

pub const DEDUP_PRUNE_BATCH_SIZE: usize = 500;

pub const SHUTDOWN_STEP_TIMEOUT_SECS: u64 = 5;

pub const TEMP_PRUNE_INTERVAL_SECS: u64 = 1_800;

pub const TEMP_PRUNE_MAX_AGE_SECS: u64 = 3_600;

/// How many jobs wait or run.
#[derive(Debug, Clone, Copy, PartialEq, Eq, Structural)]
pub struct QueueDepth {
    pub jobs: usize,
}

impl QueueDepth {
    pub fn new() -> (r: Self)
        ensures
            r.jobs == 0,
    {
        QueueDepth { jobs: 0 }
    }

    /// A job was queued; the count wraps around.
    pub fn enter(&mut self)
        ensures
            final(self).jobs == (if old(self).jobs == usize::MAX {
                0
            } else {
                (old(self).jobs + 1) as usize
            }),
    {
        self.jobs = self.jobs.wrapping_add(1);
    }

    /// A job is over; the count never goes below zero.
    pub fn leave(&mut self)
        ensures
            final(self).jobs == (if old(self).jobs == 0 {
                0
            } else {
                (old(self).jobs - 1) as usize
            }),
    {
        self.jobs = self.jobs.saturating_sub(1);
    }

    /// Whether the queue is close to its capacity.
    pub fn is_deep(&self) -> (r: bool)
        ensures
            r == (self.jobs >= QUEUE_DEPTH_WARN_THRESHOLD),
    {
        self.jobs >= QUEUE_DEPTH_WARN_THRESHOLD
    }
}

/// The number of jobs that may run at once.
pub fn max_concurrency(configured: u32) -> (r: u32)
    ensures
        r == (if configured == 0 {
            1
        } else {
            configured
        }),
{
    if configured == 0 {
        1
    } else {
        configured
    }
}

/// Whether the error is a timeout.
pub open spec fn timed_out(error: Error) -> bool {
    error matches Error::Core(CoreError::Timeout { .. })
}

pub fn is_timeout_error(error: &Error) -> (r: bool)
    ensures
        r == timed_out(*error),
{
    match error {
        Error::Core(CoreError::Timeout { .. }) => true,
        _ => false,
    }
}

/// Whether an encode failed that speaks of an accelerator.
pub open spec fn blames_acceleration(error: Error) -> bool {
    error matches Error::Core(CoreError::TranscodeFailed { stderr_tail, .. }) && names_acceleration(
        stderr_tail@,
    )
}

pub fn is_hwacc_error(error: &Error) -> (r: bool)
    ensures
        r == blames_acceleration(*error),
{
    match error {
        Error::Core(CoreError::TranscodeFailed { stderr_tail, .. }) => mentions_acceleration(
            stderr_tail.as_str(),
        ),
        _ => false,
    }
}

/// The name of an error in the log.
pub open spec fn error_kind_name(error: Error) -> Seq<char> {
    match error {
        Error::Core(CoreError::TranscodeFailed { .. }) => "transcode_failed"@,
        Error::Core(CoreError::Timeout { .. }) => "timeout"@,
        Error::Core(CoreError::ResolveFailed { .. }) => "resolve_failed"@,
        Error::Core(CoreError::DownloadFailed { .. }) => "download_failed"@,
        Error::Core(CoreError::DiskSpace { .. }) => "disk_space"@,
        Error::Core(CoreError::Duplicate) => "duplicate"@,
        Error::Core(CoreError::Io(_)) => "io"@,
        Error::UploadFailed { .. } => "upload_failed"@,
        Error::DiscordApi { .. } => "discord_api"@,
    }
}

pub fn error_kind(error: &Error) -> (s: &'static str)
    ensures
        s@ == error_kind_name(*error),
{
    match error {
        Error::Core(core_error) => match core_error {
            CoreError::TranscodeFailed { .. } => "transcode_failed",
            CoreError::Timeout { .. } => "timeout",
            CoreError::ResolveFailed { .. } => "resolve_failed",
            CoreError::DownloadFailed { .. } => "download_failed",
            CoreError::DiskSpace { .. } => "disk_space",
            CoreError::Duplicate => "duplicate",
            CoreError::Io(_) => "io",
        },
        Error::UploadFailed { .. } => "upload_failed",
        Error::DiscordApi { .. } => "discord_api",
    }
}

/// Counts of the worker over its life; they wrap around.
#[derive(Debug, Clone, Copy, PartialEq, Eq, Structural)]
pub struct WorkerDiagnostics {
    pub completed_jobs: u64,
    pub failed_jobs: u64,
    pub timeout_jobs: u64,
    pub hwacc_failures: u64,
}

impl WorkerDiagnostics {
    pub fn new() -> (r: Self)
        ensures
            r == (WorkerDiagnostics {
                completed_jobs: 0,
                failed_jobs: 0,
                timeout_jobs: 0,
                hwacc_failures: 0,
            }),
    {
        WorkerDiagnostics {
            completed_jobs: 0,
            failed_jobs: 0,
            timeout_jobs: 0,
            hwacc_failures: 0,
        }
    }

    pub open spec fn after_success(self) -> Self {
        WorkerDiagnostics { completed_jobs: plus_one(self.completed_jobs), ..self }
    }

    pub open spec fn after_failure(self, error: Error) -> Self {
        WorkerDiagnostics {
            completed_jobs: plus_one(self.completed_jobs),
            failed_jobs: plus_one(self.failed_jobs),
            timeout_jobs: if timed_out(error) {
                plus_one(self.timeout_jobs)
            } else {
                self.timeout_jobs
            },
            hwacc_failures: if blames_acceleration(error) {
                plus_one(self.hwacc_failures)
            } else {
                self.hwacc_failures
            },
        }
    }

    /// A job worked.
    pub fn record_success(&mut self)
        ensures
            *final(self) == old(self).after_success(),
    {
        self.completed_jobs = self.completed_jobs.wrapping_add(1);
    }

    /// A job failed; it is completed too.
    pub fn record_failure(&mut self, error: &Error)
        ensures
            *final(self) == old(self).after_failure(*error),
    {
        self.completed_jobs = self.completed_jobs.wrapping_add(1);
        self.failed_jobs = self.failed_jobs.wrapping_add(1);
        if is_timeout_error(error) {
            self.timeout_jobs = self.timeout_jobs.wrapping_add(1);
        }
        if is_hwacc_error(error) {
            self.hwacc_failures = self.hwacc_failures.wrapping_add(1);
        }
    }
}

/// What becomes of the marker of a request after its upload.
#[derive(Debug, Clone, Copy, PartialEq, Eq, Structural)]
pub enum MarkerAction {
    /// The request is done: remember it as processed.
    MarkProcessed,
    /// Clear the marker so that the request can be made again.
    Clear,
}

/// What an upload leaves in the counters: one that worked, after so many
/// milliseconds, or one that failed.
pub open spec fn upload_counted(before: Tracker, after: Tracker, elapsed_ms: Option<u64>) -> bool {
    &&& after.enabled == before.enabled
    &&& !before.enabled ==> {
        &&& after.total_runs == before.total_runs
        &&& after.successes == before.successes
        &&& after.failures == before.failures
        &&& after.errors@ == before.errors@
        &&& after.stage_count@ == before.stage_count@
        &&& after.stage_sum_ms@ == before.stage_sum_ms@
    }
    &&& before.enabled ==> after.total_runs == plus_one(before.total_runs) && match elapsed_ms {
        Some(ms) => {
            &&& after.successes == plus_one(before.successes)
            &&& after.failures == before.failures
            &&& after.errors@ == before.errors@
            &&& after.stage_count@ == before.stage_count@.update(
                3,
                plus_one(before.stage_count@[3]),
            )
            &&& after.stage_sum_ms@ == before.stage_sum_ms@.update(
                3,
                plus(before.stage_sum_ms@[3], ms) as u64,
            )
        },
        None => {
            &&& after.successes == before.successes
            &&& after.failures == plus_one(before.failures)
            &&& after.errors@ == with_error(before.errors@, "upload_failed"@)
            &&& after.stage_count@ == before.stage_count@
            &&& after.stage_sum_ms@ == before.stage_sum_ms@
        },
    }
}

/// Count the outcome of an upload and decide on the marker. `Ok` holds how
/// many milliseconds it took.
pub fn after_upload(metrics: &mut Tracker, outcome: Result<u64, ()>) -> (action: MarkerAction)
    ensures
        action == (match outcome {
            Ok(_) => MarkerAction::MarkProcessed,
            Err(_) => MarkerAction::Clear,
        }),
        old(metrics).balanced() ==> final(metrics).balanced(),
        upload_counted(
            *old(metrics),
            *final(metrics),
            match outcome {
                Ok(elapsed_ms) => Some(elapsed_ms),
                Err(_) => None,
            },
        ),
{
    match outcome {
        Ok(elapsed_ms) => {
            metrics.record_stage_duration(Stage::Upload, elapsed_ms);
            metrics.record_success();
            MarkerAction::MarkProcessed
        },
        Err(_) => {
            let _ = metrics.record_error("upload_failed");
            metrics.record_failure();
            MarkerAction::Clear
        },
    }
}

/// Whether an upload took longer than expected.
pub fn upload_is_slow(elapsed_ms: u64) -> (r: bool)
    ensures
        r == (elapsed_ms > UPLOAD_DURATION_WARN_MS),
{
    elapsed_ms > UPLOAD_DURATION_WARN_MS
}

/// Whether a job took longer than expected.
pub fn job_is_slow(elapsed_ms: u64) -> (r: bool)
    ensures
        r == (elapsed_ms > JOB_DURATION_WARN_MS),
{
    elapsed_ms > JOB_DURATION_WARN_MS
}

/// What is tidied up after a job that worked.
#[derive(Debug, Clone, Copy, PartialEq, Eq, Structural)]
pub struct SuccessCleanup {
    pub delete_original: Option<MessageId>,
    pub delete_status: Option<MessageId>,
}

/// The message that asked and the status message go.
pub fn success_cleanup(source: Option<MessageId>, status: Option<MessageId>) -> (r: SuccessCleanup)
    ensures
        r == (SuccessCleanup { delete_original: source, delete_status: status }),
{
    SuccessCleanup { delete_original: source, delete_status: status }
}

/// The places of a worker: so many jobs run at once.
#[derive(Debug, Clone, Copy, PartialEq, Eq, Structural)]
pub struct WorkerSlots {
    pub running: usize,
    pub limit: usize,
}

impl WorkerSlots {
    /// No more jobs run than are allowed.
    pub open spec fn wf(&self) -> bool {
        self.limit >= 1 && self.running <= self.limit
    }

    pub fn new(configured: u32) -> (r: Self)
        ensures
            r.wf(),
            r.running == 0,
            r.limit == (if configured == 0 {
                1
            } else {
                configured as int
            }),
    {
        WorkerSlots { running: 0, limit: max_concurrency(configured) as usize }
    }

    /// Whether a job has to end before the next one is taken.
    pub fn is_full(&self) -> (r: bool)
        ensures
            r == (self.running >= self.limit),
    {
        self.running >= self.limit
    }

    /// A job was started.
    pub fn started(&mut self)
        requires
            old(self).wf(),
            old(self).running < old(self).limit,
        ensures
            final(self).wf(),
            final(self).running == old(self).running + 1,
            final(self).limit == old(self).limit,
    {
        self.running = self.running + 1;
    }

    /// A job is over.
    pub fn ended(&mut self)
        requires
            old(self).wf(),
            old(self).running > 0,
        ensures
            final(self).wf(),
            final(self).running == old(self).running - 1,
            final(self).limit == old(self).limit,
    {
        self.running = self.running - 1;
    }
}

/// How far a job has come.
#[derive(Debug, Clone, Copy, PartialEq, Eq, Structural)]
pub enum JobPhase {
    Announcing,
    InPipeline,
    Uploading,
    Over,
}

/// What to do next for a job.
#[derive(Debug)]
pub enum JobAction {
    RunPipeline,
    Upload,
    /// Remember the request as processed and tidy up.
    Succeed { cleanup: SuccessCleanup },
    /// Clear the marker where the pipeline has not done so, and tell the user.
    Fail { clear_marker: bool, reply: ErrorAction },
}

/// One job of the worker.
#[derive(Debug, Clone, Copy, PartialEq, Eq, Structural)]
pub struct JobFlow {
    pub source: Option<MessageId>,
    pub status: Option<MessageId>,
    pub phase: JobPhase,
}

/// The reply to a failed job.
pub open spec fn is_reply(error: Error, has_status: bool, reply: ErrorAction) -> bool {
    if !error.is_told() {
        if has_status {
            reply is DeleteStatus
        } else {
            reply is Nothing
        }
    } else if has_status {
        reply matches ErrorAction::EditStatus { content } && content@ == error.user_text()
    } else {
        reply matches ErrorAction::NewMessage { content } && content@ == error.user_text()
    }
}

impl JobFlow {
    /// A job begins by announcing itself.
    pub fn new(source: Option<MessageId>) -> (r: Self)
        ensures
            r == (JobFlow { source, status: None, phase: JobPhase::Announcing }),
    {
        JobFlow { source, status: None, phase: JobPhase::Announcing }
    }

    /// The status message was sent, or could not be.
    pub fn announced(&mut self, status: Option<MessageId>) -> (action: JobAction)
        requires
            old(self).phase == JobPhase::Announcing,
        ensures
            action is RunPipeline,
            *final(self) == (JobFlow { status, phase: JobPhase::InPipeline, ..*old(self) }),
    {
        self.status = status;
        self.phase = JobPhase::InPipeline;
        JobAction::RunPipeline
    }

    /// The pipeline ended. Its failures are counted and its marker cleared by
    /// the pipeline itself.
    pub fn pipeline_ended(
        &mut self,
        failure: Option<Error>,
        diagnostics: &mut WorkerDiagnostics,
    ) -> (action: JobAction)
        requires
            old(self).phase == JobPhase::InPipeline,
        ensures
            failure is None ==> action is Upload && *final(diagnostics) == *old(diagnostics)
                && *final(self) == (JobFlow { phase: JobPhase::Uploading, ..*old(self) }),
            failure matches Some(error) ==> (action matches JobAction::Fail { clear_marker, reply }
                && !clear_marker && is_reply(error, old(self).status is Some, reply)) && *final(self)
                == (JobFlow { phase: JobPhase::Over, ..*old(self) }) && *final(diagnostics) == old(
                diagnostics,
            ).after_failure(error),
    {
        match failure {
            None => {
                self.phase = JobPhase::Uploading;
                JobAction::Upload
            },
            Some(error) => {
                self.phase = JobPhase::Over;
                diagnostics.record_failure(&error);
                JobAction::Fail {
                    clear_marker: false,
                    reply: send_error(&error, self.status.is_some()),
                }
            },
        }
    }

    /// The upload ended, after so many milliseconds or with an error.
    pub fn upload_ended(
        &mut self,
        outcome: Result<u64, Error>,
        metrics: &mut Tracker,
        diagnostics: &mut WorkerDiagnostics,
    ) -> (action: JobAction)
        requires
            old(self).phase == JobPhase::Uploading,
        ensures
            *final(self) == (JobFlow { phase: JobPhase::Over, ..*old(self) }),
            old(metrics).balanced() ==> final(metrics).balanced(),
            match outcome {
                Ok(elapsed_ms) => {
                    &&& action == (JobAction::Succeed {
                        cleanup: SuccessCleanup {
                            delete_original: old(self).source,
                            delete_status: old(self).status,
                        },
                    })
                    &&& *final(diagnostics) == old(diagnostics).after_success()
                    &&& upload_counted(*old(metrics), *final(metrics), Some(elapsed_ms))
                },
                Err(error) => {
                    &&& action matches JobAction::Fail { clear_marker, reply }
                    &&& clear_marker
                    &&& is_reply(error, old(self).status is Some, reply)
                    &&& *final(diagnostics) == old(diagnostics).after_failure(error)
                    &&& upload_counted(*old(metrics), *final(metrics), None)
                },
            },
    {
        self.phase = JobPhase::Over;
        match outcome {
            Ok(elapsed_ms) => {
                let _ = after_upload(metrics, Ok(elapsed_ms));
                diagnostics.record_success();
                JobAction::Succeed { cleanup: success_cleanup(self.source, self.status) }
            },
            Err(error) => {
                let _ = after_upload(metrics, Err(()));
                diagnostics.record_failure(&error);
                JobAction::Fail {
                    clear_marker: true,
                    reply: send_error(&error, self.status.is_some()),
                }
            },
        }
    }
}

/// Every job that ends is counted as completed once, and as failed exactly
/// where it failed.
pub proof fn lemma_jobs_are_counted_once(d: WorkerDiagnostics, error: Error)
    requires
        d.completed_jobs < u64::MAX,
        d.failed_jobs < u64::MAX,
    ensures
        d.after_success().completed_jobs == d.completed_jobs + 1,
        d.after_success().failed_jobs == d.failed_jobs,
        d.after_failure(error).completed_jobs == d.completed_jobs + 1,
        d.after_failure(error).failed_jobs == d.failed_jobs + 1,
{
}

/// How long a step of the shutdown may take; a forced one is bounded.
pub fn step_timeout_secs(forced: bool) -> (r: Option<u64>)
    ensures
        r == (if forced {
            Some(SHUTDOWN_STEP_TIMEOUT_SECS)
        } else {
            None
        }),
{
    if forced {
        Some(SHUTDOWN_STEP_TIMEOUT_SECS)
    } else {
        None
    }
}

/// A step of the shutdown.
#[derive(Debug, Clone, Copy, PartialEq, Eq, Structural)]
pub enum ShutdownStep {
    StopMetricsFlush,
    StopDedupFlush,
    StopDedupMaintenance,
    StopTempCleanup,
    FlushDedup,
    FlushMetrics,
}

/// The steps in their order: what writes is stopped before the last flush.
pub fn shutdown_steps() -> (r: [ShutdownStep; 6])
    ensures
        r@ == seq![
            ShutdownStep::StopMetricsFlush,
            ShutdownStep::StopDedupFlush,
            ShutdownStep::StopDedupMaintenance,
            ShutdownStep::StopTempCleanup,
            ShutdownStep::FlushDedup,
            ShutdownStep::FlushMetrics,
        ],
{
    [
        ShutdownStep::StopMetricsFlush,
        ShutdownStep::StopDedupFlush,
        ShutdownStep::StopDedupMaintenance,
        ShutdownStep::StopTempCleanup,
        ShutdownStep::FlushDedup,
        ShutdownStep::FlushMetrics,
    ]
}

// ---------------------------------------------------------------------------
// What jobs leave behind
// ---------------------------------------------------------------------------
/// Each sort of error has a name of its own.
pub proof fn lemma_errors_are_named_by_sort(error: Error)
    ensures
        error_kind_name(error) == "transcode_failed"@ <==> (error matches Error::Core(e) && e is TranscodeFailed),
        error_kind_name(error) == "timeout"@ <==> (error matches Error::Core(e) && e is Timeout),
        error_kind_name(error) == "resolve_failed"@ <==> (error matches Error::Core(e) && e is ResolveFailed),
        error_kind_name(error) == "download_failed"@ <==> (error matches Error::Core(e) && e is DownloadFailed),
        error_kind_name(error) == "disk_space"@ <==> (error matches Error::Core(e) && e is DiskSpace),
        error_kind_name(error) == "duplicate"@ <==> (error matches Error::Core(e) && e is Duplicate),
        error_kind_name(error) == "io"@ <==> (error matches Error::Core(e) && e is Io),
        error_kind_name(error) == "upload_failed"@ <==> error is UploadFailed,
        error_kind_name(error) == "discord_api"@ <==> error is DiscordApi,
{
    reveal_strlit("transcode_failed");
    reveal_strlit("timeout");
    reveal_strlit("resolve_failed");
    reveal_strlit("download_failed");
    reveal_strlit("disk_space");
    reveal_strlit("duplicate");
    reveal_strlit("io");
    reveal_strlit("upload_failed");
    reveal_strlit("discord_api");
    assert("transcode_failed"@.len() == 16);
    assert("timeout"@.len() == 7);
    assert("resolve_failed"@.len() == 14);
    assert("download_failed"@.len() == 15);
    assert("disk_space"@.len() == 10);
    assert("duplicate"@.len() == 9);
    assert("io"@.len() == 2);
    assert("upload_failed"@.len() == 13);
    assert("discord_api"@.len() == 11);
}

/// A failure is counted as a timeout only where time ran out, and against a
/// device only where an encode failed that names one; a success as neither.
pub proof fn lemma_failures_are_counted_by_cause(d: WorkerDiagnostics, error: Error)
    requires
        d.timeout_jobs < u64::MAX,
        d.hwacc_failures < u64::MAX,
    ensures
        d.after_failure(error).timeout_jobs == d.timeout_jobs + (if error_kind_name(error)
            == "timeout"@ {
            1int
        } else {
            0int
        }),
        d.after_failure(error).hwacc_failures - d.hwacc_failures == (if (
        error matches Error::Core(CoreError::TranscodeFailed { stderr_tail, .. })
            && names_acceleration(stderr_tail@)) {
            1int
        } else {
            0int
        }),
        d.after_success().timeout_jobs == d.timeout_jobs,
        d.after_success().hwacc_failures == d.hwacc_failures,
{
    lemma_errors_are_named_by_sort(error);
}

/// Uploads keep the books balanced: each is one run more, and one success or
/// one failure more.
pub proof fn lemma_uploads_keep_the_balance(before: Tracker, after: Tracker, elapsed_ms: Option<u64>)
    requires
        upload_counted(before, after, elapsed_ms),
        before.balanced(),
    ensures
        after.balanced(),
        before.enabled && before.successes < u64::MAX ==> (after.successes == before.successes + 1
            <==> elapsed_ms is Some),
        before.enabled && before.failures < u64::MAX ==> (after.failures == before.failures + 1
            <==> elapsed_ms is None),
        !before.enabled ==> after.total_runs == before.total_runs && after.successes
            == before.successes && after.failures == before.failures && after.errors@
            == before.errors@ && after.stage_count@ == before.stage_count@ && after.stage_sum_ms@
            == before.stage_sum_ms@,
        after.enabled == before.enabled,
        before.enabled && elapsed_ms is Some ==> after.errors@ == before.errors@,
        before.enabled && elapsed_ms is None ==> after.stage_count@ == before.stage_count@,
        after.stage_count@.len() > 3 && before.stage_count@.len() > 3 ==> after.stage_count@[0]
            == before.stage_count@[0] && after.stage_count@[1] == before.stage_count@[1]
            && after.stage_count@[2] == before.stage_count@[2],
{
}

/// A duplicate is never told; of every other failure the user reads its text,
/// in the status message where there is one.
pub proof fn lemma_failures_are_told_once(error: Error, has_status: bool, reply: ErrorAction)
    requires
        is_reply(error, has_status, reply),
    ensures
        reply is EditStatus || reply is DeleteStatus ==> has_status,
        reply is NewMessage || reply is Nothing ==> !has_status,
        (reply is DeleteStatus || reply is Nothing) <==> error_kind_name(error) == "duplicate"@,
        reply matches ErrorAction::EditStatus { content } ==> content@ == error.user_text(),
        reply matches ErrorAction::NewMessage { content } ==> content@ == error.user_text(),
{
    lemma_errors_are_named_by_sort(error);
}

} // verus!
