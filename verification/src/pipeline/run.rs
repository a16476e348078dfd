//! The order of the stages, and what each outcome leaves behind.

use crate::pipeline::errors::{DownloadError, Error};
use crate::pipeline::types::Progress;
use crate::storage::metrics::{plus, plus_one, with_error, Stage, Tracker};
use vstd::prelude::*;

verus! {

/// Milliseconds after which a stage is reported as slow.
pub const RESOLVE_WARN_MS: u64 = 8_000;

pub const DOWNLOAD_WARN_MS: u64 = 20_000;

pub const OPTIMIZE_WARN_MS: u64 = 30_000;

pub open spec fn warn_ms(stage: Stage) -> u64 {
    match stage {
        Stage::Resolve => RESOLVE_WARN_MS,
        Stage::Download => DOWNLOAD_WARN_MS,
        _ => OPTIMIZE_WARN_MS,
    }
}

/// Whether a stage took longer than expected.
pub fn is_slow(stage: Stage, duration_ms: u64) -> (r: bool)
    ensures
        r == (duration_ms > warn_ms(stage)),
{
    let threshold_ms = match stage {
        Stage::Resolve => RESOLVE_WARN_MS,
        Stage::Download => DOWNLOAD_WARN_MS,
        _ => OPTIMIZE_WARN_MS,
    };
    duration_ms > threshold_ms
}

/// How far a run has come.
#[derive(Debug, Clone, Copy, PartialEq, Eq, Structural)]
pub enum RunPhase {
    Reserving,
    InStage { stage: Stage },
    Over,
}

/// What to do next.
#[derive(Debug)]
pub enum RunAction {
    /// Announce the stage and run it.
    StartStage { stage: Stage, progress: Progress },
    /// Another request holds or has done this job.
    RefuseDuplicate,
    /// Hand the result of the last stage to the caller.
    Finish,
    /// Clear the marker of the request and return the error.
    ClearMarkerAndFail,
}

/// One run of the pipeline up to the prepared files.
#[derive(Debug, Clone, Copy, PartialEq, Eq, Structural)]
pub struct PipelineRun {
    pub phase: RunPhase,
}

pub open spec fn stage_progress(stage: Stage) -> Progress {
    match stage {
        Stage::Resolve => Progress::Resolving,
        Stage::Download => Progress::Downloading,
        _ => Progress::Optimizing,
    }
}

/// The stage after a stage, where this run has one.
pub open spec fn stage_after(stage: Stage) -> Option<Stage> {
    match stage {
        Stage::Resolve => Some(Stage::Download),
        Stage::Download => Some(Stage::Optimize),
        _ => None,
    }
}

/// The kind that a failed stage is counted under.
pub open spec fn failure_kind(stage: Stage, error: Error) -> Seq<char> {
    match stage {
        Stage::Resolve => "resolve_failed"@,
        Stage::Download => if error matches Error::DownloadFailed {
            source: DownloadError::SsrfBlocked(_),
        } {
            "ssrf_blocked"@
        } else {
            "download_failed"@
        },
        _ => "optimize_failed"@,
    }
}

fn failure_kind_of(stage: Stage, error: &Error) -> (s: &'static str)
    ensures
        s@ == failure_kind(stage, *error),
{
    match stage {
        Stage::Resolve => "resolve_failed",
        Stage::Download => match error {
            Error::DownloadFailed { source: DownloadError::SsrfBlocked(_) } => "ssrf_blocked",
            _ => "download_failed",
        },
        _ => "optimize_failed",
    }
}

impl PipelineRun {
    /// A run begins by reserving its request.
    pub fn new() -> (r: Self)
        ensures
            r.phase == RunPhase::Reserving,
    {
        PipelineRun { phase: RunPhase::Reserving }
    }

    /// The reservation was granted or not.
    pub fn reserved(&mut self, granted: bool) -> (action: RunAction)
        requires
            old(self).phase == RunPhase::Reserving,
        ensures
            granted ==> action == (RunAction::StartStage {
                stage: Stage::Resolve,
                progress: Progress::Resolving,
            }) && final(self).phase == (RunPhase::InStage { stage: Stage::Resolve }),
            !granted ==> action is RefuseDuplicate && final(self).phase == RunPhase::Over,
    {
        if !granted {
            self.phase = RunPhase::Over;
            return RunAction::RefuseDuplicate;
        }
        self.phase = RunPhase::InStage { stage: Stage::Resolve };
        RunAction::StartStage { stage: Stage::Resolve, progress: Progress::Resolving }
    }

    /// The current stage worked: its duration is recorded, and the next stage
    /// follows.
    pub fn stage_done(&mut self, metrics: &mut Tracker, duration_ms: u64) -> (action: RunAction)
        requires
            old(self).phase is InStage,
        ensures
            ({
                let stage = old(self).phase->stage;
                &&& match stage_after(stage) {
                    Some(next) => {
                        &&& action == (RunAction::StartStage {
                            stage: next,
                            progress: stage_progress(next),
                        })
                        &&& final(self).phase == (RunPhase::InStage { stage: next })
                    },
                    None => action is Finish && final(self).phase == RunPhase::Over,
                }
                &&& final(metrics).enabled == old(metrics).enabled
                &&& final(metrics).total_runs == old(metrics).total_runs
                &&& final(metrics).successes == old(metrics).successes
                &&& final(metrics).failures == old(metrics).failures
                &&& final(metrics).errors@ == old(metrics).errors@
                &&& old(metrics).enabled ==> final(metrics).stage_count@ == old(
                    metrics,
                ).stage_count@.update(
                    stage.place(),
                    plus_one(old(metrics).stage_count@[stage.place()]),
                ) && final(metrics).stage_sum_ms@ == old(metrics).stage_sum_ms@.update(
                    stage.place(),
                    plus(old(metrics).stage_sum_ms@[stage.place()], duration_ms) as u64,
                )
                &&& !old(metrics).enabled ==> *final(metrics) == *old(metrics)
            }),
    {
        let stage = match self.phase {
            RunPhase::InStage { stage } => stage,
            _ => Stage::Resolve,
        };
        metrics.record_stage_duration(stage, duration_ms);
        match stage {
            Stage::Resolve => {
                self.phase = RunPhase::InStage { stage: Stage::Download };
                RunAction::StartStage { stage: Stage::Download, progress: Progress::Downloading }
            },
            Stage::Download => {
                self.phase = RunPhase::InStage { stage: Stage::Optimize };
                RunAction::StartStage { stage: Stage::Optimize, progress: Progress::Optimizing }
            },
            _ => {
                self.phase = RunPhase::Over;
                RunAction::Finish
            },
        }
    }

    /// The current stage failed: the failure is counted once, by its kind and
    /// in total, and the marker of the request goes.
    pub fn stage_failed(&mut self, metrics: &mut Tracker, error: &Error) -> (action: RunAction)
        requires
            old(self).phase is InStage,
        ensures
            action is ClearMarkerAndFail,
            final(self).phase == RunPhase::Over,
            final(metrics).enabled == old(metrics).enabled,
            final(metrics).successes == old(metrics).successes,
            final(metrics).stage_sum_ms == old(metrics).stage_sum_ms,
            final(metrics).stage_count == old(metrics).stage_count,
            old(metrics).balanced() ==> final(metrics).balanced(),
            old(metrics).enabled ==> {
                &&& final(metrics).total_runs == plus_one(old(metrics).total_runs)
                &&& final(metrics).failures == plus_one(old(metrics).failures)
                &&& final(metrics).errors@ == with_error(
                    old(metrics).errors@,
                    failure_kind(old(self).phase->stage, *error),
                )
            },
            !old(metrics).enabled ==> {
                &&& final(metrics).total_runs == old(metrics).total_runs
                &&& final(metrics).failures == old(metrics).failures
                &&& final(metrics).errors@ == old(metrics).errors@
            },
    {
        let stage = match self.phase {
            RunPhase::InStage { stage } => stage,
            _ => Stage::Resolve,
        };
        let _ = metrics.record_error(failure_kind_of(stage, error));
        metrics.record_failure();
        self.phase = RunPhase::Over;
        RunAction::ClearMarkerAndFail
    }
}

/// What a stage, or the reservation before it, brought.
pub enum RunEvent {
    Reserved { granted: bool },
    Done,
    Failed,
}

/// One step of a run, as the methods take it.
pub open spec fn run_step(phase: RunPhase, event: RunEvent) -> RunPhase {
    match (phase, event) {
        (RunPhase::Reserving, RunEvent::Reserved { granted: true }) => RunPhase::InStage {
            stage: Stage::Resolve,
        },
        (RunPhase::Reserving, RunEvent::Reserved { granted: false }) => RunPhase::Over,
        (RunPhase::InStage { stage }, RunEvent::Done) => match stage_after(stage) {
            Some(next) => RunPhase::InStage { stage: next },
            None => RunPhase::Over,
        },
        (RunPhase::InStage { .. }, RunEvent::Failed) => RunPhase::Over,
        _ => phase,
    }
}

/// Whether the marker of the request stands after a step.
pub open spec fn marker_after(phase: RunPhase, event: RunEvent, marker: bool) -> bool {
    match (phase, event) {
        (RunPhase::Reserving, RunEvent::Reserved { granted }) => granted,
        (RunPhase::InStage { .. }, RunEvent::Failed) => false,
        _ => marker,
    }
}

/// The marker stands as long as a stage runs, and no failure leaves it behind:
/// a run that is over holds it only where its last stage worked.
pub proof fn lemma_failures_clear_the_marker(phase: RunPhase, event: RunEvent, marker: bool)
    requires
        phase is InStage ==> marker,
        phase is Reserving ==> !marker,
    ensures
        run_step(phase, event) is InStage ==> marker_after(phase, event, marker),
        phase !is Over && run_step(phase, event) is Over ==> (marker_after(phase, event, marker)
            <==> event is Done),
{
}

// ---------------------------------------------------------------------------
// The course of a run
// ---------------------------------------------------------------------------
/// The stages follow each other without a gap, up to the last before an upload;
/// each announces itself, and later ones are given more time before a warning.
pub proof fn lemma_stages_follow_each_other(stage: Stage)
    requires
        stage != Stage::Upload,
    ensures
        stage_after(stage) matches Some(next) ==> next.place() == stage.place() + 1,
        stage_after(stage) is None <==> stage == Stage::Optimize,
        stage_after(stage) matches Some(next) ==> warn_ms(stage) < warn_ms(next),
        warn_ms(Stage::Resolve) == 8_000,
        warn_ms(stage) <= 30_000,
        stage_progress(stage) is Resolving <==> stage == Stage::Resolve,
        stage_progress(stage) is Downloading <==> stage == Stage::Download,
        stage_progress(stage) is Optimizing <==> stage == Stage::Optimize,
{
}

/// A run stays reserving until it is answered, starts with resolving, goes on
/// only from stages that are done, and once over stays over. Its marker stands
/// exactly from a granted reservation to a failure.
pub proof fn lemma_runs_go_forward(phase: RunPhase, event: RunEvent, marker: bool)
    ensures
        ({
            let next = run_step(phase, event);
            &&& phase is Over ==> next is Over
            &&& phase is Reserving ==> (next is InStage <==> event == (RunEvent::Reserved {
                granted: true,
            }))
            &&& phase is Reserving && next is InStage ==> next->stage == Stage::Resolve
            &&& phase is InStage && event is Failed ==> next is Over
            &&& phase is InStage && next is InStage && next != phase ==> event is Done
                && next->stage.place() == phase->stage.place() + 1
            &&& phase is InStage && event is Done && phase->stage.place() < 2 ==> next is InStage
                && next != phase
            &&& phase is InStage && event is Done && phase->stage.place() >= 2 ==> next is Over
        }),
        phase is Reserving && event is Reserved ==> marker_after(phase, event, marker)
            == event->granted,
        phase is InStage && event is Failed ==> !marker_after(phase, event, marker),
        phase is InStage && !(event is Failed) ==> marker_after(phase, event, marker) == marker,
        phase is Over ==> marker_after(phase, event, marker) == marker,
{
}

/// Failures of different stages are counted apart, and a refused address apart
/// from other failed downloads.
pub proof fn lemma_failures_are_counted_apart(a: Stage, b: Stage, error: Error)
    requires
        a != Stage::Upload,
        b != Stage::Upload,
    ensures
        failure_kind(a, error) == failure_kind(b, error) <==> a == b,
        failure_kind(a, error) == "ssrf_blocked"@ <==> a == Stage::Download && (
        error matches Error::DownloadFailed { source } && source is SsrfBlocked),
        a == Stage::Resolve ==> failure_kind(a, error) == "resolve_failed"@,
        a == Stage::Optimize ==> failure_kind(a, error) == "optimize_failed"@,
        failure_kind(Stage::Download, error) == "ssrf_blocked"@ || failure_kind(
            Stage::Download,
            error,
        ) == "download_failed"@,
{
    reveal_strlit("resolve_failed");
    reveal_strlit("ssrf_blocked");
    reveal_strlit("download_failed");
    reveal_strlit("optimize_failed");
    assert("resolve_failed"@.len() == 14);
    assert("ssrf_blocked"@.len() == 12);
    assert("download_failed"@.len() == 15);
    assert("optimize_failed"@.len() == 15);
    assert("download_failed"@[0] != "optimize_failed"@[0]);
}

} // verus!
