//! What the bot says about a job while it runs and when it fails.

use crate::bot::job::Error;
use crate::pipeline::types::Progress;
use vstd::prelude::*;
use vstd::string::StringExecFns;

verus! {

/// How an error is brought to the user.
#[derive(Debug, Clone, Copy, PartialEq, Eq, Structural)]
pub enum ErrorNotificationPolicy {
    SilentDelete,
    VisibleError,
}

pub fn error_notification_policy(error: &Error) -> (r: ErrorNotificationPolicy)
    ensures
        r == (if error.is_told() {
            ErrorNotificationPolicy::VisibleError
        } else {
            ErrorNotificationPolicy::SilentDelete
        }),
{
    if error.should_notify_user() {
        ErrorNotificationPolicy::VisibleError
    } else {
        ErrorNotificationPolicy::SilentDelete
    }
}

/// What to do with the status message of a failed job.
#[derive(Debug)]
pub enum ErrorAction {
    Nothing,
    DeleteStatus,
    EditStatus { content: &'static str },
    NewMessage { content: &'static str },
}

/// An error replaces the status message, where there is one; a duplicate only
/// makes it go.
pub fn send_error(error: &Error, has_status: bool) -> (action: ErrorAction)
    ensures
        !error.is_told() && has_status ==> action is DeleteStatus,
        !error.is_told() && !has_status ==> action is Nothing,
        error.is_told() && has_status ==> (action matches ErrorAction::EditStatus { content }
            && content@ == error.user_text()),
        error.is_told() && !has_status ==> (action matches ErrorAction::NewMessage { content }
            && content@ == error.user_text()),
{
    if error_notification_policy(error) == ErrorNotificationPolicy::SilentDelete {
        if has_status {
            return ErrorAction::DeleteStatus;
        }
        return ErrorAction::Nothing;
    }
    if has_status {
        ErrorAction::EditStatus { content: error.user_message() }
    } else {
        ErrorAction::NewMessage { content: error.user_message() }
    }
}

/// The text of the first status message.
pub const PROCESSING_TEXT: &'static str = "Processing your tweet...";

/// The text of the status message in a stage.
pub fn progress_text(stage: &Progress) -> (s: String)
    ensures
        s@ == "Processing: "@ + stage.text(),
{
    let mut s = "Processing: ".to_owned();
    s.append(stage.message().as_str());
    s
}

pub open spec fn is_sent(stage: Progress, elapsed_ms: u64, debounce_ms: u64) -> bool {
    !(stage matches Progress::Transcoding(done, total) && done < total) || elapsed_ms
        >= debounce_ms
}

/// Transcoding that is under way is shown only now and then; everything else
/// at once.
pub fn should_send_progress(stage: &Progress, elapsed_ms: u64, debounce_ms: u64) -> (r: bool)
    ensures
        r == is_sent(*stage, elapsed_ms, debounce_ms),
{
    !stage.is_inflight_transcoding() || elapsed_ms >= debounce_ms
}

/// The status updates of one job.
#[derive(Debug, Clone, Copy, PartialEq, Eq, Structural)]
pub struct ProgressUpdates {
    pub last_sent: Option<Progress>,
    pub pending: Option<Progress>,
}

impl ProgressUpdates {
    pub fn new() -> (r: Self)
        ensures
            r == (ProgressUpdates { last_sent: None, pending: None }),
    {
        ProgressUpdates { last_sent: None, pending: None }
    }

    /// The stage that the message shows once everything held back is sent.
    pub open spec fn latest(&self) -> Option<Progress> {
        match self.pending {
            Some(stage) => Some(stage),
            None => self.last_sent,
        }
    }

    /// Take in a stage, `elapsed_ms` after the last update; the return value
    /// says whether to show it now.
    pub fn on_stage(&mut self, stage: Progress, elapsed_ms: u64, debounce_ms: u64) -> (send: bool)
        ensures
            send == is_sent(stage, elapsed_ms, debounce_ms),
            send ==> *final(self) == (ProgressUpdates { last_sent: Some(stage), pending: None }),
            !send ==> *final(self) == (ProgressUpdates { pending: Some(stage), ..*old(self) }),
            final(self).latest() == Some(stage),
    {
        if should_send_progress(&stage, elapsed_ms, debounce_ms) {
            self.last_sent = Some(stage);
            self.pending = None;
            true
        } else {
            self.pending = Some(stage);
            false
        }
    }

    /// The stage that is still to be shown: the one held back, unless the
    /// message shows it already.
    pub open spec fn last_update(&self) -> Option<Progress> {
        if self.pending is Some && self.pending != self.last_sent {
            self.pending
        } else {
            None
        }
    }

    /// The update to send when no more stages come.
    pub fn finish(self) -> (r: Option<Progress>)
        ensures
            r == self.last_update(),
    {
        match self.pending {
            None => None,
            Some(stage) => match self.last_sent {
                None => Some(stage),
                Some(shown) => {
                    if shown == stage {
                        None
                    } else {
                        Some(stage)
                    }
                },
            },
        }
    }
}

/// After the last update the message shows the latest stage, whatever was held
/// back before.
pub proof fn lemma_latest_stage_is_shown(updates: ProgressUpdates)
    ensures
        (match updates.last_update() {
            Some(stage) => Some(stage),
            None => updates.last_sent,
        }) == updates.latest(),
{
}

/// Only progress within an encode is held back, and only while the last update
/// is recent.
pub proof fn lemma_only_partial_encodes_wait(stage: Progress, elapsed_ms: u64, debounce_ms: u64)
    ensures
        !is_sent(stage, elapsed_ms, debounce_ms) <==> elapsed_ms < debounce_ms && (
        stage matches Progress::Transcoding(done, total) && done < total),
{
}

} // verus!
