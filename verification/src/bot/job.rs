//! Jobs of the bot and how they fail.

use crate::bot::ids::{ChannelId, MessageId, UserId};
use crate::media::url::TweetLink;
use crate::pipeline::errors::Error as CoreError;
use crate::pipeline::types::{Job as CoreJob, RequestId};
use crate::text::{decimal, decimal_of};
use vstd::prelude::*;
use vstd::string::StringExecFns;

verus! {

/// A tweet to process, and who asked where.
#[derive(Debug)]
pub struct Job {
    pub request_id: RequestId,
    pub channel_id: ChannelId,
    pub trigger_id: u64,
    pub source_message_id: Option<MessageId>,
    pub author_id: UserId,
    pub tweet_url: TweetLink,
}

impl Job {
    pub fn new(
        request_id: RequestId,
        channel_id: ChannelId,
        trigger_id: u64,
        source_message_id: Option<MessageId>,
        author_id: UserId,
        tweet_url: TweetLink,
    ) -> (r: Self)
        ensures
            r == (Job {
                request_id,
                channel_id,
                trigger_id,
                source_message_id,
                author_id,
                tweet_url,
            }),
    {
        Job { request_id, channel_id, trigger_id, source_message_id, author_id, tweet_url }
    }

    /// The job of the pipeline: the channel is its scope.
    pub fn core_job(&self) -> (r: CoreJob)
        ensures
            r == (CoreJob {
                request_id: self.request_id,
                scope_id: self.channel_id.0,
                job_id: self.trigger_id,
                tweet_url: self.tweet_url,
            }),
    {
        CoreJob::new(
            self.request_id,
            self.channel_id.get(),
            self.trigger_id,
            self.tweet_url.duplicate(),
        )
    }
}

/// What an upload left behind.
#[derive(Debug, Clone, Copy, PartialEq, Eq, Structural)]
pub struct UploadOutcome {
    pub first_message_id: MessageId,
    pub messages_sent: usize,
}

/// Failures of a job, in the pipeline or on Discord. What Discord's client
/// said is held as text.
#[derive(Debug)]
pub enum Error {
    Core(CoreError),
    UploadFailed { part: usize, total: usize, source: String },
    DiscordApi { operation: &'static str, source: String },
}

impl Error {
    pub open spec fn user_text(&self) -> Seq<char> {
        match *self {
            Error::Core(err) => err.user_text(),
            Error::UploadFailed { .. } => "❌ Failed to upload media to Discord."@,
            Error::DiscordApi { .. } => "❌ An internal error occurred."@,
        }
    }

    /// Message for the user who asked.
    pub fn user_message(&self) -> (s: &'static str)
        ensures
            s@ == self.user_text(),
    {
        match self {
            Error::Core(err) => err.user_message(),
            Error::UploadFailed { .. } => "❌ Failed to upload media to Discord.",
            Error::DiscordApi { .. } => "❌ An internal error occurred.",
        }
    }

    /// Everything is told but a duplicate.
    pub open spec fn is_told(&self) -> bool {
        !(self matches Error::Core(CoreError::Duplicate))
    }

    /// Whether the user is told of this error.
    pub fn should_notify_user(&self) -> (r: bool)
        ensures
            r == self.is_told(),
    {
        match self {
            Error::Core(err) => err.should_notify_user(),
            _ => true,
        }
    }

    /// The error as text.
    pub fn message(&self) -> (s: String)
        ensures
            match *self {
                Error::Core(err) => err.is_text(s@),
                Error::UploadFailed { part, total, source } => s@ == "upload failed ("@ + decimal(
                    part as nat,
                ) + "/"@ + decimal(total as nat) + "): "@ + source@,
                Error::DiscordApi { operation, source } => s@ == "discord api error ("@ + operation@
                    + "): "@ + source@,
            },
    {
        match self {
            Error::Core(err) => err.message(),
            Error::UploadFailed { part, total, source } => {
                let mut s = "upload failed (".to_owned();
                s.append(decimal_of(*part as u64).as_str());
                s.append("/");
                s.append(decimal_of(*total as u64).as_str());
                s.append("): ");
                s.append(source.as_str());
                s
            },
            Error::DiscordApi { operation, source } => {
                let mut s = "discord api error (".to_owned();
                s.append(operation);
                s.append("): ");
                s.append(source.as_str());
                s
            },
        }
    }
}

/// The user reads what happened to an upload, and of an earlier stage what that
/// stage tells; only a duplicate is kept quiet.
pub proof fn lemma_users_read_what_happened(error: Error)
    ensures
        error is UploadFailed ==> error.user_text() == "❌ Failed to upload media to Discord."@,
        error is DiscordApi ==> error.user_text() == "❌ An internal error occurred."@,
        error matches Error::Core(e) ==> error.user_text() == e.user_text(),
        !error.is_told() <==> (error matches Error::Core(e) && e is Duplicate),
{
}

} // verus!
