//! Slash commands and their replies.

use crate::bot::ids::{ChannelId, UserId};
use crate::config::{EngineSettings, HardwareAcceleration, QualityPreset};
use crate::media::url::{
    captured_links, link_model, link_models, lone_link, parse_tweet_urls, tweet_url_captures,
    LoneLink, TweetId, TweetLink, TweetLinks,
};
use crate::pipeline::resolve::ResolverCacheStats;
use crate::storage::metrics::{Snapshot, Stage, TotalsSnapshot};
use crate::text::{decimal, decimal_of, holds_within, lemma_text_grows, same};
use vstd::prelude::*;
use vstd::string::StringExecFns;

verus! {

// ---------------------------------------------------------------------------
// The commands
// ---------------------------------------------------------------------------
/// A command that users can call.
#[derive(Debug, Clone, Copy, PartialEq, Eq, Structural)]
pub enum Command {
    Media,
    Status,
    Stats,
    Config,
}

impl Command {
    pub open spec fn named(name: Seq<char>) -> Option<Command> {
        if name == "media"@ {
            Some(Command::Media)
        } else if name == "stats"@ {
            Some(Command::Stats)
        } else if name == "config"@ {
            Some(Command::Config)
        } else if name == "status"@ {
            Some(Command::Status)
        } else {
            None
        }
    }

    /// The command that a call names; other calls are not answered.
    pub fn from_name(name: &str) -> (r: Option<Command>)
        ensures
            r == Command::named(name@),
    {
        if same(name, "media") {
            Some(Command::Media)
        } else if same(name, "stats") {
            Some(Command::Stats)
        } else if same(name, "config") {
            Some(Command::Config)
        } else if same(name, "status") {
            Some(Command::Status)
        } else {
            None
        }
    }

    /// All commands, in the order they are registered.
    pub fn all() -> (r: [Command; 4])
        ensures
            r@ == seq![Command::Media, Command::Status, Command::Stats, Command::Config],
    {
        [Command::Media, Command::Status, Command::Stats, Command::Config]
    }

    pub fn name(self) -> (s: &'static str)
        ensures
            Command::named(s@) == Some(self),
    {
        proof {
            reveal_strlit("media");
            reveal_strlit("status");
            reveal_strlit("stats");
            reveal_strlit("config");
            assert("media"@.len() == 5 && "stats"@.len() == 5);
            assert("config"@.len() == 6 && "status"@.len() == 6);
            assert("media"@[0] == 'm' && "stats"@[0] == 's');
            assert("config"@[0] == 'c' && "status"@[0] == 's');
        }
        match self {
            Command::Media => "media",
            Command::Status => "status",
            Command::Stats => "stats",
            Command::Config => "config",
        }
    }

    pub fn description(self) -> (s: &'static str)
        ensures
            s@ == (match self {
                Command::Media => "Process a tweet URL"@,
                Command::Status => "Show bot status"@,
                Command::Stats => "Show pipeline statistics"@,
                Command::Config => "Show configuration summary"@,
            }),
    {
        match self {
            Command::Media => "Process a tweet URL",
            Command::Status => "Show bot status",
            Command::Stats => "Show pipeline statistics",
            Command::Config => "Show configuration summary",
        }
    }
}

/// The option of the media command.
pub const URL_OPTION: &'static str = "url";

pub const URL_OPTION_DESCRIPTION: &'static str = "Tweet URL to process";

// ---------------------------------------------------------------------------
// The media command
// ---------------------------------------------------------------------------
/// An option of a call; values that are no text are not held.
#[derive(Debug)]
pub struct CommandOption {
    pub name: String,
    pub text: Option<String>,
}

/// The text of the first option with the name of the URL option, from place
/// `i` on.
pub open spec fn url_text(options: Seq<CommandOption>, i: int) -> Option<Seq<char>>
    decreases options.len() - i,
{
    if 0 <= i < options.len() {
        if options[i].name@ == URL_OPTION@ {
            match options[i].text {
                Some(text) => Some(text@),
                None => None,
            }
        } else {
            url_text(options, i + 1)
        }
    } else {
        None
    }
}

fn find_url(options: &Vec<CommandOption>) -> (r: Option<String>)
    ensures
        match r {
            Some(s) => url_text(options@, 0) == Some(s@),
            None => url_text(options@, 0) is None,
        },
{
    let mut i: usize = 0;
    while i < options.len()
        invariant
            i <= options@.len(),
            url_text(options@, 0) == url_text(options@, i as int),
        decreases options@.len() - i,
    {
        if same(options[i].name.as_str(), URL_OPTION) {
            return match &options[i].text {
                Some(text) => Some(text.clone()),
                None => None,
            };
        }
        i = i + 1;
    }
    None
}

/// Whether a job got into the queue.
#[derive(Debug, Clone, Copy, PartialEq, Eq, Structural)]
pub enum QueueOutcome {
    Queued,
    Closed,
    TimedOut,
}

/// How far a call of the media command has come.
#[derive(Debug)]
pub enum MediaPhase {
    CheckUser,
    CheckChannel,
    LookUp { link: TweetLink },
    Enqueue { link: TweetLink },
    Over,
}

/// What a step brought.
#[derive(Debug, Clone, Copy, PartialEq, Eq, Structural)]
pub enum MediaEvent {
    /// Whether the user, or the channel, is within its budget.
    Allowed { allowed: bool },
    /// Whether the tweet was processed lately.
    Known { known: bool },
    Queue { outcome: QueueOutcome },
}

/// What to do next.
#[derive(Debug)]
pub enum MediaAction {
    CheckUser,
    CheckChannel,
    LookUp { tweet_id: TweetId },
    Enqueue { link: TweetLink },
    Reply { content: &'static str },
    /// The event does not fit the phase.
    Ignore,
}

/// One call of the media command.
#[derive(Debug)]
pub struct MediaCommand {
    pub phase: MediaPhase,
}

/// The one link that a call may name.
pub fn choose_link(links: &TweetLinks) -> (r: Result<TweetLink, &'static str>)
    ensures
        links@.len() == 0 ==> (r matches Err(e) && e@ == "please provide a valid tweet URL."@),
        links@.len() == 1 ==> r == Ok::<TweetLink, &'static str>(links@[0]),
        links@.len() > 1 ==> (r matches Err(e) && e@
            == "please provide exactly one tweet URL per command."@),
{
    match lone_link(links) {
        LoneLink::Absent => Err("please provide a valid tweet URL."),
        LoneLink::One { link } => Ok(link),
        LoneLink::Several => Err("please provide exactly one tweet URL per command."),
    }
}

pub open spec fn replies(action: MediaAction, text: Seq<char>) -> bool {
    action matches MediaAction::Reply { content } && content@ == text
}

/// What follows the budgets: the link of the call is looked up, or the call is
/// refused.
pub open spec fn after_budgets(
    options: Seq<CommandOption>,
    next: MediaPhase,
    action: MediaAction,
) -> bool {
    match url_text(options, 0) {
        None => next is Over && replies(action, "missing required URL."@),
        Some(url) => {
            let found = captured_links(tweet_url_captures(url));
            if found.len() == 0 {
                next is Over && replies(action, "please provide a valid tweet URL."@)
            } else if found.len() > 1 {
                next is Over && replies(action, "please provide exactly one tweet URL per command."@)
            } else {
                &&& next matches MediaPhase::LookUp { link }
                &&& link.wf()
                &&& link_model(link) == found[0]
                &&& action == (MediaAction::LookUp { tweet_id: link.tweet_id })
            }
        },
    }
}

impl MediaCommand {
    /// A call needs a channel and an author.
    pub fn start(channel: Option<ChannelId>, author: Option<UserId>) -> (r: (Self, MediaAction))
        ensures
            channel is None ==> r.0.phase is Over && replies(
                r.1,
                "this command can only be used in a channel."@,
            ),
            channel is Some && author is None ==> r.0.phase is Over && replies(
                r.1,
                "could not determine the command author."@,
            ),
            channel is Some && author is Some ==> r.0.phase is CheckUser && r.1 is CheckUser,
    {
        if channel.is_none() {
            return (
                MediaCommand { phase: MediaPhase::Over },
                MediaAction::Reply { content: "this command can only be used in a channel." },
            );
        }
        if author.is_none() {
            return (
                MediaCommand { phase: MediaPhase::Over },
                MediaAction::Reply { content: "could not determine the command author." },
            );
        }
        (MediaCommand { phase: MediaPhase::CheckUser }, MediaAction::CheckUser)
    }

    /// Phase and action after an event.
    pub open spec fn is_next(
        &self,
        options: Seq<CommandOption>,
        event: MediaEvent,
        next: MediaPhase,
        action: MediaAction,
    ) -> bool {
        match (self.phase, event) {
            (MediaPhase::CheckUser, MediaEvent::Allowed { allowed }) => if allowed {
                next is CheckChannel && action is CheckChannel
            } else {
                next is Over && replies(
                    action,
                    "you're sending requests too quickly. please slow down."@,
                )
            },
            (MediaPhase::CheckChannel, MediaEvent::Allowed { allowed }) => if allowed {
                after_budgets(options, next, action)
            } else {
                next is Over && replies(
                    action,
                    "this channel is receiving too many requests. please try again later."@,
                )
            },
            (MediaPhase::LookUp { link }, MediaEvent::Known { known }) => if known {
                next is Over && replies(
                    action,
                    "that tweet was already processed recently in this channel."@,
                )
            } else {
                next == (MediaPhase::Enqueue { link }) && action == (MediaAction::Enqueue { link })
            },
            (MediaPhase::Enqueue { .. }, MediaEvent::Queue { outcome }) => next is Over && replies(
                action,
                match outcome {
                    QueueOutcome::Queued => "Queued for processing."@,
                    QueueOutcome::Closed =>
                        "job queue is unavailable right now. please try again later."@,
                    QueueOutcome::TimedOut =>
                        "queue is busy right now. please try again in a moment."@,
                },
            ),
            _ => next == self.phase && action is Ignore,
        }
    }

    /// Take in what a step brought and say what to do next.
    pub fn on_event(&mut self, options: &Vec<CommandOption>, event: MediaEvent) -> (action:
        MediaAction)
        ensures
            old(self).is_next(options@, event, final(self).phase, action),
    {
        let mut phase = MediaPhase::Over;
        std::mem::swap(&mut phase, &mut self.phase);
        match (phase, event) {
            (MediaPhase::CheckUser, MediaEvent::Allowed { allowed }) => {
                if !allowed {
                    return MediaAction::Reply {
                        content: "you're sending requests too quickly. please slow down.",
                    };
                }
                self.phase = MediaPhase::CheckChannel;
                MediaAction::CheckChannel
            },
            (MediaPhase::CheckChannel, MediaEvent::Allowed { allowed }) => {
                if !allowed {
                    return MediaAction::Reply {
                        content:
                            "this channel is receiving too many requests. please try again later.",
                    };
                }
                let url = match find_url(options) {
                    Some(url) => url,
                    None => {
                        return MediaAction::Reply { content: "missing required URL." };
                    },
                };
                let links = parse_tweet_urls(url.as_str());
                assert(link_models(links@).len() == links@.len());
                match choose_link(&links) {
                    Err(content) => MediaAction::Reply { content },
                    Ok(link) => {
                        assert(link_models(links@)[0] == link_model(links@[0]));
                        let tweet_id = link.tweet_id;
                        self.phase = MediaPhase::LookUp { link };
                        MediaAction::LookUp { tweet_id }
                    },
                }
            },
            (MediaPhase::LookUp { link }, MediaEvent::Known { known }) => {
                if known {
                    return MediaAction::Reply {
                        content: "that tweet was already processed recently in this channel.",
                    };
                }
                let job_link = link.duplicate();
                self.phase = MediaPhase::Enqueue { link };
                MediaAction::Enqueue { link: job_link }
            },
            (MediaPhase::Enqueue { .. }, MediaEvent::Queue { outcome }) => match outcome {
                QueueOutcome::Queued => MediaAction::Reply { content: "Queued for processing." },
                QueueOutcome::Closed => MediaAction::Reply {
                    content: "job queue is unavailable right now. please try again later.",
                },
                QueueOutcome::TimedOut => MediaAction::Reply {
                    content: "queue is busy right now. please try again in a moment.",
                },
            },
            (phase, _) => {
                self.phase = phase;
                MediaAction::Ignore
            },
        }
    }
}

/// A job is queued only for a call within both budgets whose tweet is not
/// known: the phases come in this order and no event skips one.
pub proof fn lemma_media_command_asks_before_queueing(
    call: MediaCommand,
    options: Seq<CommandOption>,
    event: MediaEvent,
    next: MediaPhase,
    action: MediaAction,
)
    requires
        call.is_next(options, event, next, action),
        call.phase !is Over,
    ensures
        action is Enqueue ==> call.phase is LookUp && event == (MediaEvent::Known { known: false }),
        action is LookUp ==> call.phase is CheckChannel && event == (MediaEvent::Allowed {
            allowed: true,
        }),
        action is CheckChannel ==> call.phase is CheckUser && event == (MediaEvent::Allowed {
            allowed: true,
        }),
{
}

// ---------------------------------------------------------------------------
// Replies
// ---------------------------------------------------------------------------
/// What a status reply tells.
#[derive(Debug, Clone, Copy)]
pub struct StatusFacts {
    pub uptime_secs: u64,
    pub queue_depth: usize,
    pub totals: TotalsSnapshot,
    pub dedup_entries: u64,
    pub pending_writes: usize,
    pub resolver: ResolverCacheStats,
}

pub open spec fn status_text(f: StatusFacts) -> Seq<char> {
    "Azalea is online.\nUptime: "@ + decimal(f.uptime_secs as nat) + "s\nQueue depth: "@ + decimal(
        f.queue_depth as nat,
    ) + "\nTotal runs: "@ + decimal(f.totals.total_runs as nat) + " ("@ + decimal(
        f.totals.successes as nat,
    ) + " ok / "@ + decimal(f.totals.failures as nat) + " failed)\nDedup cache: "@ + decimal(
        f.dedup_entries as nat,
    ) + " entries ("@ + decimal(f.pending_writes as nat) + " pending writes)\nResolver cache: "@
        + decimal(f.resolver.positive_entries as nat) + " ok / "@ + decimal(
        f.resolver.negative_entries as nat,
    ) + " negative"@
}

pub fn format_status(f: &StatusFacts) -> (s: String)
    ensures
        s@ == status_text(*f),
{
    let mut s = "Azalea is online.\nUptime: ".to_owned();
    s.append(decimal_of(f.uptime_secs).as_str());
    s.append("s\nQueue depth: ");
    s.append(decimal_of(f.queue_depth as u64).as_str());
    s.append("\nTotal runs: ");
    s.append(decimal_of(f.totals.total_runs).as_str());
    s.append(" (");
    s.append(decimal_of(f.totals.successes).as_str());
    s.append(" ok / ");
    s.append(decimal_of(f.totals.failures).as_str());
    s.append(" failed)\nDedup cache: ");
    s.append(decimal_of(f.dedup_entries).as_str());
    s.append(" entries (");
    s.append(decimal_of(f.pending_writes as u64).as_str());
    s.append(" pending writes)\nResolver cache: ");
    s.append(decimal_of(f.resolver.positive_entries).as_str());
    s.append(" ok / ");
    s.append(decimal_of(f.resolver.negative_entries).as_str());
    s.append(" negative");
    s
}

/// The line of one stage.
pub open spec fn stage_line(stage: Stage, avg_ms: u64, samples: u64) -> Seq<char> {
    if samples == 0 {
        stage.name() + ": no samples in current window"@
    } else {
        stage.name() + ": "@ + decimal(avg_ms as nat) + " ms avg over "@ + decimal(samples as nat)
            + " samples"@
    }
}

fn stage_line_of(stage: Stage, avg_ms: u64, samples: u64) -> (s: String)
    ensures
        s@ == stage_line(stage, avg_ms, samples),
{
    let mut s = stage.as_str().to_owned();
    if samples == 0 {
        s.append(": no samples in current window");
    } else {
        s.append(": ");
        s.append(decimal_of(avg_ms).as_str());
        s.append(" ms avg over ");
        s.append(decimal_of(samples).as_str());
        s.append(" samples");
    }
    s
}

pub open spec fn stats_text(snapshot: Snapshot) -> Seq<char> {
    let w = snapshot.stage_window;
    "Pipeline stats:\nLifetime totals: "@ + decimal(snapshot.totals.total_runs as nat) + " runs ("@
        + decimal(snapshot.totals.successes as nat) + " ok / "@ + decimal(
        snapshot.totals.failures as nat,
    ) + " failed)\nStage timing window: since startup or last successful metrics flush\n"@
        + stage_line(Stage::Resolve, w.avg_ms@[0], w.sample_count@[0]) + "\n"@ + stage_line(
        Stage::Download,
        w.avg_ms@[1],
        w.sample_count@[1],
    ) + "\n"@ + stage_line(Stage::Optimize, w.avg_ms@[2], w.sample_count@[2]) + "\n"@ + stage_line(
        Stage::Upload,
        w.avg_ms@[3],
        w.sample_count@[3],
    )
}

pub fn format_stats(snapshot: &Snapshot) -> (s: String)
    ensures
        s@ == stats_text(*snapshot),
{
    let w = &snapshot.stage_window;
    let mut s = "Pipeline stats:\nLifetime totals: ".to_owned();
    s.append(decimal_of(snapshot.totals.total_runs).as_str());
    s.append(" runs (");
    s.append(decimal_of(snapshot.totals.successes).as_str());
    s.append(" ok / ");
    s.append(decimal_of(snapshot.totals.failures).as_str());
    s.append(" failed)\nStage timing window: since startup or last successful metrics flush\n");
    s.append(stage_line_of(Stage::Resolve, w.avg_ms[0], w.sample_count[0]).as_str());
    s.append("\n");
    s.append(stage_line_of(Stage::Download, w.avg_ms[1], w.sample_count[1]).as_str());
    s.append("\n");
    s.append(stage_line_of(Stage::Optimize, w.avg_ms[2], w.sample_count[2]).as_str());
    s.append("\n");
    s.append(stage_line_of(Stage::Upload, w.avg_ms[3], w.sample_count[3]).as_str());
    s
}

pub open spec fn preset_label(preset: QualityPreset) -> Seq<char> {
    match preset {
        QualityPreset::Fast => "Fast"@,
        QualityPreset::Balanced => "Balanced"@,
        QualityPreset::Quality => "Quality"@,
        QualityPreset::Size => "Size"@,
    }
}

fn preset_label_of(preset: QualityPreset) -> (s: &'static str)
    ensures
        s@ == preset_label(preset),
{
    match preset {
        QualityPreset::Fast => "Fast",
        QualityPreset::Balanced => "Balanced",
        QualityPreset::Quality => "Quality",
        QualityPreset::Size => "Size",
    }
}

pub open spec fn backend_label(backend: HardwareAcceleration) -> Seq<char> {
    match backend {
        HardwareAcceleration::Software => "None"@,
        HardwareAcceleration::Nvenc => "Nvenc"@,
        HardwareAcceleration::Vaapi => "Vaapi"@,
        HardwareAcceleration::VideoToolbox => "VideoToolbox"@,
        HardwareAcceleration::Qsv => "Qsv"@,
        HardwareAcceleration::Amf => "Amf"@,
    }
}

fn backend_label_of(backend: HardwareAcceleration) -> (s: &'static str)
    ensures
        s@ == backend_label(backend),
{
    match backend {
        HardwareAcceleration::Software => "None",
        HardwareAcceleration::Nvenc => "Nvenc",
        HardwareAcceleration::Vaapi => "Vaapi",
        HardwareAcceleration::VideoToolbox => "VideoToolbox",
        HardwareAcceleration::Qsv => "Qsv",
        HardwareAcceleration::Amf => "Amf",
    }
}

pub open spec fn config_text(config: EngineSettings) -> Seq<char> {
    "Config summary:\nmax_upload_bytes="@ + decimal(config.transcode.max_upload_bytes as nat)
        + "\nconcurrency: pipeline="@ + decimal(config.concurrency.pipeline as nat) + " download="@
        + decimal(config.concurrency.download as nat) + " upload="@ + decimal(
        config.concurrency.upload as nat,
    ) + " transcode="@ + decimal(config.concurrency.transcode as nat) + " ytdlp="@ + decimal(
        config.concurrency.ytdlp as nat,
    ) + "\nquality_preset="@ + preset_label(config.transcode.quality_preset) + " hw_accel="@
        + backend_label(config.transcode.hardware_acceleration)
}

/// A summary of the settings without tokens, paths or host names.
pub fn format_config(config: &EngineSettings) -> (s: String)
    ensures
        s@ == config_text(*config),
{
    let mut s = "Config summary:\nmax_upload_bytes=".to_owned();
    s.append(decimal_of(config.transcode.max_upload_bytes).as_str());
    s.append("\nconcurrency: pipeline=");
    s.append(decimal_of(config.concurrency.pipeline as u64).as_str());
    s.append(" download=");
    s.append(decimal_of(config.concurrency.download as u64).as_str());
    s.append(" upload=");
    s.append(decimal_of(config.concurrency.upload as u64).as_str());
    s.append(" transcode=");
    s.append(decimal_of(config.concurrency.transcode as u64).as_str());
    s.append(" ytdlp=");
    s.append(decimal_of(config.concurrency.ytdlp as u64).as_str());
    s.append("\nquality_preset=");
    s.append(preset_label_of(config.transcode.quality_preset));
    s.append(" hw_accel=");
    s.append(backend_label_of(config.transcode.hardware_acceleration));
    s
}

// ---------------------------------------------------------------------------
// What replies tell
// ---------------------------------------------------------------------------
/// Each command has a name of its own, and no other text names one.
pub proof fn lemma_commands_have_their_names(name: Seq<char>)
    ensures
        Command::named("media"@) == Some(Command::Media),
        Command::named("stats"@) == Some(Command::Stats),
        Command::named("config"@) == Some(Command::Config),
        Command::named("status"@) == Some(Command::Status),
        Command::named(name) is Some ==> name == "media"@ || name == "stats"@ || name == "config"@
            || name == "status"@,
{
    reveal_strlit("media");
    reveal_strlit("stats");
    reveal_strlit("config");
    reveal_strlit("status");
    assert("media"@.len() == 5);
    assert("stats"@.len() == 5);
    assert("config"@.len() == 6);
    assert("status"@.len() == 6);
    assert("media"@[0] != "stats"@[0]);
    assert("config"@[0] != "status"@[0]);
}

/// The link is taken from the first option that is named `url`, whatever other
/// options stand around it.
pub proof fn lemma_link_is_the_first_url(options: Seq<CommandOption>, at: int, i: int)
    requires
        0 <= i <= at <= options.len(),
        forall|k: int| i <= k < at ==> (#[trigger] options[k]).name@ != "url"@,
        at < options.len() ==> options[at].name@ == "url"@,
    ensures
        at == options.len() ==> url_text(options, i) is None,
        at < options.len() ==> (options[at].text matches Some(text) ==> url_text(options, i)
            == Some(text@)) && (options[at].text is None ==> url_text(options, i) is None),
    decreases at - i,
{
    if i < at {
        assert(options[i].name@ != "url"@);
        lemma_link_is_the_first_url(options, at, i + 1);
    }
}

/// Each number of the status stands behind its label.
pub proof fn lemma_status_tells_each_number(f: StatusFacts)
    ensures
        holds_within(
            status_text(f),
            "Azalea is online.\nUptime: "@ + decimal(f.uptime_secs as nat),
        ),
        holds_within(status_text(f), "s\nQueue depth: "@ + decimal(f.queue_depth as nat)),
        holds_within(status_text(f), "\nTotal runs: "@ + decimal(f.totals.total_runs as nat)),
        holds_within(status_text(f), " ("@ + decimal(f.totals.successes as nat)),
        holds_within(
            status_text(f),
            " ok / "@ + decimal(f.totals.failures as nat) + " failed)\nDedup cache: "@,
        ),
        holds_within(status_text(f), " failed)\nDedup cache: "@ + decimal(f.dedup_entries as nat)),
        holds_within(status_text(f), " entries ("@ + decimal(f.pending_writes as nat)),
        holds_within(
            status_text(f),
            " pending writes)\nResolver cache: "@ + decimal(f.resolver.positive_entries as nat),
        ),
        holds_within(
            status_text(f),
            " ok / "@ + decimal(f.resolver.negative_entries as nat) + " negative"@,
        ),
{
    let start = Seq::<char>::empty();
    assert(start + "Azalea is online.\nUptime: "@ =~= "Azalea is online.\nUptime: "@);
    lemma_text_grows(start, "Azalea is online.\nUptime: "@, decimal(f.uptime_secs as nat));
    let s1 = "Azalea is online.\nUptime: "@ + decimal(f.uptime_secs as nat);
    lemma_text_grows(s1, "s\nQueue depth: "@, decimal(f.queue_depth as nat));
    let s2 = s1 + "s\nQueue depth: "@ + decimal(f.queue_depth as nat);
    lemma_text_grows(s2, "\nTotal runs: "@, decimal(f.totals.total_runs as nat));
    let s3 = s2 + "\nTotal runs: "@ + decimal(f.totals.total_runs as nat);
    lemma_text_grows(s3, " ("@, decimal(f.totals.successes as nat));
    let s4 = s3 + " ("@ + decimal(f.totals.successes as nat);
    lemma_text_grows(s4, " ok / "@, decimal(f.totals.failures as nat));
    let s5 = s4 + " ok / "@ + decimal(f.totals.failures as nat);
    assert(s4 + (" ok / "@ + decimal(f.totals.failures as nat) + " failed)\nDedup cache: "@)
        + Seq::<char>::empty() =~= s5 + " failed)\nDedup cache: "@);
    assert(holds_within(
        s5 + " failed)\nDedup cache: "@,
        " ok / "@ + decimal(f.totals.failures as nat) + " failed)\nDedup cache: "@,
    ));
    lemma_text_grows(s5, " failed)\nDedup cache: "@, decimal(f.dedup_entries as nat));
    let s6 = s5 + " failed)\nDedup cache: "@ + decimal(f.dedup_entries as nat);
    lemma_text_grows(s6, " entries ("@, decimal(f.pending_writes as nat));
    let s7 = s6 + " entries ("@ + decimal(f.pending_writes as nat);
    lemma_text_grows(
        s7,
        " pending writes)\nResolver cache: "@,
        decimal(f.resolver.positive_entries as nat),
    );
    let s8 = s7 + " pending writes)\nResolver cache: "@ + decimal(f.resolver.positive_entries as nat);
    lemma_text_grows(s8, " ok / "@, decimal(f.resolver.negative_entries as nat));
    let s9 = s8 + " ok / "@ + decimal(f.resolver.negative_entries as nat);
    lemma_text_grows(s9, " negative"@, Seq::empty());
    assert(s9 + " negative"@ + Seq::empty() =~= s9 + " negative"@);
    assert(s8 + (" ok / "@ + decimal(f.resolver.negative_entries as nat) + " negative"@)
        + Seq::<char>::empty() =~= s9 + " negative"@);
}

/// Each setting of the summary stands behind its label.
pub proof fn lemma_summary_tells_each_setting(c: EngineSettings)
    ensures
        holds_within(
            config_text(c),
            "Config summary:\nmax_upload_bytes="@ + decimal(c.transcode.max_upload_bytes as nat),
        ),
        holds_within(
            config_text(c),
            "\nconcurrency: pipeline="@ + decimal(c.concurrency.pipeline as nat),
        ),
        holds_within(config_text(c), " download="@ + decimal(c.concurrency.download as nat)),
        holds_within(config_text(c), " upload="@ + decimal(c.concurrency.upload as nat)),
        holds_within(config_text(c), " transcode="@ + decimal(c.concurrency.transcode as nat)),
        holds_within(config_text(c), " ytdlp="@ + decimal(c.concurrency.ytdlp as nat)),
        holds_within(
            config_text(c),
            "\nquality_preset="@ + preset_label(c.transcode.quality_preset),
        ),
        holds_within(
            config_text(c),
            " hw_accel="@ + backend_label(c.transcode.hardware_acceleration),
        ),
{
    let start = Seq::<char>::empty();
    assert(start + "Config summary:\nmax_upload_bytes="@ =~= "Config summary:\nmax_upload_bytes="@);
    lemma_text_grows(
        start,
        "Config summary:\nmax_upload_bytes="@,
        decimal(c.transcode.max_upload_bytes as nat),
    );
    let s1 = "Config summary:\nmax_upload_bytes="@ + decimal(c.transcode.max_upload_bytes as nat);
    lemma_text_grows(s1, "\nconcurrency: pipeline="@, decimal(c.concurrency.pipeline as nat));
    let s2 = s1 + "\nconcurrency: pipeline="@ + decimal(c.concurrency.pipeline as nat);
    lemma_text_grows(s2, " download="@, decimal(c.concurrency.download as nat));
    let s3 = s2 + " download="@ + decimal(c.concurrency.download as nat);
    lemma_text_grows(s3, " upload="@, decimal(c.concurrency.upload as nat));
    let s4 = s3 + " upload="@ + decimal(c.concurrency.upload as nat);
    lemma_text_grows(s4, " transcode="@, decimal(c.concurrency.transcode as nat));
    let s5 = s4 + " transcode="@ + decimal(c.concurrency.transcode as nat);
    lemma_text_grows(s5, " ytdlp="@, decimal(c.concurrency.ytdlp as nat));
    let s6 = s5 + " ytdlp="@ + decimal(c.concurrency.ytdlp as nat);
    lemma_text_grows(s6, "\nquality_preset="@, preset_label(c.transcode.quality_preset));
    let s7 = s6 + "\nquality_preset="@ + preset_label(c.transcode.quality_preset);
    lemma_text_grows(s7, " hw_accel="@, backend_label(c.transcode.hardware_acceleration));
}

/// The totals stand behind their labels, and each stage has a line with its own
/// numbers.
pub proof fn lemma_stats_tell_each_stage(s: Snapshot)
    ensures
        holds_within(
            stats_text(s),
            "Pipeline stats:\nLifetime totals: "@ + decimal(s.totals.total_runs as nat),
        ),
        holds_within(stats_text(s), " runs ("@ + decimal(s.totals.successes as nat)),
        holds_within(stats_text(s), " ok / "@ + decimal(s.totals.failures as nat)),
        holds_within(
            stats_text(s),
            " failed)\nStage timing window: since startup or last successful metrics flush\n"@
                + stage_line(Stage::Resolve, s.stage_window.avg_ms@[0], s.stage_window.sample_count@[0]),
        ),
        holds_within(
            stats_text(s),
            "\n"@
                + stage_line(Stage::Download, s.stage_window.avg_ms@[1], s.stage_window.sample_count@[1]),
        ),
        holds_within(
            stats_text(s),
            "\n"@
                + stage_line(Stage::Optimize, s.stage_window.avg_ms@[2], s.stage_window.sample_count@[2]),
        ),
        holds_within(
            stats_text(s),
            "\n"@
                + stage_line(Stage::Upload, s.stage_window.avg_ms@[3], s.stage_window.sample_count@[3]),
        ),
{
    let start = Seq::<char>::empty();
    assert(start + "Pipeline stats:\nLifetime totals: "@ =~= "Pipeline stats:\nLifetime totals: "@);
    lemma_text_grows(
        start,
        "Pipeline stats:\nLifetime totals: "@,
        decimal(s.totals.total_runs as nat),
    );
    let s1 = "Pipeline stats:\nLifetime totals: "@ + decimal(s.totals.total_runs as nat);
    lemma_text_grows(s1, " runs ("@, decimal(s.totals.successes as nat));
    let s2 = s1 + " runs ("@ + decimal(s.totals.successes as nat);
    lemma_text_grows(s2, " ok / "@, decimal(s.totals.failures as nat));
    let s3 = s2 + " ok / "@ + decimal(s.totals.failures as nat);
    lemma_text_grows(
        s3,
        " failed)\nStage timing window: since startup or last successful metrics flush\n"@,
        stage_line(Stage::Resolve, s.stage_window.avg_ms@[0], s.stage_window.sample_count@[0]),
    );
    let s4 = s3 + " failed)\nStage timing window: since startup or last successful metrics flush\n"@
        + stage_line(Stage::Resolve, s.stage_window.avg_ms@[0], s.stage_window.sample_count@[0]);
    lemma_text_grows(
        s4,
        "\n"@,
        stage_line(Stage::Download, s.stage_window.avg_ms@[1], s.stage_window.sample_count@[1]),
    );
    let s5 = s4 + "\n"@
        + stage_line(Stage::Download, s.stage_window.avg_ms@[1], s.stage_window.sample_count@[1]);
    lemma_text_grows(
        s5,
        "\n"@,
        stage_line(Stage::Optimize, s.stage_window.avg_ms@[2], s.stage_window.sample_count@[2]),
    );
    let s6 = s5 + "\n"@
        + stage_line(Stage::Optimize, s.stage_window.avg_ms@[2], s.stage_window.sample_count@[2]);
    lemma_text_grows(
        s6,
        "\n"@,
        stage_line(Stage::Upload, s.stage_window.avg_ms@[3], s.stage_window.sample_count@[3]),
    );
}

/// The line of a stage begins with its name and tells the average before the
/// number of samples, where there are any.
pub proof fn lemma_stage_line_tells_average_and_samples(stage: Stage, avg_ms: u64, samples: u64)
    ensures
        stage.name().is_prefix_of(stage_line(stage, avg_ms, samples)),
        samples > 0 ==> stage_line(stage, avg_ms, samples).skip(stage.name().len() as int) == ": "@
            + decimal(avg_ms as nat) + " ms avg over "@ + decimal(samples as nat) + " samples"@,
        samples == 0 ==> stage_line(stage, avg_ms, samples).skip(stage.name().len() as int)
            == ": no samples in current window"@,
{
    let n = stage.name();
    let line = stage_line(stage, avg_ms, samples);
    assert(line.take(n.len() as int) =~= n);
    if samples > 0 {
        assert(line.skip(n.len() as int) =~= ": "@ + decimal(avg_ms as nat) + " ms avg over "@
            + decimal(samples as nat) + " samples"@);
    } else {
        assert(line.skip(n.len() as int) =~= ": no samples in current window"@);
    }
}

/// Presets and backends are told apart.
pub proof fn lemma_labels_tell_settings_apart(
    p: QualityPreset,
    q: QualityPreset,
    a: HardwareAcceleration,
    b: HardwareAcceleration,
)
    ensures
        preset_label(p) == preset_label(q) <==> p == q,
        backend_label(a) == backend_label(b) <==> a == b,
        preset_label(QualityPreset::Fast) == "Fast"@,
        preset_label(QualityPreset::Balanced) == "Balanced"@,
        preset_label(QualityPreset::Size) == "Size"@,
        backend_label(HardwareAcceleration::Software) == "None"@,
        backend_label(HardwareAcceleration::Nvenc) == "Nvenc"@,
        backend_label(HardwareAcceleration::Vaapi) == "Vaapi"@,
        backend_label(HardwareAcceleration::Qsv) == "Qsv"@,
        backend_label(HardwareAcceleration::Amf) == "Amf"@,
{
    reveal_strlit("Fast");
    reveal_strlit("Balanced");
    reveal_strlit("Quality");
    reveal_strlit("Size");
    reveal_strlit("None");
    reveal_strlit("Nvenc");
    reveal_strlit("Vaapi");
    reveal_strlit("VideoToolbox");
    reveal_strlit("Qsv");
    reveal_strlit("Amf");
    assert("Fast"@.len() == 4);
    assert("Balanced"@.len() == 8);
    assert("Quality"@.len() == 7);
    assert("Size"@.len() == 4);
    assert("None"@.len() == 4);
    assert("Nvenc"@.len() == 5);
    assert("Vaapi"@.len() == 5);
    assert("VideoToolbox"@.len() == 12);
    assert("Qsv"@.len() == 3);
    assert("Amf"@.len() == 3);
    assert("Fast"@[0] != "Size"@[0]);
    assert("Fast"@[0] != "None"@[0]);
    assert("Size"@[0] != "None"@[0]);
    assert("Nvenc"@[0] != "Vaapi"@[0]);
    assert("Qsv"@[0] != "Amf"@[0]);
}

/// A reply is one text.
pub proof fn lemma_replies_are_one_text(action: MediaAction, text: Seq<char>, other: Seq<char>)
    requires
        replies(action, text),
    ensures
        action matches MediaAction::Reply { content } && content@ == text,
        replies(action, other) ==> other == text,
{
}

/// A call is answered at once where its link is missing, is none, or is not the
/// only one; with one link that link's tweet is looked up.
pub proof fn lemma_calls_need_one_link(
    options: Seq<CommandOption>,
    next: MediaPhase,
    action: MediaAction,
)
    requires
        after_budgets(options, next, action),
    ensures
        url_text(options, 0) is None ==> (action matches MediaAction::Reply { content } && content@
            == "missing required URL."@),
        url_text(options, 0) matches Some(url) ==> {
            let links = captured_links(tweet_url_captures(url)).len();
            &&& action is LookUp <==> links == 1
            &&& links == 0 ==> (action matches MediaAction::Reply { content } && content@
                == "please provide a valid tweet URL."@)
            &&& links >= 2 ==> (action matches MediaAction::Reply { content } && content@
                == "please provide exactly one tweet URL per command."@)
            &&& action matches MediaAction::LookUp { tweet_id } ==> tweet_id.0 == captured_links(
                tweet_url_captures(url),
            )[0].id
        },
        action is LookUp <==> next is LookUp,
        action is Reply <==> next is Over,
{
}

} // verus!
