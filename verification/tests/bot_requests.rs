//! Commands, messages, budgets and replies.

use azalea::bot::commands::{
    choose_link, format_config, format_stats, format_status, Command, CommandOption, MediaAction,
    MediaCommand, MediaEvent, QueueOutcome, StatusFacts, URL_OPTION,
};
use azalea::bot::event::{
    is_addressed, shard_action, MessageAction, MessageWalk, ShardAction, ShardInput,
    ShutdownSignal,
};
use azalea::bot::ids::{ApplicationId, ChannelId, InteractionId, MessageId, RequestCounter, UserId};
use azalea::bot::job::{Error, Job};
use azalea::bot::ratelimit::{ChannelRateLimiter, UserRateLimiter, WindowCount};
use azalea::bot::responder::{
    error_notification_policy, progress_text, send_error, should_send_progress, ErrorAction,
    ErrorNotificationPolicy, ProgressUpdates,
};
use azalea::config::{EngineSettings, HardwareAcceleration, StorageSettings};
use azalea::media::url::{parse_tweet_urls, TweetId, TweetLink};
use azalea::pipeline::errors::Error as CoreError;
use azalea::pipeline::resolve::ResolverCacheStats;
use azalea::pipeline::types::{Progress, RequestId};
use azalea::storage::metrics::{Stage, TotalsSnapshot, Tracker};

fn url_option(value: &str) -> Vec<CommandOption> {
    vec![CommandOption { name: "url".to_string(), text: Some(value.to_string()) }]
}

/// Answer every question of a call with yes until it replies.
fn handle_media_command(
    channel_id: Option<ChannelId>,
    author_id: Option<UserId>,
    options: Vec<CommandOption>,
) -> String {
    let (mut call, mut action) = MediaCommand::start(channel_id, author_id);
    loop {
        let event = match action {
            MediaAction::CheckUser | MediaAction::CheckChannel => {
                MediaEvent::Allowed { allowed: true }
            }
            MediaAction::LookUp { .. } => MediaEvent::Known { known: false },
            MediaAction::Enqueue { .. } => MediaEvent::Queue { outcome: QueueOutcome::Queued },
            MediaAction::Reply { content } => return content.to_string(),
            MediaAction::Ignore => panic!("an event was ignored"),
        };
        action = call.on_event(&options, event);
    }
}

#[test]
fn handle_media_command_rejects_missing_channel() {
    let response = handle_media_command(
        None,
        Some(UserId::new(42)),
        url_option("https://x.com/rustlang/status/123"),
    );
    assert_eq!(response, "this command can only be used in a channel.");
}

#[test]
fn handle_media_command_rejects_missing_author() {
    let response = handle_media_command(
        Some(ChannelId::new(24)),
        None,
        url_option("https://x.com/rustlang/status/123"),
    );
    assert_eq!(response, "could not determine the command author.");
}

#[test]
fn handle_media_command_rejects_missing_url() {
    let response =
        handle_media_command(Some(ChannelId::new(25)), Some(UserId::new(43)), Vec::new());
    assert_eq!(response, "missing required URL.");
}

#[test]
fn handle_media_command_rejects_invalid_url() {
    let response = handle_media_command(
        Some(ChannelId::new(26)),
        Some(UserId::new(44)),
        url_option("not-a-url"),
    );
    assert_eq!(response, "please provide a valid tweet URL.");
}

#[test]
fn handle_media_command_rejects_multiple_urls() {
    let response = handle_media_command(
        Some(ChannelId::new(27)),
        Some(UserId::new(45)),
        url_option("https://x.com/rustlang/status/123 https://x.com/rustlang/status/456"),
    );
    assert_eq!(response, "please provide exactly one tweet URL per command.");
}

#[test]
fn media_command_queues_one_link() {
    let options = url_option("https://twitter.com/rustlang/status/123");
    assert_eq!(
        handle_media_command(Some(ChannelId(1)), Some(UserId(2)), options),
        "Queued for processing."
    );
    let no_text = vec![CommandOption { name: URL_OPTION.to_string(), text: None }];
    assert_eq!(
        handle_media_command(Some(ChannelId(1)), Some(UserId(2)), no_text),
        "missing required URL."
    );
}

/// The reply to the last of these events.
fn reply_after(events: &[MediaEvent]) -> String {
    let options = url_option("https://x.com/rustlang/status/123");
    let (mut call, mut action) = MediaCommand::start(Some(ChannelId(1)), Some(UserId(2)));
    for event in events {
        action = call.on_event(&options, *event);
    }
    match action {
        MediaAction::Reply { content } => content.to_string(),
        other => panic!("no reply: {other:?}"),
    }
}

#[test]
fn media_command_explains_refusals() {
    let yes = MediaEvent::Allowed { allowed: true };
    let no = MediaEvent::Allowed { allowed: false };
    let new = MediaEvent::Known { known: false };
    let queue = |outcome| MediaEvent::Queue { outcome };
    assert_eq!(reply_after(&[no]), "you're sending requests too quickly. please slow down.");
    assert_eq!(
        reply_after(&[yes, no]),
        "this channel is receiving too many requests. please try again later."
    );
    assert_eq!(
        reply_after(&[yes, yes, MediaEvent::Known { known: true }]),
        "that tweet was already processed recently in this channel."
    );
    assert_eq!(
        reply_after(&[yes, yes, new, queue(QueueOutcome::Closed)]),
        "job queue is unavailable right now. please try again later."
    );
    assert_eq!(
        reply_after(&[yes, yes, new, queue(QueueOutcome::TimedOut)]),
        "queue is busy right now. please try again in a moment."
    );
    let (mut call, _) = MediaCommand::start(Some(ChannelId(1)), Some(UserId(2)));
    assert!(matches!(call.on_event(&vec![], new), MediaAction::Ignore));
    assert!(matches!(call.on_event(&vec![], yes), MediaAction::CheckChannel));
}

#[test]
fn commands_are_known_by_name() {
    for command in Command::all() {
        assert_eq!(Command::from_name(command.name()), Some(command));
    }
    assert_eq!(Command::all().map(|c| c.name()), ["media", "status", "stats", "config"]);
    assert_eq!(Command::from_name("other"), None);
    assert_eq!(Command::Media.description(), "Process a tweet URL");
    assert_eq!(Command::Status.description(), "Show bot status");
    assert_eq!(Command::Stats.description(), "Show pipeline statistics");
    assert_eq!(Command::Config.description(), "Show configuration summary");
    let links = parse_tweet_urls("https://x.com/a/status/5");
    assert_eq!(choose_link(&links).unwrap().tweet_id, TweetId(5));
}

#[test]
fn replies_sum_up_the_bot() {
    let totals = TotalsSnapshot { total_runs: 3, successes: 2, failures: 1 };
    let facts = StatusFacts {
        uptime_secs: 60,
        queue_depth: 4,
        totals,
        dedup_entries: 5,
        pending_writes: 6,
        resolver: ResolverCacheStats { positive_entries: 7, negative_entries: 8 },
    };
    assert_eq!(
        format_status(&facts),
        "Azalea is online.\nUptime: 60s\nQueue depth: 4\nTotal runs: 3 (2 ok / 1 failed)\nDedup cache: 5 entries (6 pending writes)\nResolver cache: 7 ok / 8 negative"
    );
    let mut tracker = Tracker::new(&StorageSettings::default());
    tracker.record_success();
    tracker.record_stage_duration(Stage::Download, 30);
    tracker.record_stage_duration(Stage::Download, 50);
    assert_eq!(
        format_stats(&tracker.snapshot()),
        "Pipeline stats:\nLifetime totals: 1 runs (1 ok / 0 failed)\nStage timing window: since startup or last successful metrics flush\nresolve: no samples in current window\ndownload: 40 ms avg over 2 samples\noptimize: no samples in current window\nupload: no samples in current window"
    );
    let mut settings = EngineSettings::default();
    settings.transcode.hardware_acceleration = HardwareAcceleration::Nvenc;
    assert_eq!(
        format_config(&settings),
        "Config summary:\nmax_upload_bytes=8388608\nconcurrency: pipeline=8 download=4 upload=2 transcode=1 ytdlp=1\nquality_preset=Fast hw_accel=Nvenc"
    );
    settings.transcode.hardware_acceleration = HardwareAcceleration::Software;
    assert!(format_config(&settings).ends_with("hw_accel=None"));
}

#[test]
fn only_mentions_by_people_count() {
    let bot = ApplicationId::new(9);
    assert!(is_addressed(false, &vec![UserId(1), UserId(9)], bot));
    assert!(!is_addressed(false, &vec![UserId(1)], bot));
    assert!(!is_addressed(true, &vec![UserId(9)], bot));
    assert!(!is_addressed(false, &vec![], bot));
}

#[test]
fn messages_queue_each_tweet_once() {
    let links = parse_tweet_urls(
        "https://x.com/a/status/1 https://x.com/b/status/1 https://x.com/c/status/2 https://x.com/d/status/3",
    );
    assert!(MessageWalk::start(false, &links).is_none());
    assert!(MessageWalk::start(true, &parse_tweet_urls("no link")).is_none());
    let mut walk = MessageWalk::start(true, &links).expect("addressed with links");
    assert_eq!(walk.on_user(true).action, MessageAction::CheckChannel);
    assert_eq!(walk.on_channel(true).action, MessageAction::LookUp { place: 0 });
    assert_eq!(walk.on_lookup(false).action, MessageAction::Enqueue { place: 0 });
    let busy = walk.on_queue(QueueOutcome::TimedOut);
    assert_eq!(busy.action, MessageAction::LookUp { place: 2 });
    let notice = busy.notice.expect("a busy queue is told");
    assert_eq!(notice.content, "Queue is busy right now. Please try again in a moment.");
    assert!(!notice.reply);
    assert_eq!(walk.on_lookup(true).action, MessageAction::LookUp { place: 3 });
    assert_eq!(walk.on_lookup(false).action, MessageAction::Enqueue { place: 3 });
    let end = walk.on_queue(QueueOutcome::Closed);
    assert_eq!(end.action, MessageAction::Stop);
    assert!(end.notice.is_none());
}

#[test]
fn messages_over_budget_are_answered() {
    let links = parse_tweet_urls("https://x.com/a/status/1");
    let mut walk = MessageWalk::start(true, &links).expect("addressed");
    let step = walk.on_user(false);
    assert_eq!(step.action, MessageAction::Stop);
    let notice = step.notice.expect("told");
    assert!(notice.reply);
    assert_eq!(notice.content, "⏳ You're sending requests too quickly. Please slow down.");
    let mut walk = MessageWalk::start(true, &links).expect("addressed");
    walk.on_user(true);
    let notice = walk.on_channel(false).notice.expect("told");
    assert_eq!(
        notice.content,
        "⏳ This channel is receiving too many requests. Please try again later."
    );
}

#[test]
fn shards_run_until_shutdown() {
    assert_eq!(shard_action(ShardInput::Shutdown), ShardAction::CloseAndStop);
    assert_eq!(shard_action(ShardInput::GatewayClosed), ShardAction::Continue);
    assert_eq!(shard_action(ShardInput::Event), ShardAction::Dispatch);
    assert_eq!(shard_action(ShardInput::ReceiveFailed), ShardAction::Continue);
    assert_eq!(shard_action(ShardInput::Ended), ShardAction::Stop);
    assert_eq!(ShutdownSignal::CtrlC.name(), "ctrl_c");
    assert_eq!(ShutdownSignal::Sigterm.name(), "sigterm");
}

#[test]
fn zero_limit_disables_rate_limiting() {
    let limiter = UserRateLimiter::new(0, 60);
    let mut count = WindowCount::new();
    for _ in 0..10 {
        assert!(limiter.check(&mut count));
    }
}

#[test]
fn per_user_limit_is_enforced() {
    let limiter = UserRateLimiter::new(2, 60);
    let mut count = WindowCount::new();

    assert!(limiter.check(&mut count));
    assert!(limiter.check(&mut count));
    assert!(!limiter.check(&mut count));
}

#[test]
fn users_are_isolated() {
    let limiter = UserRateLimiter::new(1, 60);
    let mut user_a = WindowCount::new();
    let mut user_b = WindowCount::new();

    assert!(limiter.check(&mut user_a));
    assert!(limiter.check(&mut user_b));
    assert!(!limiter.check(&mut user_a));
    assert!(!limiter.check(&mut user_b));
}

#[test]
fn channel_budgets_wrap_around() {
    let limiter = ChannelRateLimiter::new(1, 60);
    let mut count = WindowCount { requests: u32::MAX };
    assert!(!limiter.check(&mut count));
    assert!(limiter.check(&mut count));
}

#[test]
fn duplicate_errors_use_silent_delete_policy() {
    let error = Error::Core(CoreError::Duplicate);
    assert_eq!(error_notification_policy(&error), ErrorNotificationPolicy::SilentDelete);
}

#[test]
fn non_duplicate_errors_use_visible_error_policy() {
    let error =
        Error::UploadFailed { part: 1, total: 1, source: "upload failed".to_string() };
    assert_eq!(error_notification_policy(&error), ErrorNotificationPolicy::VisibleError);
}

#[test]
fn inflight_transcoding_updates_respect_debounce() {
    let debounce = 5_000;

    assert!(!should_send_progress(&Progress::Transcoding(1, 3), 0, debounce));
    assert!(should_send_progress(&Progress::Transcoding(3, 3), 0, debounce));
    assert!(should_send_progress(&Progress::Uploading, 0, debounce));
    assert!(should_send_progress(&Progress::Transcoding(1, 3), 5_000, debounce));
}

#[test]
fn errors_replace_the_status_message() {
    let told = Error::DiscordApi { operation: "delete_message", source: "gone".to_string() };
    let silent = Error::Core(CoreError::Duplicate);
    assert!(matches!(
        send_error(&told, true),
        ErrorAction::EditStatus { content: "❌ An internal error occurred." }
    ));
    assert!(matches!(send_error(&told, false), ErrorAction::NewMessage { .. }));
    assert!(matches!(send_error(&silent, true), ErrorAction::DeleteStatus));
    assert!(matches!(send_error(&silent, false), ErrorAction::Nothing));
    assert_eq!(told.message(), "discord api error (delete_message): gone");
    let upload = Error::UploadFailed { part: 1, total: 2, source: "boom".to_string() };
    assert_eq!(upload.message(), "upload failed (1/2): boom");
    assert_eq!(upload.user_message(), "❌ Failed to upload media to Discord.");
    assert_eq!(progress_text(&Progress::Uploading), format!("Processing: {}", Progress::Uploading.message()));
}

#[test]
fn held_back_progress_is_shown_at_the_end() {
    let mut updates = ProgressUpdates::new();
    assert!(updates.on_stage(Progress::Resolving, 0, 3_000));
    assert!(!updates.on_stage(Progress::Transcoding(1, 9), 10, 3_000));
    assert!(!updates.on_stage(Progress::Transcoding(2, 9), 20, 3_000));
    assert_eq!(updates.finish(), Some(Progress::Transcoding(2, 9)));
    assert!(updates.on_stage(Progress::Transcoding(2, 9), 3_000, 3_000));
    assert!(!updates.on_stage(Progress::Transcoding(2, 9), 1, 3_000));
    assert_eq!(updates.finish(), None);
}

#[test]
fn ids_keep_their_numbers() {
    assert_eq!(ApplicationId::from_setting(7).unwrap().get(), 7);
    assert_eq!(ApplicationId::from_setting(0), Err("application_id must be non-zero"));
    assert_eq!(InteractionId::new(3).get(), 3);
    assert_eq!(MessageId::new(4).get(), 4);
    let mut counter = RequestCounter::new();
    assert_eq!(counter.next_request_id(), 1);
    assert_eq!(counter.next_request_id(), 2);
    let mut last = RequestCounter { next: u64::MAX };
    assert_eq!(last.next_request_id(), u64::MAX);
    assert_eq!(last.next_request_id(), 0);
    let link = TweetLink::new("u".to_string(), TweetId(6), "o".to_string());
    let job = Job::new(RequestId(1), ChannelId(2), 3, Some(MessageId(4)), UserId(5), link);
    let core = job.core_job();
    assert_eq!((core.request_id, core.scope_id, core.job_id), (RequestId(1), 2, 3));
    assert_eq!(core.tweet_url.canonical_url(), "https://x.com/u/status/6");
}
