//! Resolving media, and the order of the stages.

use azalea::config::{FloatBits, HardwareAcceleration, StorageSettings, USER_AGENT};
use azalea::engine::TranscodeRuntime;
use azalea::media::url::{TweetId, TweetLink};
use azalea::pipeline::errors::{DownloadError, Error, ResolveError};
use azalea::pipeline::probe::{
    ratio, Downloaded, Facts, Input, Output, Part, Report, Resolved, Runtime, StageTimings,
};
use azalea::pipeline::process::JsonSubprocessError;
use azalea::pipeline::resolve::{
    best_format, durable_parse_text, durable_process_text, extension_from_mime_type,
    extension_from_query_format, extension_from_url, extension_from_vxtwitter_metadata,
    inferred_extension, is_image_extension, is_upload_compatible, plain_url_extension,
    select_best_format, select_best_media, should_negative_cache, vx_api_url, vx_resolved,
    vx_timeout, ytdlp_args, ytdlp_exit_error, ytdlp_process_error, ytdlp_resolved, CacheWrite,
    ResolveAction, ResolveEvent, ResolveWalk, VxMedia, YtDlpFormat, YtDlpOutput,
};
use azalea::pipeline::run::{is_slow, PipelineRun, RunAction, RunPhase};
use azalea::pipeline::types::{
    AudioCodec, DownloadedFile, MediaContainer, MediaFacts, MediaType, PreparedPart,
    PreparedUpload, Progress, RequestId, ResolvedMedia, VideoCodec,
};
use azalea::storage::metrics::{Stage, Tracker};

fn float(value: f64) -> FloatBits {
    FloatBits::from_bits(value.to_bits())
}

fn format(
    url: &str,
    ext: &str,
    vcodec: Option<&str>,
    acodec: Option<&str>,
    tbr: Option<f64>,
) -> YtDlpFormat {
    YtDlpFormat {
        url: Some(url.to_string()),
        ext: Some(ext.to_string()),
        vcodec: vcodec.map(|c| c.to_string()),
        acodec: acodec.map(|c| c.to_string()),
        tbr: tbr.map(float),
    }
}

fn listing(formats: Vec<YtDlpFormat>) -> YtDlpOutput {
    YtDlpOutput {
        url: None,
        formats,
        duration: None,
        width: None,
        height: None,
        ext: None,
        thumbnail: Some("https://example.invalid/thumb.jpg".to_string()),
    }
}

#[test]
fn select_best_format_prefers_h264_aac_over_vp9() -> Result<(), ResolveError> {
    let output = listing(vec![
        format(
            "https://example.invalid/vp9.webm",
            "webm",
            Some("vp9"),
            Some("opus"),
            Some(9.0),
        ),
        format(
            "https://example.invalid/h264.mp4",
            "mp4",
            Some("avc1.640028"),
            Some("mp4a.40.2"),
            Some(2.0),
        ),
    ]);

    let selected = select_best_format(&output)?;

    assert_eq!(selected.url, "https://example.invalid/h264.mp4");
    assert_eq!(selected.ext, "mp4");
    assert!(!selected.is_image);
    Ok(())
}

#[test]
fn select_best_format_prefers_vp9_over_thumbnail_when_no_h264_aac_exists(
) -> Result<(), ResolveError> {
    let output = listing(vec![format(
        "https://example.invalid/vp9.webm",
        "webm",
        Some("vp9"),
        Some("opus"),
        Some(9.0),
    )]);

    let selected = select_best_format(&output)?;

    assert_eq!(selected.url, "https://example.invalid/vp9.webm");
    assert_eq!(selected.ext, "webm");
    assert!(!selected.is_image);
    Ok(())
}

#[test]
fn select_best_format_uses_latest_format_on_equal_score() -> Result<(), ResolveError> {
    let output = listing(vec![
        format(
            "https://example.invalid/first.webm",
            "webm",
            Some("vp9"),
            Some("opus"),
            Some(9.0),
        ),
        format(
            "https://example.invalid/second.webm",
            "webm",
            Some("vp9"),
            Some("opus"),
            Some(9.0),
        ),
    ]);

    let selected = select_best_format(&output)?;

    assert_eq!(selected.url, "https://example.invalid/second.webm");
    assert_eq!(selected.ext, "webm");
    assert!(!selected.is_image);
    Ok(())
}

#[test]
fn select_best_format_uses_thumbnail_when_no_downloadable_video_exists(
) -> Result<(), ResolveError> {
    let output = listing(vec![]);

    let selected = select_best_format(&output)?;

    assert_eq!(selected.url, "https://example.invalid/thumb.jpg");
    assert_eq!(selected.ext, "jpg");
    assert!(selected.is_image);
    Ok(())
}

#[test]
fn select_best_format_direct_image_url_is_preserved() -> Result<(), ResolveError> {
    let output = YtDlpOutput {
        url: Some("https://example.invalid/image.jpg".to_string()),
        formats: vec![],
        duration: None,
        width: None,
        height: None,
        ext: Some("jpg".to_string()),
        thumbnail: None,
    };

    let selected = select_best_format(&output)?;

    assert_eq!(selected.url, "https://example.invalid/image.jpg");
    assert_eq!(selected.ext, "jpg");
    assert!(selected.is_image);
    Ok(())
}

#[test]
fn formats_are_ranked_as_the_total_order_of_numbers() {
    let rated = |rates: &[Option<f64>]| {
        let formats: Vec<YtDlpFormat> = rates
            .iter()
            .map(|r| format("https://example.invalid/v", "webm", None, None, *r))
            .collect();
        best_format(&formats)
    };
    assert_eq!(rated(&[Some(1.0), Some(-2.0), Some(0.5)]), Some(0));
    assert_eq!(rated(&[Some(-1.0), Some(-2.0)]), Some(0));
    assert_eq!(rated(&[Some(-0.0), None]), Some(1));
    assert_eq!(rated(&[None, Some(-0.0)]), Some(0));
    assert_eq!(rated(&[Some(f64::NAN), Some(f64::INFINITY)]), Some(0));
    assert_eq!(rated(&[]), None);
    let values = [-1.0, 0.0, 2.5, f64::INFINITY, f64::NEG_INFINITY, -0.0, 1e-300];
    for a in values {
        for b in values {
            let expected = if a.total_cmp(&b).is_gt() { 0 } else { 1 };
            assert_eq!(rated(&[Some(a), Some(b)]), Some(expected), "{a} {b}");
        }
    }
}

#[test]
fn sound_only_and_addressless_formats_are_passed_over() {
    let mut no_url = format("x", "mp4", Some("avc1"), Some("mp4a"), Some(9.0));
    no_url.url = None;
    let sound = format("https://example.invalid/a", "m4a", Some("none"), Some("mp4a"), None);
    assert_eq!(best_format(&vec![no_url, sound]), None);
    let mut bare = listing(vec![]);
    bare.thumbnail = None;
    assert!(matches!(
        select_best_format(&bare),
        Err(ResolveError::ParseFailed(text)) if text == "no formats"
    ));
    let direct = YtDlpOutput { url: Some("u".to_string()), ..listing(vec![]) };
    assert_eq!(select_best_format(&direct).unwrap().ext, "mp4");
    assert!(is_upload_compatible(&format("u", "mp4", Some("x-h264"), Some("aac-lc"), None)));
    assert!(!is_upload_compatible(&format("u", "mp4", Some("avc1"), None, None)));
    assert!(is_image_extension("webp"));
    assert!(!is_image_extension("mp4"));
}

#[test]
fn answers_become_media() {
    let output = YtDlpOutput {
        url: Some("https://example.invalid/v".to_string()),
        formats: vec![],
        duration: Some(float(3.5)),
        width: Some(640),
        height: None,
        ext: Some("MOV".to_string()),
        thumbnail: None,
    };
    let selected = select_best_format(&output).unwrap();
    let media = ytdlp_resolved(&output, selected);
    assert_eq!(media.extension, "mov");
    assert_eq!(media.duration, Some(float(3.5)));
    assert_eq!(media.resolution, None);
    assert_eq!(media.media_type, MediaType::Video);

    let vx = VxMedia {
        url: "https://pbs.twimg.com/a".to_string(),
        media_type: "photo".to_string(),
        duration_millis: None,
        width: Some(3),
        height: Some(4),
    };
    let media = vx_resolved(&vx, ".PNG", None);
    assert_eq!(media.media_type, MediaType::Image);
    assert_eq!(media.extension, "png");
    assert_eq!(media.resolution, Some((3, 4)));
}

#[test]
fn the_first_best_medium_is_chosen() {
    let media = |kinds: &[&str]| {
        kinds
            .iter()
            .map(|k| VxMedia {
                url: String::new(),
                media_type: k.to_string(),
                duration_millis: None,
                width: None,
                height: None,
            })
            .collect::<Vec<_>>()
    };
    assert_eq!(select_best_media(&media(&["image", "gif", "video", "video"])).unwrap(), 2);
    assert_eq!(select_best_media(&media(&["other", "photo", "image"])).unwrap(), 1);
    assert!(matches!(
        select_best_media(&media(&[])),
        Err(ResolveError::ParseFailed(text)) if text == "no media"
    ));
}

#[test]
fn vxtwitter_metadata_extension_uses_query_format() {
    let ext = extension_from_vxtwitter_metadata(
        "image",
        "https://pbs.twimg.com/media/abcd1234?format=png&name=small",
    );

    assert_eq!(ext.as_deref(), Some("png"));
}

#[test]
fn vxtwitter_metadata_extension_uses_gif_type_without_probe() {
    let ext = extension_from_vxtwitter_metadata("gif", "https://video.twimg.com/tweet");

    assert_eq!(ext.as_deref(), Some("gif"));
}

#[test]
fn extensions_are_read_from_addresses() {
    assert_eq!(extension_from_url("https://a.b/c.MP4?x=.y"), Some("mp4".to_string()));
    assert_eq!(extension_from_url("https://a.b/c.ÄB"), Some("äb".to_string()));
    assert_eq!(extension_from_url("https://a.b/c"), None);
    assert_eq!(extension_from_url("https://a.b/c."), None);
    assert_eq!(
        extension_from_query_format("x?a=1&FORMAT=&format=JPG"),
        Some("jpg".to_string())
    );
    assert_eq!(extension_from_query_format("x?format"), None);
    assert_eq!(extension_from_query_format("format=png"), None);
    assert_eq!(extension_from_vxtwitter_metadata("video", "https://v/tweet"), None);
    assert_eq!(plain_url_extension("https://a.b/c.webp?q"), Some("webp".to_string()));
    assert_eq!(plain_url_extension("https://a.b/c.MP4"), None);
}

#[test]
fn extensions_follow_stated_types() {
    assert_eq!(extension_from_mime_type("video/mp4; codecs=x"), "mp4");
    assert_eq!(extension_from_mime_type(" video/quicktime "), "mov");
    assert_eq!(extension_from_mime_type("image/jpeg"), "jpg");
    assert_eq!(extension_from_mime_type("image/svg+xml"), "svg+xml");
    assert_eq!(extension_from_mime_type("octets"), "mp4");
    assert_eq!(inferred_extension("photo", None), "jpg");
    assert_eq!(inferred_extension("gif", None), "gif");
    assert_eq!(inferred_extension("thing", None), "mp4");
    assert_eq!(inferred_extension("photo", Some("video/webm")), "webm");
}

#[test]
fn negative_cache_keeps_protected_tweet_failures() {
    let error = ResolveError::ProcessFailed {
        exit_code: Some(1),
        stderr: "tweet is protected".to_string(),
    };

    assert!(should_negative_cache(&error));
}

#[test]
fn negative_cache_keeps_404_http_status() {
    let error = ResolveError::HttpStatus(404);

    assert!(should_negative_cache(&error));
}

#[test]
fn negative_cache_keeps_durable_parse_failures() {
    let error = ResolveError::ParseFailed("invalid type: null, expected media array".to_string());

    assert!(should_negative_cache(&error));
}

#[test]
fn negative_cache_skips_network_failures() {
    let error = ResolveError::ProcessFailed {
        exit_code: Some(1),
        stderr: "connection reset by peer while fetching media".to_string(),
    };

    assert!(!should_negative_cache(&error));
}

#[test]
fn negative_cache_skips_timeout_failures() {
    let error = ResolveError::ProcessFailed {
        exit_code: Some(1),
        stderr: "yt-dlp timed out after 30s".to_string(),
    };

    assert!(!should_negative_cache(&error));
}

#[test]
fn negative_cache_skips_429_rate_limit_failures() {
    let error = ResolveError::ProcessFailed {
        exit_code: Some(1),
        stderr: "HTTP 429 too many requests".to_string(),
    };

    assert!(!should_negative_cache(&error));
}

#[test]
fn negative_cache_skips_partial_parse_failures() {
    let error = ResolveError::ParseFailed("EOF while parsing a value".to_string());

    assert!(!should_negative_cache(&error));
}

#[test]
fn durable_failures_are_judged_in_any_case() {
    assert!(!should_negative_cache(&ResolveError::HttpStatus(500)));
    let process = |text: &str| ResolveError::ProcessFailed {
        exit_code: None,
        stderr: text.to_string(),
    };
    assert!(should_negative_cache(&process("ÜBER: Tweet DOES NOT EXIST")));
    assert!(!should_negative_cache(&process("private, but the SERVER failed")));
    assert!(!should_negative_cache(&process("something else")));
    assert!(!durable_parse_text("body was truncated"));
    assert!(durable_process_text("no media"));
}

fn link() -> TweetLink {
    TweetLink::new("rustlang".to_string(), TweetId(123), "https://t.co/x".to_string())
}

#[test]
fn resolvers_are_asked_by_canonical_names() {
    assert_eq!(vx_api_url(&link()), "https://api.vxtwitter.com/rustlang/status/123");
    let args = ytdlp_args(&link());
    assert_eq!(args.len(), 9);
    assert_eq!(args[5], USER_AGENT);
    assert_eq!(args[8], "https://x.com/rustlang/status/123");
}

#[test]
fn process_failures_become_resolve_failures() {
    let text = |e: ResolveError| e.message();
    assert_eq!(text(vx_timeout()), "process failed (exit None): vxtwitter timed out");
    assert_eq!(
        text(ytdlp_process_error(JsonSubprocessError::Timeout)),
        "process failed (exit None): yt-dlp timed out"
    );
    assert_eq!(
        text(ytdlp_process_error(JsonSubprocessError::OutputLimit {
            stderr_tail: "tail".to_string()
        })),
        "process failed (exit None): yt-dlp output exceeded limit: tail"
    );
    assert_eq!(
        text(ytdlp_process_error(JsonSubprocessError::Io(std::io::Error::other("boom")))),
        "process failed (exit None): boom"
    );
    assert_eq!(
        text(ytdlp_exit_error(Some(1), "first\r\nsecond")),
        "process failed (exit Some(1)): first"
    );
    assert_eq!(
        text(ytdlp_exit_error(None, "")),
        "process failed (exit None): unknown error"
    );
}

fn media() -> ResolvedMedia {
    ResolvedMedia {
        url: "https://video.twimg.com/v.mp4".to_string(),
        media_type: MediaType::Video,
        duration: Some(float(2.0)),
        resolution: Some((640, 360)),
        extension: "mp4".to_string(),
        needs_container_fix: false,
    }
}

#[test]
fn the_chain_asks_caches_before_resolvers() {
    let mut walk = ResolveWalk::new();
    assert!(matches!(
        walk.on_event(ResolveEvent::Negative { entry: None }),
        ResolveAction::LookUpPositive
    ));
    assert!(matches!(
        walk.on_event(ResolveEvent::Positive { entry: None }),
        ResolveAction::AskApi
    ));
    assert!(matches!(
        walk.on_event(ResolveEvent::Answer { result: Ok(media()) }),
        ResolveAction::Finish { write: Some(CacheWrite::Success), result: Ok(_) }
    ));
    assert!(matches!(
        walk.on_event(ResolveEvent::PermitGranted { granted: true }),
        ResolveAction::Ignore
    ));

    let mut known_bad = ResolveWalk::new();
    assert!(matches!(
        known_bad.on_event(ResolveEvent::Negative { entry: Some(ResolveError::HttpStatus(404)) }),
        ResolveAction::Finish {
            write: None,
            result: Err(Error::ResolveFailed {
                resolver: "negative-cache",
                source: ResolveError::HttpStatus(404)
            })
        }
    ));
    let mut known = ResolveWalk::new();
    known.on_event(ResolveEvent::Negative { entry: None });
    assert!(matches!(
        known.on_event(ResolveEvent::Positive { entry: Some(media().duplicate()) }),
        ResolveAction::Finish { write: None, result: Ok(m) } if m.extension == "mp4"
    ));
}

fn after_api(error: ResolveError) -> ResolveWalk {
    let mut walk = ResolveWalk::new();
    walk.on_event(ResolveEvent::Negative { entry: None });
    walk.on_event(ResolveEvent::Positive { entry: None });
    assert!(matches!(
        walk.on_event(ResolveEvent::Answer { result: Err(error) }),
        ResolveAction::AcquirePermit
    ));
    walk
}

#[test]
fn only_lasting_failures_are_cached() {
    let passing = || ResolveError::HttpStatus(503);
    let lasting = || ResolveError::HttpStatus(404);

    let mut walk = after_api(passing());
    walk.on_event(ResolveEvent::PermitGranted { granted: true });
    assert!(matches!(
        walk.on_event(ResolveEvent::Answer { result: Err(passing()) }),
        ResolveAction::Finish { write: None, result: Err(_) }
    ));

    let mut walk = after_api(lasting());
    assert!(matches!(
        walk.on_event(ResolveEvent::PermitGranted { granted: true }),
        ResolveAction::RunProgram
    ));
    assert!(matches!(
        walk.on_event(ResolveEvent::Answer { result: Err(passing()) }),
        ResolveAction::Finish {
            write: Some(CacheWrite::Failure { error: ResolveError::HttpStatus(404) }),
            result: Err(Error::ResolveFailed {
                resolver: "yt-dlp",
                source: ResolveError::HttpStatus(503)
            })
        }
    ));

    let mut closed = after_api(lasting());
    match closed.on_event(ResolveEvent::PermitGranted { granted: false }) {
        ResolveAction::Finish { write: None, result: Err(error) } => assert_eq!(
            error.message(),
            "resolve failed (yt-dlp): process failed (exit None): ytdlp semaphore closed"
        ),
        other => panic!("unexpected action: {other:?}"),
    }
}

#[test]
fn a_run_goes_through_its_stages() {
    let mut metrics = Tracker::new(&StorageSettings::default());
    let mut run = PipelineRun::new();
    assert!(matches!(
        run.reserved(true),
        RunAction::StartStage { stage: Stage::Resolve, progress: Progress::Resolving }
    ));
    assert!(matches!(
        run.stage_done(&mut metrics, 10),
        RunAction::StartStage { stage: Stage::Download, progress: Progress::Downloading }
    ));
    assert!(matches!(
        run.stage_done(&mut metrics, 20),
        RunAction::StartStage { stage: Stage::Optimize, progress: Progress::Optimizing }
    ));
    assert!(matches!(run.stage_done(&mut metrics, 30), RunAction::Finish));
    assert_eq!(run.phase, RunPhase::Over);
    assert_eq!(metrics.snapshot().stage_window.avg_ms, [10, 20, 30, 0]);
    assert_eq!(metrics.snapshot().totals.total_runs, 0);

    let mut refused = PipelineRun::new();
    assert!(matches!(refused.reserved(false), RunAction::RefuseDuplicate));
}

#[test]
fn a_failed_stage_is_counted_by_its_kind() {
    let mut metrics = Tracker::new(&StorageSettings::default());
    let mut run = PipelineRun::new();
    run.reserved(true);
    run.stage_done(&mut metrics, 1);
    let blocked = Error::DownloadFailed { source: DownloadError::SsrfBlocked("x".to_string()) };
    assert!(matches!(
        run.stage_failed(&mut metrics, &blocked),
        RunAction::ClearMarkerAndFail
    ));
    let mut other = PipelineRun::new();
    other.reserved(true);
    other.stage_failed(&mut metrics, &Error::Duplicate);
    assert_eq!(metrics.errors.count("ssrf_blocked"), 1);
    assert_eq!(metrics.errors.count("resolve_failed"), 1);
    assert_eq!(metrics.errors.count("download_failed"), 0);
    assert_eq!(metrics.errors.len(), 2);
    assert_eq!(metrics.snapshot().totals.failures, 2);
    assert!(is_slow(Stage::Resolve, 8_001));
    assert!(!is_slow(Stage::Resolve, 8_000));
    assert!(is_slow(Stage::Download, 20_001));
    assert!(!is_slow(Stage::Optimize, 30_000));
}

#[test]
fn reports_describe_a_run() {
    let input = Input::new(RequestId(1), 2, 3, link());
    let job = input.into_job();
    let file = DownloadedFile {
        path: "/tmp/v.mp4".to_string(),
        size: 100,
        duration: Some(float(2.0)),
        resolution: Some((640, 360)),
        facts: MediaFacts {
            container: MediaContainer::Matroska,
            video_codec: VideoCodec::H265,
            audio_codec: AudioCodec::Absent,
            bitrate_kbps: Some(9),
        },
        upload_ready_bytes: Some(vec![0; 7]),
    };
    let prepared = PreparedUpload::split(vec![
        PreparedPart::new("a".to_string(), 40),
        PreparedPart::with_upload_ready_bytes("b".to_string(), 50, vec![0; 50]),
    ]);
    let output = Output::from_prepared(&prepared, 100, 80);
    assert_eq!(output.kind, "split");
    assert_eq!(output.total_size_bytes, 90);
    assert!(!output.fits_single_upload);
    assert_eq!(output.size_ratio_to_download, Some((90, 100)));
    assert_eq!(output.parts[1].upload_ready_memory_bytes, Some(50));
    let mut runtime = TranscodeRuntime::new(HardwareAcceleration::Qsv);
    runtime.record_encode(true, 5);
    let report = Report::assemble(
        &job,
        9,
        StageTimings { resolve_ms: 1, download_ms: 2, optimize_ms: 3 },
        Resolved::from_media(&media()),
        Downloaded::from_file(&file),
        output,
        Runtime::from_runtime(&runtime),
    );
    assert_eq!(report.tweet_id, 123);
    assert_eq!(report.canonical_url, "https://x.com/rustlang/status/123");
    assert_eq!(report.resolved.media_type, "video");
    assert_eq!(report.downloaded.facts.container, "matroska");
    assert_eq!(report.downloaded.facts.audio_codec, "none");
    assert_eq!(report.downloaded.upload_ready_memory_bytes, Some(7));
    assert_eq!(report.runtime.configured_backend, "qsv");
    assert_eq!(report.runtime.hw_avg_duration_ms, 5);
    assert_eq!(ratio(1, 0), None);
    assert_eq!(Facts::from_facts(MediaFacts::default()).video_codec, "other");
    assert_eq!(Part::from_part(&PreparedPart::new("p".to_string(), 1)).kept_path, None);
    assert_eq!(
        Output::from_prepared(
            &PreparedUpload::single(PreparedPart::new("a".to_string(), 40)),
            0,
            40
        )
        .size_ratio_to_download,
        None
    );
}
