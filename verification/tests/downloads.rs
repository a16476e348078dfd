//! Ranges, buffers, redirects and probes of the download stage.

use azalea::config::{EngineSettings, FloatBits};
use azalea::pipeline::download::{
    bounded_upload_ready_buffer, can_keep_download_memory_only, check_range_response,
    classify_response, download_metadata, download_timed_out, downloaded_file, extra_workers,
    ffprobe_args, ffprobe_output, first_range, follow_redirect, job_dir_name, job_file_name,
    parse_bitrate_kbps, parse_content_range, plan_download, range_header_value, read_probe,
    resolver_metadata_missing, upload_ready_buffer_limit, validated_target, BitrateText, Body,
    ByteRange, ChunkAction, ChunkQueue, ContentRange, DownloadPlan, FfprobeFormat, FfprobeOutput,
    FfprobeStream, ProbeResult, RangeWrite, RedirectWalk, StreamState, MAX_REDIRECTS,
};
use azalea::pipeline::errors::{DownloadError, Error, IoCause};
use azalea::pipeline::process::{JsonSubprocessError, JsonSubprocessOutput};
use azalea::pipeline::types::{
    AudioCodec, MediaContainer, MediaFacts, MediaType, ResolvedMedia, VideoCodec,
};

fn float(value: f64) -> FloatBits {
    FloatBits::from_bits(value.to_bits())
}

fn reason(error: Error) -> String {
    match error {
        Error::DownloadFailed { source: DownloadError::WriteFailed(IoCause::Other(text)) } => text,
        other => panic!("unexpected error: {other:?}"),
    }
}

fn media(media_type: MediaType) -> ResolvedMedia {
    ResolvedMedia {
        url: "https://pbs.twimg.com/media/a.jpg".to_string(),
        media_type,
        duration: None,
        resolution: Some((1200, 800)),
        extension: "jpg".to_string(),
        needs_container_fix: false,
    }
}

#[test]
fn parses_ffprobe_bitrate_in_kbps() {
    assert_eq!(parse_bitrate_kbps("1234567"), BitrateText::Kbps { kbps: 1235 });
    assert_eq!(parse_bitrate_kbps("nope"), BitrateText::Absent);
}

#[test]
fn bitrates_at_the_edges() {
    assert_eq!(parse_bitrate_kbps("1000"), BitrateText::Kbps { kbps: 1 });
    assert_eq!(parse_bitrate_kbps("1001"), BitrateText::Kbps { kbps: 2 });
    assert_eq!(parse_bitrate_kbps("0"), BitrateText::Absent);
    assert_eq!(parse_bitrate_kbps("N/A"), BitrateText::Absent);
    assert_eq!(parse_bitrate_kbps("4294967295000"), BitrateText::Kbps { kbps: u32::MAX });
    assert_eq!(parse_bitrate_kbps("4294967295001"), BitrateText::Absent);
    assert_eq!(parse_bitrate_kbps("128000.5"), BitrateText::Fraction);
    assert_eq!(parse_bitrate_kbps("-1"), BitrateText::Fraction);
}

#[test]
fn upload_ready_buffer_is_only_allocated_for_under_limit_candidates() {
    let config = EngineSettings::default();

    let bounded = bounded_upload_ready_buffer(
        Some(config.pipeline.upload_ready_buffer_max_bytes),
        &config,
    );
    assert!(bounded.is_some());

    let oversized = bounded_upload_ready_buffer(
        Some(config.pipeline.upload_ready_buffer_max_bytes + 1),
        &config,
    );
    assert!(oversized.is_none());
}

#[test]
fn upload_ready_buffer_respects_memory_cap_below_upload_limit() {
    let mut config = EngineSettings::default();
    config.pipeline.upload_ready_buffer_max_bytes = 1024;

    let bounded = bounded_upload_ready_buffer(Some(1024), &config);
    assert_eq!(bounded.map(|buffer| buffer.capacity()), Some(1024));
    assert_eq!(bounded_upload_ready_buffer(Some(1025), &config), None);
}

#[test]
fn upload_ready_streaming_limit_uses_memory_cap_not_upload_cap() {
    let mut config = EngineSettings::default();
    config.transcode.max_upload_bytes = 8 * 1024;
    config.pipeline.upload_ready_buffer_max_bytes = 1024;

    assert_eq!(upload_ready_buffer_limit(&config), 1024);
    assert!(bounded_upload_ready_buffer(None, &config).is_some());
}

#[test]
fn memory_only_download_requires_known_under_limit_size_and_no_probe() {
    let mut config = EngineSettings::default();
    config.pipeline.upload_ready_buffer_max_bytes = 1024;

    assert!(can_keep_download_memory_only(Some(1024), false, &config));
    assert!(!can_keep_download_memory_only(Some(1025), false, &config));
    assert!(!can_keep_download_memory_only(None, false, &config));
    assert!(!can_keep_download_memory_only(Some(1024), true, &config));
}

#[test]
fn memory_download_transition_preserves_buffered_prefix() {
    let mut config = EngineSettings::default();
    config.pipeline.upload_ready_buffer_max_bytes = 3;
    let mut state = StreamState::begin(Some(3), true, &config);
    let mut file: Vec<u8> = Vec::new();

    assert!(matches!(state.on_chunk(b"abc"), ChunkAction::Keep));
    match state.on_chunk(b"def") {
        ChunkAction::OpenAndAppend { buffered } => {
            file.extend_from_slice(&buffered);
            file.extend_from_slice(b"def");
        }
        other => panic!("unexpected action: {other:?}"),
    }
    assert_eq!(file, b"abcdef");
    assert_eq!(state.downloaded, 6);
}

#[test]
fn a_stream_ends_as_its_size_says() {
    let config = EngineSettings::default();
    let mut whole = StreamState::begin(Some(4), false, &config);
    assert!(matches!(whole.on_chunk(b"ab"), ChunkAction::Append));
    assert!(matches!(whole.on_chunk(b"cd"), ChunkAction::Append));
    let (n, bytes) = whole.finish().expect("whole body");
    assert_eq!(n, 4);
    assert_eq!(bytes.as_deref(), Some(b"abcd".as_slice()));

    let mut short = StreamState::begin(Some(4), false, &config);
    short.on_chunk(b"ab");
    assert_eq!(reason(short.finish().unwrap_err()), "download incomplete");

    let empty = StreamState::begin(None, false, &config);
    assert!(matches!(
        empty.finish(),
        Err(Error::DownloadFailed { source: DownloadError::EmptyResponse })
    ));
}

#[test]
fn a_stream_over_the_limit_is_dropped() {
    let mut config = EngineSettings::default();
    config.pipeline.max_download_bytes = 3 * 1024 * 1024;
    let mut state = StreamState::begin(None, false, &config);
    let chunk = vec![0u8; 2 * 1024 * 1024];
    assert!(matches!(state.on_chunk(&chunk), ChunkAction::Append));
    assert!(matches!(
        state.on_chunk(&chunk),
        ChunkAction::Abort {
            remove_file: true,
            error: Error::DownloadFailed {
                source: DownloadError::TooLarge { size_mb: 4, max_mb: 3 }
            },
        }
    ));
}

#[test]
fn fetch_with_redirects_returns_depth_error_at_limit() {
    let mut current = "https://pbs.twimg.com/media/start.mp4".to_string();
    let mut fetches = 0;
    let mut validations = 0;
    let mut hop = 0;
    let error = loop {
        fetches += 1;
        let location = format!("/media/hop-{fetches}");
        match follow_redirect(hop, &current, Some(&location)) {
            Ok(next) => {
                validations += 1;
                current = next;
                hop += 1;
            }
            Err(error) => break error,
        }
    };

    assert!(error.message().contains("too many redirects"));
    assert_eq!(fetches, MAX_REDIRECTS + 1);
    assert_eq!(validations, MAX_REDIRECTS);
    assert_eq!(current, "https://pbs.twimg.com/media/hop-5");
}

#[test]
fn fetch_with_redirects_revalidates_each_redirect_target_for_ssrf() {
    let first = follow_redirect(
        0,
        "https://pbs.twimg.com/media/start.mp4",
        Some("https://video.twimg.com/media/next.mp4"),
    )
    .expect("allowed target");
    assert_eq!(first, "https://video.twimg.com/media/next.mp4");

    let error = follow_redirect(1, &first, Some("https://127.0.0.1/private.mp4"))
        .expect_err("ssrf validation should reject the second redirect");
    assert!(error.message().contains("ssrf blocked: ip literal rejected"));
}

#[test]
fn followed_redirects_are_counted() {
    let mut walk = RedirectWalk::new();
    let base = "https://pbs.twimg.com/media/start";
    assert!(walk.follow(base, None).is_err());
    assert!(walk.follow(base, Some("https://127.0.0.1/a")).is_err());
    assert_eq!(walk.hops, 0);
    for hop in 1..=MAX_REDIRECTS {
        assert_eq!(walk.follow(base, Some("/a")).unwrap(), "https://pbs.twimg.com/a");
        assert_eq!(walk.hops, hop);
    }
    assert_eq!(reason(walk.follow(base, Some("/a")).unwrap_err()), "too many redirects");
    assert_eq!(walk.hops, MAX_REDIRECTS);
}

#[test]
fn broken_redirects_are_refused() {
    let base = "https://pbs.twimg.com/a/b";
    assert_eq!(
        reason(follow_redirect(0, base, None).unwrap_err()),
        "redirect missing location header"
    );
    assert_eq!(
        follow_redirect(0, base, Some("../c?x=1")).expect("relative location"),
        "https://pbs.twimg.com/c?x=1"
    );
    assert!(follow_redirect(0, base, Some("https://[")).is_err());
    assert!(validated_target("https://example.com/".to_string()).is_err());
    assert_eq!(
        validated_target("https://abs.twimg.com/".to_string()).expect("allowed"),
        "https://abs.twimg.com/"
    );
}

#[test]
fn parses_content_range_as_half_open() {
    assert_eq!(
        parse_content_range("bytes 0-99/1000"),
        Some(ContentRange { start: 0, end: 100, total: 1000 })
    );
    assert_eq!(parse_content_range("bytes 0-99/*"), None);
    assert_eq!(parse_content_range("bytes 5-4/10"), None);
    assert_eq!(parse_content_range("bytes 0-10/10"), None);
    assert_eq!(parse_content_range("items 0-9/10"), None);
    assert_eq!(range_header_value(&ByteRange { start: 100, end: 200 }), "bytes=100-199");
}

#[test]
fn content_ranges_at_the_edges() {
    assert_eq!(
        parse_content_range("  bytes 7-7/8 "),
        Some(ContentRange { start: 7, end: 8, total: 8 })
    );
    assert_eq!(parse_content_range("bytes 0-18446744073709551615/18446744073709551615"), None);
    assert_eq!(
        parse_content_range("bytes +1-2/3"),
        Some(ContentRange { start: 1, end: 3, total: 3 })
    );
    assert_eq!(parse_content_range("bytes -1-2/3"), None);
    assert_eq!(parse_content_range("bytes 1-2"), None);
}

#[test]
fn chunk_queue_covers_every_byte_once() {
    let mut queue = ChunkQueue::new(10, 4, 21);
    assert_eq!(queue.remaining_chunks(), 3);
    let claimed: Vec<_> = std::iter::from_fn(|| queue.claim()).collect();
    assert_eq!(
        claimed,
        [
            ByteRange { start: 10, end: 14 },
            ByteRange { start: 14, end: 18 },
            ByteRange { start: 18, end: 21 },
        ]
    );
    assert_eq!(queue.claim(), None);
}

#[test]
fn workers_never_outnumber_chunks() {
    let queue = ChunkQueue::new(10, 4, 21);
    assert_eq!(extra_workers(&queue, 0), 0);
    assert_eq!(extra_workers(&queue, 1), 0);
    assert_eq!(extra_workers(&queue, 3), 2);
    assert_eq!(extra_workers(&queue, 9), 3);
}

#[test]
fn first_responses_are_classified() {
    assert!(matches!(
        classify_response(200, Some(5), Some("bytes 1-2/3")),
        Ok(Body::Complete { total: Some(5) })
    ));
    assert!(matches!(
        classify_response(206, None, Some("bytes 0-9/100")),
        Ok(Body::Ranged { first: 10, total: 100 })
    ));
    assert!(matches!(
        classify_response(206, None, Some("bytes 0-99/100")),
        Ok(Body::Complete { total: Some(100) })
    ));
    assert_eq!(
        reason(classify_response(206, Some(5), Some("bytes 1-9/100")).unwrap_err()),
        "invalid content-range for initial range"
    );
    assert!(matches!(
        classify_response(404, None, None),
        Err(Error::DownloadFailed { source: DownloadError::HttpStatus(404) })
    ));
}

#[test]
fn the_first_request_asks_for_one_chunk() {
    let mut config = EngineSettings::default();
    config.pipeline.download_connections = 4;
    config.pipeline.download_chunk_bytes = 256;
    assert_eq!(first_range(&config), Some(ByteRange { start: 0, end: 256 }));
    config.pipeline.download_connections = 1;
    assert_eq!(first_range(&config), None);
}

#[test]
fn range_bodies_must_match_exactly() {
    let range = ByteRange { start: 4, end: 8 };
    let served = ContentRange { start: 4, end: 8, total: 9 };
    assert!(check_range_response(206, Some(served), range, 9).is_ok());
    assert_eq!(
        reason(check_range_response(200, Some(served), range, 9).unwrap_err()),
        "range response does not match request"
    );
    assert!(check_range_response(206, Some(served), range, 10).is_err());
    assert!(check_range_response(206, None, range, 9).is_err());

    let mut write = RangeWrite::new(range);
    assert!(write.on_chunk(3).is_ok());
    assert_eq!(reason(write.finish().unwrap_err()), "range response ended early");
    assert!(write.on_chunk(1).is_ok());
    assert!(write.finish().is_ok());
    assert_eq!(
        reason(write.on_chunk(1).unwrap_err()),
        "range response exceeded requested length"
    );
}

#[test]
fn images_do_not_require_duration_metadata() {
    let mut resolved = media(MediaType::Image);
    assert!(!resolver_metadata_missing(&resolved));

    resolved.media_type = MediaType::Video;
    assert!(resolver_metadata_missing(&resolved));
    resolved.duration = Some(float(9.3));
    assert!(!resolver_metadata_missing(&resolved));
}

#[test]
fn downloads_are_planned_by_size_and_metadata() {
    let mut config = EngineSettings::default();
    config.pipeline.max_download_bytes = 1 << 30;
    config.pipeline.upload_ready_buffer_max_bytes = 1 << 20;
    let image = media(MediaType::Image);
    assert_eq!(
        plan_download(&image, Body::Complete { total: Some(100) }, &config).unwrap(),
        DownloadPlan { must_probe: false, should_probe: false, memory_only: true, reserve_bytes: 0 }
    );
    assert_eq!(
        plan_download(&image, Body::Ranged { first: 10, total: 100 }, &config).unwrap(),
        DownloadPlan {
            must_probe: false,
            should_probe: false,
            memory_only: false,
            reserve_bytes: 100
        }
    );
    assert_eq!(
        plan_download(&image, Body::Complete { total: None }, &config).unwrap(),
        DownloadPlan {
            must_probe: true,
            should_probe: true,
            memory_only: false,
            reserve_bytes: 1 << 30
        }
    );
    let mut video = media(MediaType::Video);
    video.duration = Some(float(1.0));
    let large = config.transcode.max_upload_bytes + 1;
    assert!(
        plan_download(&video, Body::Complete { total: Some(large) }, &config).unwrap().should_probe
    );
    assert!(matches!(
        plan_download(&video, Body::Complete { total: Some((1 << 30) + 1) }, &config),
        Err(Error::DownloadFailed {
            source: DownloadError::TooLarge { size_mb: 1024, max_mb: 1024 }
        })
    ));
}

#[test]
fn job_files_are_named_after_job_and_tweet() {
    assert_eq!(job_dir_name(5, 77), "5_77");
    assert_eq!(job_file_name(5, 77, "../WEBM"), "5_77.mp4");
    assert_eq!(job_file_name(5, 77, "WEBM"), "5_77.webm");
}

fn stream(codec_type: &str, codec_name: Option<&str>, size: Option<(u32, u32)>) -> FfprobeStream {
    FfprobeStream {
        codec_type: Some(codec_type.to_string()),
        codec_name: codec_name.map(|n| n.to_string()),
        width: size.map(|s| s.0),
        height: size.map(|s| s.1),
    }
}

#[test]
fn probes_read_the_first_streams() {
    let probe = FfprobeOutput {
        format: Some(FfprobeFormat {
            duration: Some("12.5".to_string()),
            format_name: Some("mov,mp4".to_string()),
            bit_rate: None,
        }),
        streams: vec![
            stream("data", Some("aac"), None),
            stream("video", Some("h264"), Some((640, 360))),
            stream("video", Some("vp9"), Some((1, 1))),
        ],
    };
    let reading = read_probe(&probe);
    assert_eq!(reading.duration.as_deref(), Some("12.5"));
    assert_eq!(reading.bit_rate, None);
    assert_eq!(reading.resolution, Some((640, 360)));
    assert_eq!(reading.container, MediaContainer::Mov);
    assert_eq!(reading.video_codec, VideoCodec::H264);
    assert_eq!(reading.audio_codec, AudioCodec::Absent);

    let silent = read_probe(&FfprobeOutput { format: None, streams: Vec::new() });
    assert_eq!(silent.container, MediaContainer::Unknown);
    assert_eq!(silent.video_codec, VideoCodec::Other);
    assert_eq!(silent.resolution, None);
}

#[test]
fn probed_metadata_goes_first() {
    let mut resolved = media(MediaType::Video);
    resolved.extension = "webm".to_string();
    resolved.duration = Some(float(3.0));
    let facts = MediaFacts {
        container: MediaContainer::Matroska,
        video_codec: VideoCodec::Vp9,
        audio_codec: AudioCodec::Opus,
        bitrate_kbps: None,
    };
    let probe = ProbeResult { duration: Some(float(4.0)), resolution: None, facts };
    let merged = download_metadata(&resolved, false, Some(Some(probe))).unwrap();
    assert_eq!(merged.duration, Some(float(4.0)));
    assert_eq!(merged.resolution, Some((1200, 800)));
    assert_eq!(merged.facts.container, MediaContainer::Webm);
    assert_eq!(merged.facts.video_codec, VideoCodec::Vp9);

    let plain = download_metadata(&resolved, true, None).unwrap();
    assert_eq!(plain.facts.video_codec, VideoCodec::Other);
    assert!(download_metadata(&resolved, false, Some(None)).is_ok());
    assert_eq!(
        reason(download_metadata(&resolved, true, Some(None)).unwrap_err()),
        "corrupt download"
    );

    let file = downloaded_file("p".to_string(), 9, merged, Some(640), None);
    assert_eq!(file.facts.bitrate_kbps, Some(640));
    assert_eq!(file.size, 9);
}

#[test]
fn probes_are_asked_for_json() {
    assert_eq!(
        ffprobe_args("/tmp/a.mp4"),
        ["-v", "quiet", "-print_format", "json", "-show_format", "-show_streams", "/tmp/a.mp4"]
    );
}

#[test]
fn failed_probes_say_why() {
    let output = |success: bool| JsonSubprocessOutput {
        success,
        exit_code: Some(1),
        stdout: b"{}".to_vec(),
        stderr_tail: String::new(),
    };
    assert_eq!(ffprobe_output(Ok(output(true)), 9).expect("the probe ran"), b"{}");
    assert_eq!(
        reason(ffprobe_output(Ok(output(false)), 9).unwrap_err()),
        "ffprobe returned error"
    );
    let cut = JsonSubprocessError::OutputLimit { stderr_tail: "x".to_string() };
    assert_eq!(
        reason(ffprobe_output(Err(cut), 9).unwrap_err()),
        "ffprobe output exceeded limit"
    );
    assert!(matches!(
        ffprobe_output(Err(JsonSubprocessError::Timeout), 9),
        Err(Error::Timeout { operation: "ffprobe", duration_ms: 9 })
    ));
    let missing = std::io::Error::from(std::io::ErrorKind::NotFound);
    assert!(matches!(
        ffprobe_output(Err(JsonSubprocessError::Io(missing)), 9),
        Err(Error::DownloadFailed { source: DownloadError::WriteFailed(IoCause::Os(_)) })
    ));
}

#[test]
fn slow_downloads_time_out() {
    assert!(matches!(
        download_timed_out(60_000),
        Error::Timeout { operation: "download", duration_ms: 60_000 }
    ));
    assert_eq!(download_timed_out(60_000).message(), "download timed out after 60s");
}
