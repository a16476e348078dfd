//! Strategies, splits and fallbacks of the optimize stage.

use azalea::config::{
    EngineSettings, FloatBits, HardwareAcceleration, QualityPreset, TranscodeSettings,
};
use azalea::engine::TranscodeRuntime;
use azalea::pipeline::errors::{Error, TranscodeStage};
use azalea::pipeline::optimize::{
    after_failed_attempt, attempt_height, begin_optimize, build_strategy_plan, encode_settings_for_attempt,
    ensure_split_segments_fit_limit, image_args, image_attempts, image_exhausted,
    image_output_extension, is_segment_file, planning_duration, predict_resolution, progress_send,
    record_transcode_outcome, remaining_timeout_budget, remux_file_name, remux_is_plausible,
    segment_file_name, segment_prefix, segment_task_error, should_retry_with_software,
    single_transcode_is_plausible, split_parallel_is_plausible, split_transcode_settings,
    transcode_file_name, use_parallel_split, AfterFailure, ImageStep, ImageWalk, LadderStep,
    OptimizeStart, ParallelSplit, ProgressSend, QueueState, SegmentOutput, SerialSplit,
    SplitTranscodeProgress, StrategyWalk, TranscodeOutcome, TranscodeStrategy,
};
use azalea::pipeline::quality::{
    segment_duration, BitrateParams, Ladder, SplitTranscodePlan, SPLIT_AUDIO_KBPS,
};
use azalea::pipeline::types::{
    AudioCodec, DownloadedFile, MediaContainer, MediaFacts, MediaType, PreparedUpload, Progress,
    ResolvedMedia, VideoCodec,
};

fn float(value: f64) -> FloatBits {
    FloatBits::from_bits(value.to_bits())
}

fn value(bits: FloatBits) -> f64 {
    f64::from_bits(bits.bits)
}

/// What a number of usable bits leaves for video over a duration.
fn video_kbps(
    config: &TranscodeSettings,
    usable_bits: f64,
    audio_kbps: u32,
    duration: f64,
) -> Option<u32> {
    let audio = audio_kbps as f64 * 1000.0 * duration * value(config.audio_vbr_padding);
    let video = usable_bits - audio;
    if video <= 0.0 {
        return None;
    }
    Some((video / duration / 1000.0 * (1.0 - value(config.vbr_safety_margin))) as u32)
}

/// The bitrates of a whole file of that duration.
fn compute(config: &TranscodeSettings, duration: f64) -> Result<BitrateParams, Error> {
    let usable = config.max_upload_bytes as f64
        * value(config.transcode_target_ratio)
        * 8.0
        * (1.0 - value(config.container_overhead_ratio));
    let audio = BitrateParams::audio_bitrate_for_duration(float(duration));
    BitrateParams::compute(float(duration), video_kbps(config, usable, audio, duration))
}

fn single_bitrate(config: &TranscodeSettings, duration: f64) -> Option<BitrateParams> {
    compute(config, duration).ok()
}

fn split_video_kbps(config: &TranscodeSettings, segment: f64) -> Option<u32> {
    let usable = config.max_upload_bytes as f64
        * value(config.split_target_ratio)
        * 8.0
        * (1.0 - value(config.container_overhead_ratio));
    video_kbps(config, usable, SPLIT_AUDIO_KBPS, segment)
}

/// The segments that a file of that duration is split into.
fn split_plan(config: &TranscodeSettings, duration: f64) -> SplitTranscodePlan {
    let limit = float(config.max_single_video_duration_secs as f64);
    let segment = value(segment_duration(float(duration), limit));
    SplitTranscodePlan::compute(
        float(duration),
        limit,
        (duration / segment).ceil() as u32,
        split_video_kbps(config, segment),
    )
    .expect("the duration can be split")
}

#[test]
fn bitrate_compute_rejects_invalid_duration() {
    let err = compute(&TranscodeSettings::default(), 0.0).expect_err("duration <= 0.1 must fail");

    match err {
        Error::TranscodeFailed { stage: TranscodeStage::Transcode, .. } => {}
        other => panic!("unexpected error: {other:?}"),
    }
}

#[test]
fn bitrate_compute_respects_lower_bounds() {
    let params = compute(&TranscodeSettings::default(), 60.0)
        .expect("default config should produce bitrate params");

    assert!(params.video_bitrate_kbps >= 50);
    assert!(params.audio_bitrate_kbps > 0);
}

#[test]
fn video_bitrate_fits_budget_minus_audio_reserve_for_boundaries_and_presets() {
    let boundary_cases: [(f64, u32); 4] =
        [(300.0, 192), (300.001, 160), (600.0, 160), (600.001, 128)];
    let presets = [
        QualityPreset::Fast,
        QualityPreset::Balanced,
        QualityPreset::Quality,
        QualityPreset::Size,
    ];

    for preset in presets {
        for (duration, expected_audio_kbps) in boundary_cases {
            let mut at_cap = TranscodeSettings::default();
            at_cap.quality_preset = preset;
            at_cap.transcode_target_ratio = float(1.0);
            at_cap.container_overhead_ratio = float(0.0);
            at_cap.audio_vbr_padding = float(1.0);
            at_cap.vbr_safety_margin = float(0.05);

            let audio_reserve_bits = expected_audio_kbps as f64 * 1000.0 * duration;
            let desired_video_bits = 1000.0 * 1000.0 * duration;
            let budget_before_margin = desired_video_bits / (1.0 - value(at_cap.vbr_safety_margin));
            at_cap.max_upload_bytes =
                ((audio_reserve_bits + budget_before_margin) / 8.0).ceil() as u64;

            let params = compute(&at_cap, duration)
                .expect("at-cap budget should still leave positive video bitrate");
            assert_eq!(params.audio_bitrate_kbps, expected_audio_kbps);

            let usable_bits = at_cap.max_upload_bytes as f64 * 8.0;
            let allowed_video_bits =
                usable_bits - params.audio_bitrate_kbps as f64 * 1000.0 * duration;
            let returned_video_bits = params.video_bitrate_kbps as f64 * 1000.0 * duration;
            assert!(
                returned_video_bits <= allowed_video_bits + 1_000.0,
                "preset={preset:?}, duration={duration}, returned={returned_video_bits}, allowed={allowed_video_bits}"
            );

            let mut over_cap = at_cap;
            over_cap.max_upload_bytes = (audio_reserve_bits / 8.0).floor() as u64;
            let err = compute(&over_cap, duration)
                .expect_err("over-cap budget must fail once no video bits remain");
            match err {
                Error::TranscodeFailed {
                    stage: TranscodeStage::Transcode, stderr_tail, ..
                } => assert_eq!(stderr_tail, "video too long to fit"),
                other => panic!("unexpected error: {other:?}"),
            }
        }
    }
}

#[test]
fn audio_bitrate_short_medium_long_is_clamped_monotonic_and_floor_bounded() {
    let mut config = TranscodeSettings::default();
    config.max_upload_bytes = 256 * 1024 * 1024;

    let short = compute(&config, 60.0)
        .expect("short clip should produce bitrate params")
        .audio_bitrate_kbps;
    let medium = compute(&config, 420.0)
        .expect("medium clip should produce bitrate params")
        .audio_bitrate_kbps;
    let long = compute(&config, 900.0)
        .expect("long clip should produce bitrate params")
        .audio_bitrate_kbps;

    assert_eq!(short, 192);
    assert_eq!(medium, 160);
    assert_eq!(long, 128);
    assert!((128..=192).contains(&short));
    assert!((128..=192).contains(&medium));
    assert!((128..=192).contains(&long));
    assert!(short >= medium && medium >= long);
    assert_eq!(long, 128);
}

#[test]
fn split_bitrate_uses_expected_audio_floor() {
    let config = TranscodeSettings::default();
    let params =
        BitrateParams::compute_for_split(float(30.0), split_video_kbps(&config, 30.0))
            .expect("split params should be computed");
    assert_eq!(params.audio_bitrate_kbps, 128);
    assert!(params.video_bitrate_kbps >= 100);
}

fn plain_split_settings() -> TranscodeSettings {
    let mut config = TranscodeSettings::default();
    config.max_upload_bytes = 10_000_000;
    config.split_target_ratio = float(1.0);
    config.container_overhead_ratio = float(0.0);
    config.vbr_safety_margin = float(0.0);
    config.audio_vbr_padding = float(1.0);
    config.max_single_video_duration_secs = 120;
    config
}

#[test]
fn split_transcode_plan_uses_media_duration_for_short_input() {
    let plan = split_plan(&plain_split_settings(), 60.0);

    assert_eq!(value(plan.segment_duration), 60.0);
    assert_eq!(plan.estimated_segments, 1);
    assert_eq!(plan.bitrate.audio_bitrate_kbps, 128);
    assert_eq!(plan.bitrate.video_bitrate_kbps, 1_205);
}

#[test]
fn split_transcode_plan_caps_segment_duration_for_long_input() {
    let plan = split_plan(&plain_split_settings(), 300.0);

    assert_eq!(value(plan.segment_duration), 120.0);
    assert_eq!(plan.estimated_segments, 3);
    assert_eq!(plan.bitrate.audio_bitrate_kbps, 128);
    assert_eq!(plan.bitrate.video_bitrate_kbps, 538);
}

#[test]
fn budgets_reject_what_is_no_duration() {
    for bad in [0.1, -5.0, f64::NAN, f64::INFINITY, f64::NEG_INFINITY] {
        match BitrateParams::compute(float(bad), Some(900)) {
            Err(Error::TranscodeFailed { stage, exit_code, stderr_tail }) => {
                assert_eq!(stage, TranscodeStage::Transcode);
                assert_eq!(exit_code, None);
                assert_eq!(stderr_tail, "invalid media duration");
            }
            other => panic!("unexpected result: {other:?}"),
        }
    }
    assert_eq!(BitrateParams::audio_bitrate_for_duration(float(-900.0)), 192);
    assert_eq!(BitrateParams::audio_bitrate_for_duration(float(f64::NAN)), 192);
    assert_eq!(BitrateParams::audio_bitrate_for_duration(float(f64::INFINITY)), 128);
    match SplitTranscodePlan::compute(float(60.0), float(0.0), 1, Some(900)) {
        Err(Error::TranscodeFailed { stage, stderr_tail, .. }) => {
            assert_eq!(stage, TranscodeStage::Split);
            assert_eq!(stderr_tail, "invalid media duration");
        }
        other => panic!("unexpected result: {other:?}"),
    }
    match SplitTranscodePlan::compute(float(60.0), float(120.0), 1, None) {
        Err(Error::TranscodeFailed { stage, stderr_tail, .. }) => {
            assert_eq!(stage, TranscodeStage::Split);
            assert_eq!(stderr_tail, "segment too long to fit");
        }
        other => panic!("unexpected result: {other:?}"),
    }
}

fn h264_mp4(kbps: u32) -> MediaFacts {
    MediaFacts {
        container: MediaContainer::Mp4,
        video_codec: VideoCodec::H264,
        audio_codec: AudioCodec::Aac,
        bitrate_kbps: Some(kbps),
    }
}

#[test]
fn strategy_plan_skips_remux_for_already_h264_mp4() {
    let config = EngineSettings::default();
    let plan = build_strategy_plan(
        h264_mp4(2_800),
        single_bitrate(&config.transcode, 60.0),
        Some(split_plan(&config.transcode, 60.0)),
        Some(720),
        Some(480),
        &config,
    );

    assert_eq!(
        plan.strategies,
        [
            Some(TranscodeStrategy::TranscodeBalanced),
            Some(TranscodeStrategy::TranscodeAggressive),
            Some(TranscodeStrategy::SplitTranscode),
            None,
            None,
            None,
        ]
    );
    let split_transcode =
        plan.split_transcode.expect("split-transcode plan should be computed");
    assert_eq!(value(split_transcode.segment_duration), 60.0);
    assert_eq!(split_transcode.estimated_segments, 1);
}

#[test]
fn strategy_plan_skips_stream_copy_for_incompatible_codecs() {
    let config = EngineSettings::default();
    let facts = MediaFacts {
        container: MediaContainer::Webm,
        video_codec: VideoCodec::Vp9,
        audio_codec: AudioCodec::Opus,
        bitrate_kbps: Some(2_800),
    };
    let plan = build_strategy_plan(
        facts,
        single_bitrate(&config.transcode, 60.0),
        Some(split_plan(&config.transcode, 60.0)),
        Some(720),
        Some(480),
        &config,
    );

    assert_eq!(
        plan.strategies,
        [
            Some(TranscodeStrategy::TranscodeBalanced),
            Some(TranscodeStrategy::TranscodeAggressive),
            Some(TranscodeStrategy::SplitTranscode),
            None,
            None,
            None,
        ]
    );
}

#[test]
fn strategy_plan_attempts_remux_when_codec_facts_are_unknown() {
    let config = EngineSettings::default();
    let facts = MediaFacts {
        container: MediaContainer::Unknown,
        video_codec: VideoCodec::Other,
        audio_codec: AudioCodec::Other,
        bitrate_kbps: None,
    };
    let plan = build_strategy_plan(
        facts,
        single_bitrate(&config.transcode, 60.0),
        Some(split_plan(&config.transcode, 60.0)),
        Some(720),
        Some(480),
        &config,
    );

    assert_eq!(plan.strategies[0], Some(TranscodeStrategy::Remux));
    assert_eq!(TranscodeStrategy::Remux.label(), "remux");
    assert!(remux_is_plausible(facts));
}

#[test]
fn strategy_plan_skips_full_transcodes_for_long_oversized_video() {
    let config = EngineSettings::default();
    let plan = build_strategy_plan(
        h264_mp4(1_400),
        single_bitrate(&config.transcode, 720.0),
        Some(split_plan(&config.transcode, 720.0)),
        Some(720),
        Some(480),
        &config,
    );

    assert_eq!(
        plan.strategies,
        [Some(TranscodeStrategy::SplitTranscode), None, None, None, None, None]
    );
    let split_transcode =
        plan.split_transcode.expect("split-transcode plan should be computed");
    assert_eq!(value(split_transcode.segment_duration), 120.0);
    assert_eq!(split_transcode.estimated_segments, 6);
}

#[test]
fn equal_heights_plan_one_encode() {
    let config = EngineSettings::default();
    let params = BitrateParams { video_bitrate_kbps: 400, audio_bitrate_kbps: 128 };
    let plan = build_strategy_plan(h264_mp4(1), Some(params), None, Some(480), Some(480), &config);
    assert_eq!(
        plan.strategies,
        [Some(TranscodeStrategy::TranscodeBalanced), None, None, None, None, None]
    );
    assert!(!single_transcode_is_plausible(None, &config));
    let low = BitrateParams { video_bitrate_kbps: 399, audio_bitrate_kbps: 128 };
    assert!(!single_transcode_is_plausible(Some(low), &config));
}

#[test]
fn split_parallel_preflight_accepts_any_transcodable_input_with_parallel_capacity() {
    let mut config = EngineSettings::default();
    config.concurrency.transcode = 4;

    assert!(split_parallel_is_plausible(6, 4, &config));
}

#[test]
fn split_parallel_preflight_rejects_single_transcode_permit() {
    let mut config = EngineSettings::default();
    config.concurrency.transcode = 1;

    assert!(!split_parallel_is_plausible(6, 1, &config));
}

#[test]
fn split_parallel_preflight_rejects_small_segment_counts() {
    let mut config = EngineSettings::default();
    config.concurrency.transcode = 4;

    assert!(!split_parallel_is_plausible(1, 4, &config));
}

#[test]
fn software_splits_are_serial() {
    let config = EngineSettings::default();
    let mut settings = TranscodeSettings::default();
    assert!(!use_parallel_split(&settings, 100, 8, &config));
    settings.hardware_acceleration = HardwareAcceleration::Nvenc;
    assert!(use_parallel_split(&settings, 100, 8, &config));
    assert!(!use_parallel_split(&settings, 100, 1, &config));
}

#[test]
fn qsv_split_uses_software_for_low_bitrate_segments() {
    let settings = TranscodeSettings {
        hardware_acceleration: HardwareAcceleration::Qsv,
        min_bitrate_kbps: 400,
        ..TranscodeSettings::default()
    };
    let segment_params = BitrateParams { video_bitrate_kbps: 278, audio_bitrate_kbps: 128 };

    let split_settings = split_transcode_settings(&settings, &segment_params);

    assert_eq!(split_settings.hardware_acceleration, HardwareAcceleration::Software);
}

#[test]
fn qsv_split_keeps_hardware_for_supported_bitrate_segments() {
    let settings = TranscodeSettings {
        hardware_acceleration: HardwareAcceleration::Qsv,
        min_bitrate_kbps: 400,
        ..TranscodeSettings::default()
    };
    let segment_params = BitrateParams { video_bitrate_kbps: 400, audio_bitrate_kbps: 128 };

    let split_settings = split_transcode_settings(&settings, &segment_params);

    assert_eq!(split_settings.hardware_acceleration, HardwareAcceleration::Qsv);
}

#[test]
fn aggressive_predict_resolution_downshifts_when_fast_path_would_preserve_480p() {
    let config = EngineSettings::default();
    let params = single_bitrate(&config.transcode, 60.0);

    let fast = predict_resolution(params, Some((854, 480)), QualityPreset::Fast);
    let size = predict_resolution(params, Some((854, 480)), QualityPreset::Size);

    assert_eq!(fast, None);
    assert_eq!(size, Some(240));
}

#[test]
fn heights_without_a_bitrate_are_cautious() {
    assert_eq!(predict_resolution(None, Some((1920, 1080)), QualityPreset::Fast), Some(360));
    let rich = BitrateParams { video_bitrate_kbps: 9_000, audio_bitrate_kbps: 192 };
    assert_eq!(predict_resolution(Some(rich), None, QualityPreset::Balanced), None);
    assert_eq!(
        predict_resolution(Some(rich), Some((320, 240)), QualityPreset::Size),
        None
    );
}

#[test]
fn ladder_downshifts_for_size_preset() {
    let balanced = Ladder::recommend(Some(1080), 1600, QualityPreset::Balanced);
    let size = Ladder::recommend(Some(1080), 1600, QualityPreset::Size);

    assert_eq!(balanced.target_height, Some(720));
    assert_eq!(size.target_height, Some(360));
}

#[test]
fn recommendation_is_monotonic_over_bitrates() {
    let mut last = 0;
    for kbps in 100..4000 {
        let height = Ladder::recommend(None, kbps, QualityPreset::Balanced)
            .target_height
            .unwrap_or(u32::MAX);
        assert!(height >= last);
        last = height;
    }
    assert_eq!(Ladder::recommend(None, 50, QualityPreset::Balanced).target_height, Some(240));
    assert_eq!(Ladder::recommend(None, 1000, QualityPreset::Fast).target_height, Some(480));
    assert_eq!(Ladder::recommend(Some(720), 1000, QualityPreset::Size).target_height, None);
    assert_eq!(Ladder::downshift_height(2160, 1), 1440);
    assert_eq!(Ladder::downshift_height(300, 1), 240);
    assert_eq!(Ladder::downshift_height(100, 3), 240);
    assert_eq!(Ladder::downshift_height(2160, usize::MAX), 240);
}

fn downloaded(size: u64) -> DownloadedFile {
    DownloadedFile {
        path: "/tmp/5_7/5_7.mp4".to_string(),
        size,
        duration: Some(float(5.0)),
        resolution: Some((1920, 1080)),
        facts: h264_mp4(512),
        upload_ready_bytes: None,
    }
}

#[test]
fn pass_through_preserves_in_memory_upload_payload() {
    let payload = b"already-uploadable".to_vec();
    let mut file = downloaded(payload.len() as u64);
    file.upload_ready_bytes = Some(payload.clone());
    let config = EngineSettings::default();

    match begin_optimize(file, MediaType::Video, &config) {
        OptimizeStart::PassThrough { upload: PreparedUpload::Single { part } } => {
            assert_eq!(part.path(), "/tmp/5_7/5_7.mp4");
            assert_eq!(part.size(), payload.len() as u64);
            assert_eq!(
                part.upload_ready_bytes().map(|bytes| bytes.as_slice()),
                Some(payload.as_slice())
            );
        }
        other => panic!("pass-through should remain single-part, got {other:?}"),
    }
}

#[test]
fn oversized_files_need_room() {
    let mut config = EngineSettings::default();
    config.transcode.max_upload_bytes = 10;
    config.pipeline.min_disk_space_bytes = 5;
    assert!(matches!(
        begin_optimize(downloaded(11), MediaType::Image, &config),
        OptimizeStart::Shrink { required_bytes: 27, image: true }
    ));
    assert!(matches!(
        begin_optimize(downloaded(u64::MAX), MediaType::Video, &config),
        OptimizeStart::Shrink { required_bytes: u64::MAX, image: false }
    ));
}

#[test]
fn measured_durations_go_first() {
    let mut file = downloaded(1);
    let resolved = ResolvedMedia {
        url: String::new(),
        media_type: MediaType::Video,
        duration: Some(float(9.0)),
        resolution: None,
        extension: "mp4".to_string(),
        needs_container_fix: false,
    };
    assert_eq!(planning_duration(&file, &resolved), float(5.0));
    file.duration = None;
    assert_eq!(planning_duration(&file, &resolved), float(9.0));
    let mut resolved = resolved;
    resolved.duration = None;
    assert_eq!(planning_duration(&file, &resolved), float(60.0));
}

#[test]
fn the_walk_tries_each_strategy_once() {
    let config = EngineSettings::default();
    let params = BitrateParams { video_bitrate_kbps: 900, audio_bitrate_kbps: 128 };
    let plan = build_strategy_plan(h264_mp4(1), Some(params), None, Some(720), Some(480), &config);
    let (mut walk, first) = StrategyWalk::begin(plan);
    assert!(matches!(
        first,
        LadderStep::Attempt { strategy: TranscodeStrategy::TranscodeBalanced }
    ));
    assert!(matches!(
        walk.on_attempt(Some(11), 10),
        LadderStep::Attempt { strategy: TranscodeStrategy::TranscodeAggressive }
    ));
    let mut accepted = StrategyWalk { plan: walk.plan, at: walk.at };
    assert!(matches!(accepted.on_attempt(Some(10), 10), LadderStep::Accept));
    match walk.on_attempt(None, 10) {
        LadderStep::Exhausted { error } => assert_eq!(
            error.message(),
            "transcode failed (Transcode, exit=None): transcode strategy ladder exhausted"
        ),
        other => panic!("unexpected step: {other:?}"),
    }
}

#[test]
fn images_are_compressed_until_they_fit() {
    let (mut walk, first) = ImageWalk::begin(110, 100);
    assert!(matches!(first, ImageStep::Attempt { attempt } if attempt.quality == 85));
    let second = walk.on_attempt(Some(101), 100);
    assert!(matches!(second, ImageStep::Attempt { attempt } if attempt.quality == 75));
    assert!(matches!(walk.on_attempt(Some(100), 100), ImageStep::Accept { size: 100 }));
    match walk.on_attempt(None, 100) {
        ImageStep::Exhausted { error: Error::TranscodeFailed { stage, stderr_tail, .. } } => {
            assert_eq!(stage, TranscodeStage::ImageCompress);
            assert_eq!(stderr_tail, "could not compress image");
        }
        other => panic!("unexpected step: {other:?}"),
    }
}

#[test]
fn image_attempts_grow_harder_with_size() {
    let summary = |size: u64| {
        image_attempts(size, 100).iter().map(|a| (a.quality, a.scale)).collect::<Vec<_>>()
    };
    assert_eq!(summary(119), vec![(85, None), (75, None)]);
    assert_eq!(summary(120)[0], (75, None));
    assert_eq!(summary(120)[5], (50, Some("0.85")));
    assert_eq!(summary(199).len(), 6);
    assert_eq!(summary(200).len(), 9);
    assert_eq!(summary(200)[8], (35, Some("0.5")));
    let attempt = image_attempts(200, 100)[3];
    assert_eq!(
        image_args("i.png", "o.png", &attempt).to_vec(),
        ["-y", "-i", "i.png", "-vf", "scale=iw*0.65:ih*0.65", "-q:v", "65", "o.png"]
    );
    assert_eq!(image_output_extension(Some("PNG")), "opt.png");
    assert_eq!(image_output_extension(Some("jpeg")), "opt.jpg");
    assert_eq!(image_output_extension(Some("tiff")), "opt.jpg");
    assert_eq!(image_output_extension(None), "opt.jpg");
    assert!(image_exhausted().message().contains("could not compress image"));
}

#[test]
fn outputs_are_named_after_their_input() {
    assert_eq!(remux_file_name("a"), "a_remux.mp4");
    assert_eq!(transcode_file_name("a"), "a_transcode.mp4");
    assert_eq!(segment_prefix("a"), "a_seg");
    assert_eq!(segment_file_name("a", 12), "a_seg012.mp4");
    assert!(is_segment_file("a_seg012.mp4", "a_seg"));
    assert!(!is_segment_file("a_seg012.tmp", "a_seg"));
    assert!(!is_segment_file("b_seg012.mp4", "a_seg"));
}

fn assert_split_oversize(err: Error) {
    match err {
        Error::TranscodeFailed { stage: TranscodeStage::Split, stderr_tail, .. } => {
            assert_eq!(stderr_tail, "split segment exceeded upload limit")
        }
        other => panic!("unexpected error: {other:?}"),
    }
}

#[test]
fn split_serial_rejects_oversize_segments_and_cleans_up() {
    let mut config = EngineSettings::default();
    config.transcode.max_upload_bytes = 8;
    let mut split = SerialSplit::new(2);
    split.on_segment("input_seg000.mp4".to_string(), 2).expect("first segment");
    split.on_segment("input_seg001.mp4".to_string(), 16).expect("second segment");
    let err = split.finish(&config).expect_err("oversize split segment must fail");

    assert_split_oversize(err);
}

#[test]
fn split_serial_transcodes_each_segment_directly() {
    let mut config = EngineSettings::default();
    config.transcode.max_upload_bytes = 1024;
    let mut split = SerialSplit::new(2);
    assert_eq!(split.next_index(), Some(0));
    assert_eq!(
        split.on_segment("a_seg000.mp4".to_string(), 2).unwrap(),
        Progress::Transcoding(1, 2)
    );
    assert_eq!(split.next_index(), Some(1));
    assert_eq!(
        split.on_segment("a_seg001.mp4".to_string(), 2).unwrap(),
        Progress::Transcoding(2, 2)
    );
    assert_eq!(split.next_index(), None);

    let upload = split.finish(&config).expect("serial split should transcode both segments");
    assert_eq!(upload.len(), 2);
}

#[test]
fn empty_splits_are_errors() {
    let config = EngineSettings::default();
    let mut split = SerialSplit::new(1);
    let err = split.on_segment("a".to_string(), 0).expect_err("empty segment");
    assert!(err.message().contains("split produced an empty segment"));
    let err = split.finish(&config).expect_err("no segments");
    assert!(err.message().contains("split produced no segments"));
    assert!(segment_task_error("boom").message().contains("segment task panicked: boom"));
}

fn segment(path: &str, size: u64) -> SegmentOutput {
    SegmentOutput { path: path.to_string(), size }
}

#[test]
fn split_parallel_rejects_oversize_segments_and_cleans_up() {
    let mut config = EngineSettings::default();
    config.transcode.max_upload_bytes = 8;
    let mut split = ParallelSplit::new(2, 2);
    assert_eq!(split.start_next(), Some(0));
    assert_eq!(split.start_next(), Some(1));
    split.on_segment(1, segment("input_seg001.mp4", 16)).expect("second segment");
    split.on_segment(0, segment("input_seg000.mp4", 2)).expect("first segment");
    assert!(split.is_finished());

    let err = split.finish(&config).expect_err("oversize split segment must fail");
    assert_split_oversize(err);
}

#[test]
fn parallel_segments_come_out_in_order() {
    let config = EngineSettings::default();
    let mut split = ParallelSplit::new(3, 2);
    assert_eq!(split.start_next(), Some(0));
    assert_eq!(split.start_next(), Some(1));
    assert_eq!(split.start_next(), None);
    assert_eq!(split.on_segment(1, segment("b", 1)).unwrap(), Progress::Transcoding(1, 3));
    assert_eq!(split.start_next(), Some(2));
    split.on_segment(2, segment("c", 1)).unwrap();
    assert!(!split.is_finished());
    assert!(split
        .on_segment(9, segment("x", 1))
        .unwrap_err()
        .message()
        .contains("parallel split reported an out-of-range segment"));
    split.on_segment(0, segment("a", 1)).unwrap();
    assert!(split.is_finished());
    match split.finish(&config).unwrap() {
        PreparedUpload::Split { parts } => {
            let paths: Vec<&str> = parts.iter().map(|p| p.path()).collect();
            assert_eq!(paths, ["a", "b", "c"]);
        }
        other => panic!("unexpected upload: {other:?}"),
    }

    let mut holed = ParallelSplit::new(2, 0);
    assert_eq!(holed.start_next(), Some(0));
    assert_eq!(holed.start_next(), None);
    holed.on_segment(0, segment("a", 1)).unwrap();
    assert!(holed
        .finish(&config)
        .unwrap_err()
        .message()
        .contains("parallel split finished with missing segment"));
    assert!(ensure_split_segments_fit_limit(vec![segment("a", 1)], &config).is_ok());
}

#[test]
fn non_terminal_transcode_progress_is_dropped_when_channel_is_full() {
    assert_eq!(
        progress_send(&Progress::Transcoding(1, 3), QueueState::Full),
        ProgressSend::Drop
    );
}

#[test]
fn terminal_transcode_progress_is_queued_even_when_channel_is_full() {
    assert_eq!(
        progress_send(&Progress::Transcoding(3, 3), QueueState::Full),
        ProgressSend::SendLater
    );
    assert_eq!(progress_send(&Progress::Uploading, QueueState::Accepted), ProgressSend::Done);
    assert_eq!(
        progress_send(&Progress::Transcoding(3, 3), QueueState::Closed),
        ProgressSend::Drop
    );
}

#[test]
fn split_progress_finish_uses_actual_segment_total() {
    let progress = SplitTranscodeProgress::new(5);
    assert_eq!(progress.start(), Progress::Transcoding(0, 5));
    assert_eq!(progress.finish_with_actual_total(3), Progress::Transcoding(3, 3));
    assert_eq!(progress.finish_with_actual_total(0), Progress::Transcoding(1, 1));
    assert_eq!(SplitTranscodeProgress::new(0).start(), Progress::Transcoding(0, 1));
}

fn failed(stderr: &str) -> Error {
    Error::TranscodeFailed {
        stage: TranscodeStage::Transcode,
        exit_code: Some(1),
        stderr_tail: stderr.to_string(),
    }
}

#[test]
fn hardware_failure_retries_with_software_encoder() {
    let mut runtime = TranscodeRuntime::new(HardwareAcceleration::Vaapi);
    let settings = TranscodeSettings {
        hardware_acceleration: HardwareAcceleration::Vaapi,
        ..TranscodeSettings::default()
    };
    let first = encode_settings_for_attempt(&settings, &runtime);
    assert_eq!(first.hardware_acceleration.encoder(), "h264_vaapi");

    let retry = match after_failed_attempt(
        &failed("vaapi init failed"),
        first.hardware_acceleration,
        &settings,
        &mut runtime,
        100,
        1_000,
    ) {
        AfterFailure::Retry { settings, timeout_ms } => {
            assert_eq!(timeout_ms, 900);
            settings
        }
        AfterFailure::GiveUp => panic!("fallback retry expected"),
    };
    let outcome = TranscodeOutcome::new(retry.hardware_acceleration, true, 150);
    record_transcode_outcome(&mut runtime, &outcome);

    assert_eq!(outcome.encoder_used, "libx264");
    assert_eq!(outcome.backend_used, HardwareAcceleration::Software);
    assert!(!outcome.used_hardware);
    assert!(outcome.fallback_occurred);
    assert_eq!(runtime.active_backend(), HardwareAcceleration::Software);
    assert!(runtime.software_fallback_active());
    assert_eq!(runtime.hw_encodes.count, 0);
    assert_eq!(runtime.sw_encodes.count, 1);
    assert!(runtime.sw_encodes.average_ms() <= outcome.duration_ms);
}

#[test]
fn explicit_software_attempt_is_not_overridden_by_runtime_hardware() {
    let mut runtime = TranscodeRuntime::new(HardwareAcceleration::Qsv);
    let settings = TranscodeSettings {
        hardware_acceleration: HardwareAcceleration::Software,
        ..TranscodeSettings::default()
    };
    let active = encode_settings_for_attempt(&settings, &runtime);
    assert_eq!(active.hardware_acceleration.encoder(), "libx264");
    let outcome = TranscodeOutcome::new(active.hardware_acceleration, false, 5);
    record_transcode_outcome(&mut runtime, &outcome);

    assert_eq!(outcome.encoder_used, "libx264");
    assert_eq!(outcome.backend_used, HardwareAcceleration::Software);
    assert!(!outcome.used_hardware);
    assert_eq!(runtime.active_backend(), HardwareAcceleration::Qsv);
    assert_eq!(runtime.hw_encodes.count, 0);
    assert_eq!(runtime.sw_encodes.count, 1);
}

#[test]
fn other_failures_are_not_retried() {
    let nvenc = HardwareAcceleration::Nvenc;
    assert!(should_retry_with_software(&failed("CUDA error"), nvenc));
    assert!(!should_retry_with_software(&failed("no such file"), nvenc));
    assert!(!should_retry_with_software(&failed("cuda"), HardwareAcceleration::Software));
    assert!(!should_retry_with_software(
        &Error::Timeout { operation: "cuda", duration_ms: 1 },
        nvenc
    ));
    let mut runtime = TranscodeRuntime::new(nvenc);
    let settings = TranscodeSettings {
        hardware_acceleration: nvenc,
        ..TranscodeSettings::default()
    };
    assert!(matches!(
        after_failed_attempt(&failed("cuda"), nvenc, &settings, &mut runtime, 11, 10),
        AfterFailure::GiveUp
    ));
    assert_eq!(runtime.active_backend(), HardwareAcceleration::Software);
}

#[test]
fn remaining_timeout_budget_returns_none_after_budget_is_exhausted() {
    let remaining = remaining_timeout_budget(2_000, 1_000);

    assert_eq!(remaining, None);
    assert_eq!(remaining_timeout_budget(400, 1_000), Some(600));
}

#[test]
fn each_strategy_encodes_at_its_own_height() {
    let height = |strategy| attempt_height(strategy, Some(720), Some(480));
    assert_eq!(height(TranscodeStrategy::TranscodeBalanced), Some(720));
    assert_eq!(height(TranscodeStrategy::TranscodeAggressive), Some(480));
    assert_eq!(height(TranscodeStrategy::Remux), None);
    assert_eq!(height(TranscodeStrategy::SplitTranscode), None);
    assert_eq!(attempt_height(TranscodeStrategy::TranscodeBalanced, None, Some(480)), None);
}

#[test]
fn a_fallback_keeps_the_tallies() {
    let mut runtime = TranscodeRuntime::new(HardwareAcceleration::Nvenc);
    runtime.record_encode(true, 70);
    runtime.record_encode(false, 30);
    let (hardware, software) = (runtime.hw_encodes, runtime.sw_encodes);
    let error = Error::TranscodeFailed {
        stage: TranscodeStage::Transcode,
        exit_code: Some(1),
        stderr_tail: "nvenc failed".to_string(),
    };
    let mut settings = TranscodeSettings::default();
    settings.hardware_acceleration = HardwareAcceleration::Nvenc;
    let nvenc = HardwareAcceleration::Nvenc;
    assert!(matches!(
        after_failed_attempt(&error, nvenc, &settings, &mut runtime, 1, 10),
        AfterFailure::Retry { timeout_ms: 9, .. }
    ));
    assert_eq!(runtime.hw_encodes, hardware);
    assert_eq!(runtime.sw_encodes, software);
    assert_eq!(runtime.active, HardwareAcceleration::Software);
    assert_eq!(runtime.transitions, 1);
}

#[test]
fn larger_budgets_give_no_smaller_bitrates() {
    let duration = float(400.0);
    let mut last = 0;
    for budget in [1, 49, 50, 51, 900, 100_000] {
        let params = BitrateParams::compute(duration, Some(budget)).expect("budget fits");
        assert_eq!(params.audio_bitrate_kbps, 160);
        assert_eq!(params.video_bitrate_kbps, budget.max(50));
        assert!(params.video_bitrate_kbps >= last);
        last = params.video_bitrate_kbps;
        let segment = BitrateParams::compute_for_split(duration, Some(budget)).expect("fits");
        assert_eq!(segment.video_bitrate_kbps, budget.max(100));
    }
}

#[test]
fn bitrate_compute_is_monotonic_for_upload_budget() {
    let limited = |max_upload_bytes: u64| {
        let mut config = TranscodeSettings::default();
        config.max_upload_bytes = max_upload_bytes;
        config
    };
    let config = TranscodeSettings::default();
    for duration in [0.2, 1.7, 59.94, 300.0, 300.001, 600.0, 600.001, 1234.5, 1799.9] {
        let audio = BitrateParams::audio_bitrate_for_duration(float(duration));
        let audio_bits = audio as f64 * 1000.0 * duration * value(config.audio_vbr_padding);
        let scale = value(config.transcode_target_ratio)
            * (1.0 - value(config.container_overhead_ratio))
            * 8.0;
        let minimum = (audio_bits / scale).ceil() as u64 + 1;
        for extra in [0, 1, 4_096, 999_999] {
            for larger in [0, 1, 512, 70_001, 999_999] {
                let small = compute(&limited(minimum + extra), duration)
                    .expect("minimum valid budget should produce bitrate params");
                let large = compute(&limited(minimum + extra + larger), duration)
                    .expect("larger budget should produce bitrate params");
                assert_eq!(small.audio_bitrate_kbps, large.audio_bitrate_kbps);
                assert!(large.video_bitrate_kbps >= small.video_bitrate_kbps);
            }
        }
    }
}
