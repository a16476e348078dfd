//! The command line.

use azalea::cli::args::{
    parse_codec, parse_hw, parse_quality, parse_size, size_sign_error, CliArgs, CodecChoice,
    HwChoice, ParseResult, SizeValue, USAGE,
};
use azalea::cli::filename::{base_name, collision_name, sanitize_component};
use azalea::cli::local_transcode::{
    copy_context, crf_encode_args, encoder_of, produce, remux_args_for, with_encoder, LocalPlan,
    TranscodeOptions,
};
use azalea::cli::run::{
    collect_input, collect_urls, engine_settings, interactive_line, join_lines, missing_tool_error,
    output_extension, part_extension, part_name, summary, typed_line, BatchRun, LineAction,
    TypedLine,
};
use azalea::config::{
    EngineSettings, FloatBits, HardwareAcceleration, QualityPreset, TargetVideoCodec,
    TranscodeSettings,
};
use azalea::pipeline::ffmpeg::Args;

#[test]
fn sanitize_strips_windows_illegal_characters() {
    let name = base_name("user/name:evil", 42, "mp4");
    assert_eq!(name, "user_name_evil_42.mp4");
}

#[test]
fn sanitize_falls_back_when_empty_after_cleanup() {
    let name = base_name("...", 42, "mp4");
    assert_eq!(name, "download_42.mp4");
}

#[test]
fn names_are_safe_everywhere() {
    assert_eq!(sanitize_component("<a>:\"/\\|?*b. ."), "_a________b");
    assert_eq!(sanitize_component("tab\tand\u{9f}"), "tab_and_");
    assert_eq!(sanitize_component(" keeps spaces "), " keeps spaces");
    assert_eq!(sanitize_component(""), "download");
    assert_eq!(collision_name("user_42", Some("mp4"), 3), "user_42-3.mp4");
    assert_eq!(collision_name("user", None, 1), "user-1");
    assert_ne!(collision_name("u", Some("1"), 1), collision_name("u", Some("1"), 11));
}

fn values(list: &[&str]) -> Vec<String> {
    list.iter().map(|s| s.to_string()).collect()
}

fn parsed(list: &[&str]) -> CliArgs {
    match CliArgs::in_dir("/here".to_string()).parse(&values(list), 0) {
        ParseResult::Finished { args } => args,
        other => panic!("unexpected result: {other:?}"),
    }
}

fn refused(list: &[&str]) -> String {
    match CliArgs::default().parse(&values(list), 0) {
        ParseResult::Failed { message } => message,
        other => panic!("unexpected result: {other:?}"),
    }
}

#[test]
fn arguments_are_read_in_order() {
    let args = parsed(&[
        "https://x.com/a/status/1",
        "--input",
        "links.txt",
        "-o",
        "out",
        "--codec",
        "h265",
        "--quality",
        "size",
        "--crf",
        "30",
        "--hw",
        "none",
        "-j",
        "3",
        "--max-size",
        "50MB",
        "--discord-cap",
        "second",
    ]);
    assert_eq!(args.urls, vec!["https://x.com/a/status/1", "second"]);
    assert_eq!(args.input_file.as_deref(), Some("links.txt"));
    assert_eq!(args.output_dir, "out");
    assert_eq!(args.codec, CodecChoice::Hevc);
    assert_eq!(args.quality, QualityPreset::Size);
    assert_eq!(args.crf, Some(30));
    assert_eq!(args.hw, HwChoice::Software);
    assert_eq!(args.concurrency, 3);
    assert_eq!(args.max_size_bytes, Some(52_428_800));
    assert!(args.discord_cap);
    assert!(!args.is_interactive());

    let bare = parsed(&[]);
    assert!(bare.is_interactive());
    assert_eq!(bare.output_dir, "/here");
    assert_eq!(bare.codec, CodecChoice::Auto);
    assert_eq!(bare.quality, QualityPreset::Balanced);
    assert_eq!(bare.concurrency, 1);
    assert_eq!(CliArgs::default().output_dir, ".");
    assert!(!parsed(&["--input", "f"]).is_interactive());
}

#[test]
fn bad_arguments_are_named() {
    assert_eq!(refused(&["--input"]), "--input requires a value");
    assert_eq!(refused(&["-o"]), "--output requires a value");
    assert_eq!(refused(&["-j"]), "--concurrency requires a value");
    assert_eq!(refused(&["--max-size"]), "--max-size requires a value");
    assert_eq!(refused(&["--wat"]), "unknown option: --wat");
    assert_eq!(refused(&["-"]), "unknown option: -");
    assert_eq!(refused(&["--crf", "256"]), "invalid --crf value: 256");
    assert_eq!(refused(&["-j", "x"]), "invalid --concurrency value: x");
    assert_eq!(refused(&["-j", "0"]), "--concurrency must be at least 1");
    assert_eq!(
        refused(&["--codec", "vp9"]),
        "unknown --codec value: vp9 (expected auto|av1|hevc|h264|copy)"
    );
    assert_eq!(
        refused(&["--quality", "best"]),
        "unknown --quality value: best (expected fast|balanced|quality|size)"
    );
    assert_eq!(
        refused(&["--hw", "gpu"]),
        "unknown --hw value: gpu (expected auto|none|nvenc|vaapi|videotoolbox|qsv|amf)"
    );
    assert_eq!(refused(&["--max-size", " ten "]), "invalid --max-size value: ten");
    assert_eq!(
        refused(&["--max-size", "0MB"]),
        "--max-size must be a positive number: 0MB"
    );
    assert!(matches!(
        CliArgs::default().parse(&values(&["-h", "--wat"]), 0),
        ParseResult::Help
    ));
    assert!(USAGE.starts_with("usage: azalea-cli [OPTIONS] [URL]...\n\nWith no URLs"));
    assert!(USAGE.contains("\n  --input <FILE>        Read"));
    assert!(USAGE.ends_with("-h, --help            Print this message"));
}

#[test]
fn sizes_with_a_fraction_are_measured_outside() {
    let list = values(&["--max-size", " 1.5 GB", "-j", "2", "last"]);
    match CliArgs::default().parse(&list, 0) {
        ParseResult::Measure { mut args, next, size } => {
            assert_eq!(next, 2);
            assert_eq!(size.raw, "1.5 GB");
            assert_eq!(size.digits, "1.5");
            assert_eq!(size.multiplier, 1 << 30);
            args.max_size_bytes = Some(7);
            match args.parse(&list, next) {
                ParseResult::Finished { args } => {
                    assert_eq!(args.max_size_bytes, Some(7));
                    assert_eq!(args.concurrency, 2);
                    assert_eq!(args.urls, vec!["last"]);
                }
                other => panic!("unexpected result: {other:?}"),
            }
        }
        other => panic!("unexpected result: {other:?}"),
    }
    assert_eq!(size_sign_error("-1"), "--max-size must be a positive number: -1");
}

#[test]
fn whole_sizes_are_what_fractions_would_give() {
    for (text, unit) in [("gb", 1u64 << 30), ("MB", 1 << 20), ("kb", 1 << 10), ("b", 1), ("", 1)] {
        for n in [1u64, 7, 50, 1 << 33, 1 << 53] {
            let raw = format!("{n}{text}");
            let expected = (n as f64 * unit as f64) as u64;
            match parse_size(&raw) {
                SizeValue::Bytes { bytes } => assert_eq!(bytes, expected, "{raw}"),
                other => panic!("unexpected size for {raw}: {other:?}"),
            }
        }
    }
    assert!(matches!(parse_size("9007199254740993"), SizeValue::Fraction { .. }));
    assert!(matches!(parse_size("1e3kb"), SizeValue::Fraction { .. }));
    assert!(matches!(parse_size("-5"), SizeValue::Fraction { .. }));
    assert!(matches!(parse_size("mb"), SizeValue::Invalid { .. }));
}

#[test]
fn choices_have_names() {
    assert_eq!(parse_codec("hevc").unwrap(), CodecChoice::Hevc);
    assert_eq!(parse_codec("copy").unwrap(), CodecChoice::Copy);
    assert_eq!(parse_quality("fast").unwrap(), QualityPreset::Fast);
    assert_eq!(parse_hw("videotoolbox").unwrap(), HwChoice::VideoToolbox);
    assert!(parse_hw("NVENC").is_err());
    assert_eq!(CodecChoice::Auto.target_codec(), Some(TargetVideoCodec::Hevc));
    assert_eq!(CodecChoice::Av1.target_codec(), Some(TargetVideoCodec::Av1));
    assert_eq!(CodecChoice::H264.target_codec(), Some(TargetVideoCodec::H264));
    assert_eq!(CodecChoice::Copy.target_codec(), None);
    assert_eq!(HwChoice::Auto.resolve(true), HardwareAcceleration::Amf);
    assert_eq!(HwChoice::Auto.resolve(false), HardwareAcceleration::Nvenc);
    assert_eq!(HwChoice::Software.resolve(false), HardwareAcceleration::Software);
    assert_eq!(HwChoice::Qsv.resolve(true), HardwareAcceleration::Qsv);
}

fn options(codec: CodecChoice, max_size_bytes: Option<u64>) -> TranscodeOptions {
    TranscodeOptions {
        codec,
        quality: QualityPreset::Balanced,
        crf: None,
        max_size_bytes,
        hw: HardwareAcceleration::Software,
        concurrency: 1,
    }
}

#[test]
fn local_files_are_produced_the_cheapest_way() {
    let two = Some(FloatBits::from_bits(2f64.to_bits()));
    let three = Some(FloatBits::from_bits(3f64.to_bits()));
    let copy = options(CodecChoice::Copy, None);
    assert_eq!(produce(&copy, true, true, None, None), LocalPlan::FixContainer);
    assert_eq!(produce(&copy, false, false, None, None), LocalPlan::Copy);
    let h264 = options(CodecChoice::H264, None);
    assert_eq!(produce(&h264, true, true, None, None), LocalPlan::Remux);
    assert_eq!(
        produce(&h264, false, false, None, None),
        LocalPlan::EncodeByQuality { codec: TargetVideoCodec::H264 }
    );
    let sized = options(CodecChoice::Auto, Some(9));
    assert_eq!(
        produce(&sized, false, false, two, three),
        LocalPlan::EncodeToSize {
            codec: TargetVideoCodec::Hevc,
            max_size_bytes: 9,
            duration: two.unwrap()
        }
    );
    assert_eq!(
        produce(&sized, false, false, None, three),
        LocalPlan::EncodeToSize {
            codec: TargetVideoCodec::Hevc,
            max_size_bytes: 9,
            duration: three.unwrap()
        }
    );
    assert_eq!(produce(&sized, false, false, None, None), LocalPlan::UnknownDuration);
    assert_eq!(LocalPlan::FixContainer.mode(), "remux (container fix)");
    assert_eq!(LocalPlan::Copy.mode(), "copy");
    assert_eq!(LocalPlan::Remux.mode(), "remux");
    assert_eq!(LocalPlan::UnknownDuration.mode(), "encode");
}

#[test]
fn only_mp4_targets_are_made_streamable() {
    let list = |threads: u32, is_mp4: bool| remux_args_for("in", "out", threads, is_mp4).to_vec();
    assert_eq!(list(0, false), ["-y", "-i", "in", "-c", "copy", "out"]);
    assert_eq!(list(3, false), ["-y", "-i", "in", "-c", "copy", "-threads", "3", "out"]);
    assert!(list(3, true).contains(&"+faststart".to_string()));
    assert_eq!(copy_context("a", "b"), "copy a to b");
}

#[test]
fn codecs_have_encoders_on_every_backend() {
    let hevc = TargetVideoCodec::Hevc;
    let av1 = TargetVideoCodec::Av1;
    assert_eq!(encoder_of(TargetVideoCodec::H264, HardwareAcceleration::Qsv), "h264_qsv");
    assert_eq!(encoder_of(hevc, HardwareAcceleration::Software), "libx265");
    assert_eq!(encoder_of(hevc, HardwareAcceleration::VideoToolbox), "hevc_videotoolbox");
    assert_eq!(encoder_of(av1, HardwareAcceleration::Nvenc), "av1_nvenc");
    assert_eq!(encoder_of(av1, HardwareAcceleration::VideoToolbox), "libsvtav1");
    assert_eq!(encoder_of(av1, HardwareAcceleration::Software), "libsvtav1");
}

#[test]
fn another_encoder_takes_the_place_of_the_first() {
    let mut args = Args::new();
    args.push("-y");
    args.option("-c:v", "libx264");
    args.option("-b:v", "900k");
    args.push("libx264");
    let changed = with_encoder(&args, "libx265").to_vec();
    assert_eq!(changed, ["-y", "-c:v", "libx265", "-b:v", "900k", "libx264"]);
    assert!(with_encoder(&Args::new(), "libx265").to_vec().is_empty());
}

#[test]
fn constant_quality_follows_the_preset_unless_it_is_given() {
    let mut settings = TranscodeSettings::default();
    settings.quality_preset = QualityPreset::Quality;
    settings.hardware_acceleration = HardwareAcceleration::Software;
    let hevc = TargetVideoCodec::Hevc;
    assert_eq!(
        crf_encode_args("in", "out", &settings, hevc, None, 0, true).to_vec(),
        ["-y", "-i", "in", "-c:v", "libx265", "-crf", "18", "-c:a", "copy", "out"]
    );
    settings.hardware_acceleration = HardwareAcceleration::Nvenc;
    assert_eq!(
        crf_encode_args("in", "out", &settings, hevc, Some(30), 2, true).to_vec(),
        [
            "-y", "-i", "in", "-c:v", "hevc_nvenc", "-cq", "30", "-threads", "2", "-c:a", "copy",
            "out"
        ]
    );
    settings.hardware_acceleration = HardwareAcceleration::Amf;
    let args = crf_encode_args("in", "out", &settings, hevc, Some(1), 0, true);
    assert_eq!(args.arg_value("-q:v").as_deref(), Some("1"));
    settings.hardware_acceleration = HardwareAcceleration::Qsv;
    let args = crf_encode_args("in", "out", &settings, hevc, Some(1), 0, false);
    assert_eq!(args.arg_value("-global_quality").as_deref(), Some("1"));
    assert_eq!(args.arg_value("-init_hw_device").as_deref(), Some("qsv=qsv:MFX_IMPL_hw_any"));
    assert!(args.has_flag("-vf"));
}

#[test]
fn command_line_settings_are_valid() {
    let settings = engine_settings(2, HardwareAcceleration::Amf);
    assert!(settings.validate().is_ok());
    assert!(!settings.storage.dedup_persistent);
    assert!(!settings.storage.metrics_enabled);
    assert_eq!(settings.concurrency.download, 2);
    assert_eq!(settings.concurrency.upload, EngineSettings::default().concurrency.upload);
    assert_eq!(settings.pipeline.ytdlp_timeout_secs, 3_600);
    assert_eq!(settings.transcode.hardware_acceleration, HardwareAcceleration::Amf);
    assert!(engine_settings(0, HardwareAcceleration::Amf).validate().is_err());
    assert_eq!(
        missing_tool_error("ffmpeg"),
        "`ffmpeg` was not found on PATH; azalea-cli needs it to run"
    );
}

#[test]
fn links_come_from_arguments_and_the_file() {
    assert_eq!(join_lines(&vec![]), "");
    assert_eq!(join_lines(&values(&["a"])), "a");
    assert_eq!(join_lines(&values(&["a", "b", "c"])), "a\nb\nc");
    let args = parsed(&["https://x.com/a/status/1"]);
    assert_eq!(collect_input(&args, Some("x")), "https://x.com/a/status/1\nx");
    assert_eq!(collect_input(&parsed(&[]), Some("x")), "\nx");
    let links = collect_urls(&args, Some("https://twitter.com/b/status/2\nno link"));
    assert_eq!(links.len(), 2);
    assert_eq!(links.get(1).unwrap().canonical_url(), "https://x.com/b/status/2");
    assert!(collect_urls(&parsed(&["nothing"]), None).is_empty());
}

#[test]
fn typed_lines_run_skip_or_quit() {
    assert!(matches!(typed_line(" \t"), TypedLine::Blank));
    assert!(matches!(typed_line(" exit "), TypedLine::Quit));
    assert!(matches!(typed_line("EXIT"), TypedLine::Text { text } if text == "EXIT"));
    assert!(matches!(interactive_line(""), LineAction::Skip));
    assert!(matches!(interactive_line("quit"), LineAction::Quit));
    assert!(matches!(interactive_line("hello"), LineAction::NoUrl));
    assert!(matches!(
        interactive_line(" https://x.com/a/status/1 "),
        LineAction::Run { links } if links.len() == 1
    ));
}

#[test]
fn a_batch_starts_every_link_once() {
    let mut batch = BatchRun::new(3, 2);
    assert_eq!(batch.start_next(), Some(0));
    assert_eq!(batch.start_next(), Some(1));
    assert_eq!(batch.start_next(), None);
    batch.finished();
    assert_eq!(batch.start_next(), Some(2));
    assert_eq!(batch.start_next(), None);
    batch.finished();
    batch.finished();
    assert_eq!(batch.start_next(), None);
    assert_eq!(batch.running, 0);
    assert_eq!(batch.started, 3);
}

#[test]
fn kept_files_are_named_and_summed_up() {
    assert_eq!(output_extension(CodecChoice::Copy, Some("WebM")), part_extension(Some("WebM")));
    assert_eq!(output_extension(CodecChoice::Copy, None), "mp4");
    assert_eq!(output_extension(CodecChoice::H264, Some("webm")), "mp4");
    assert_eq!(output_extension(CodecChoice::Av1, Some("webm")), "mkv");
    assert_eq!(part_name("u", 5, "mp4", 0, 1), "u_5.mp4");
    assert_eq!(part_name("u:", 5, "mp4", 1, 2), "u__5-part2.mp4");
    assert_eq!(
        summary("url", "path", 12, "encode", Some("libx264")),
        "url -> path (12 bytes, encode, libx264)"
    );
    assert_eq!(
        summary("url", "path", 12, "discord-cap", None),
        "url -> path (12 bytes, discord-cap)"
    );
}
