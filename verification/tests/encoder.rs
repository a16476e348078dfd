//! ffmpeg command lines, error output and runs.

use azalea::config::{
    HardwareAcceleration, QualityPreset, TargetVideoCodec, TranscodeSettings,
};
use azalea::pipeline::errors::{Error, TranscodeStage};
use azalea::pipeline::ffmpeg::{
    clamp_kbps, execution_args, format_stderr_tail, mp4_stream_copy_viable, remux_args,
    stderr_outcome_text, stream_copy_viable_for, transcode_args, transcode_segment_args, video_filter, Args, FfmpegRun,
    RunAction, RunEvent, RunPhase, StderrOutcome, FFMPEG_SUCCESS_STDERR_TAIL_LINES,
};
use azalea::pipeline::process::BoundedRead;
use azalea::pipeline::types::{AudioCodec, MediaFacts, VideoCodec};

fn has_pair(args: &[String], flag: &str, value: &str) -> bool {
    args.windows(2).any(|w| w[0] == flag && w[1] == value)
}

fn flag_count(args: &[String], flag: &str) -> usize {
    args.iter().filter(|arg| arg.as_str() == flag).count()
}

#[test]
fn remux_args_include_copy_faststart_and_output() {
    let as_text = remux_args("in.mp4", "out.mp4", 4).to_vec();
    assert!(has_pair(&as_text, "-c", "copy"));
    assert!(has_pair(&as_text, "-movflags", "+faststart"));
    assert!(as_text.contains(&"out.mp4".to_string()));
}

#[test]
fn remux_without_threads_leaves_the_choice_to_ffmpeg() {
    assert_eq!(
        remux_args("a", "b", 0).to_vec(),
        ["-y", "-i", "a", "-c", "copy", "-movflags", "+faststart", "b"]
    );
    assert!(has_pair(&remux_args("a", "b", 3).to_vec(), "-threads", "3"));
}

#[test]
fn transcode_args_add_scale_filter_when_height_is_set() {
    let args = transcode_args(
        "input.mp4",
        "output.mp4",
        900,
        128,
        Some(720),
        &TranscodeSettings::default(),
        2,
        8,
        true,
    );
    let as_text = args.to_vec();
    assert!(as_text.windows(2).any(|w| w[0] == "-vf" && w[1].contains("scale=-2:720")));
    assert!(has_pair(&as_text, "-c:v", "libx264"));
}

#[test]
fn transcode_segment_args_seek_and_reset_segment_timestamps() {
    let args = transcode_segment_args(
        "input.mp4",
        "seg001.mp4",
        &format!("{:.3}", 12.5),
        &format!("{:.3}", 10.0),
        900,
        128,
        &TranscodeSettings::default(),
        2,
        8,
        true,
    );
    let as_text = args.to_vec();

    assert!(has_pair(&as_text, "-ss", "12.500"));
    let seek_index = as_text.iter().position(|arg| arg == "-ss");
    let input_index = as_text.iter().position(|arg| arg == "-i");
    assert!(matches!(
        (seek_index, input_index),
        (Some(seek_index), Some(input_index)) if seek_index < input_index
    ));
    assert!(has_pair(&as_text, "-t", "10.000"));
    assert!(has_pair(&as_text, "-force_key_frames", "expr:gte(t,0)"));
    assert!(has_pair(&as_text, "-reset_timestamps", "1"));
    assert!(has_pair(&as_text, "-avoid_negative_ts", "make_zero"));
}

#[test]
fn transcode_args_configure_qsv_device_and_filter() {
    let settings = TranscodeSettings {
        hardware_acceleration: HardwareAcceleration::Qsv,
        ..TranscodeSettings::default()
    };
    for unix in [true, false] {
        let args = transcode_args(
            "input.mp4",
            "output.mp4",
            900,
            128,
            Some(720),
            &settings,
            2,
            8,
            unix,
        );
        let as_text = args.to_vec();

        if unix {
            assert!(has_pair(&as_text, "-init_hw_device", "vaapi=va:/dev/dri/renderD128"));
            assert!(has_pair(&as_text, "-init_hw_device", "qsv=qsv@va"));
        } else {
            assert!(has_pair(&as_text, "-init_hw_device", "qsv=qsv:MFX_IMPL_hw_any"));
        }
        assert!(has_pair(&as_text, "-filter_hw_device", "qsv"));
        assert!(has_pair(&as_text, "-c:v", "h264_qsv"));
        assert!(as_text.windows(2).any(|w| w[0] == "-vf" && w[1].contains("scale_qsv=-1:720")));
        assert!(has_pair(&as_text, "-bitrate_limit", "1"));
        assert!(has_pair(&as_text, "-low_delay_brc", "1"));
    }
}

#[test]
fn transcode_segment_args_configure_qsv_bitrate_control() {
    let args = transcode_segment_args(
        "input.mp4",
        "seg001.mp4",
        "0.000",
        "120.000",
        278,
        128,
        &TranscodeSettings {
            hardware_acceleration: HardwareAcceleration::Qsv,
            ..TranscodeSettings::default()
        },
        2,
        8,
        true,
    );
    let as_text = args.to_vec();

    assert!(has_pair(&as_text, "-c:v", "h264_qsv"));
    assert!(has_pair(&as_text, "-b:v", "278k"));
    assert!(has_pair(&as_text, "-maxrate", "278k"));
    assert!(has_pair(&as_text, "-bitrate_limit", "1"));
    assert!(has_pair(&as_text, "-low_delay_brc", "1"));
    assert_eq!(flag_count(&as_text, "-b:a"), 1);
}

#[test]
fn software_command_line_is_exact() {
    let mut settings = TranscodeSettings::default();
    settings.quality_preset = QualityPreset::Quality;
    let args = transcode_args("in", "out", 60_000, 192, None, &settings, 2, 16, true);
    assert_eq!(
        args.to_vec(),
        [
            "-y", "-i", "in", "-c:v", "libx264", "-preset", "fast", "-crf", "18", "-maxrate",
            "60000k", "-bufsize", "100000k", "-threads", "8", "-x264-params",
            "threads=8:lookahead_threads=2", "-tune", "zerolatency", "-c:a", "aac", "-b:a",
            "192k", "-ac", "2", "-movflags", "+faststart", "out",
        ]
    );
}

#[test]
fn each_backend_has_its_rate_control() {
    let rate = |backend: HardwareAcceleration, preset: QualityPreset| {
        let settings = TranscodeSettings {
            hardware_acceleration: backend,
            quality_preset: preset,
            ..TranscodeSettings::default()
        };
        transcode_args("in", "out", 500, 128, None, &settings, 1, 4, true).to_vec()
    };
    let nvenc = rate(HardwareAcceleration::Nvenc, QualityPreset::Quality);
    assert!(has_pair(&nvenc, "-cq", "19"));
    assert!(has_pair(&nvenc, "-bufsize", "1000k"));
    let amf = rate(HardwareAcceleration::Amf, QualityPreset::Size);
    assert!(has_pair(&amf, "-quality", "balanced"));
    assert!(has_pair(&amf, "-rc", "vbr_latency"));
    let vt = rate(HardwareAcceleration::VideoToolbox, QualityPreset::Fast);
    assert!(has_pair(&vt, "-realtime", "true"));
    let vaapi = rate(HardwareAcceleration::Vaapi, QualityPreset::Fast);
    assert!(has_pair(&vaapi, "-hwaccel_device", "va"));
    assert!(has_pair(&vaapi, "-vf", "format=nv12|vaapi,hwupload"));
    assert_eq!(
        video_filter(Some(360), HardwareAcceleration::Vaapi),
        Some("format=nv12|vaapi,hwupload,scale_vaapi=-2:360".to_string())
    );
    assert_eq!(video_filter(None, HardwareAcceleration::Nvenc), None);
    assert_eq!(clamp_kbps(100_001), 100_000);
    assert_eq!(clamp_kbps(42), 42);
}

#[test]
fn argument_lists_grow_past_their_inline_room() {
    let mut args = Args::new();
    for i in 0..100 {
        args.push(&format!("{i}"));
    }
    args.option("-flag", "value");
    args.push("-flag");
    assert_eq!(args.len(), 103);
    assert_eq!(args.to_vec()[99], "99");
    assert!(args.has_flag("-flag"));
    assert!(!args.has_flag("-other"));
    assert_eq!(args.arg_value("-flag"), Some("value".to_string()));
    assert_eq!(args.arg_value("98"), Some("99".to_string()));
    let run = execution_args(args).to_vec();
    assert_eq!(run[103..], ["-progress", "pipe:1", "-nostats"]);
    let mut last = Args::new();
    last.push("-only");
    assert_eq!(last.arg_value("-only"), None);
}

#[test]
fn format_stderr_tail_keeps_last_20_lines_for_success_logs() {
    let stderr = (1..=25)
        .map(|line| format!("line-{line}"))
        .collect::<Vec<_>>()
        .join("\n");

    let tail = format_stderr_tail(stderr.as_bytes(), FFMPEG_SUCCESS_STDERR_TAIL_LINES, false);

    assert_eq!(
        tail,
        (6..=25)
            .map(|line| format!("line-{line}"))
            .collect::<Vec<_>>()
            .join("\n")
    );
}

#[test]
fn format_stderr_tail_appends_truncation_marker() {
    let tail = format_stderr_tail(b"speed=8.2x\n", FFMPEG_SUCCESS_STDERR_TAIL_LINES, true);

    assert_eq!(tail, "speed=8.2x\n[stderr truncated]");
}

#[test]
fn format_stderr_tail_normalizes_crlf_line_endings() {
    let tail = format_stderr_tail(
        b"frame=1\r\nfps=30\r\n",
        FFMPEG_SUCCESS_STDERR_TAIL_LINES,
        false,
    );

    assert_eq!(tail, "frame=1\nfps=30");
}

#[test]
fn stderr_tails_handle_the_edges() {
    assert_eq!(format_stderr_tail(b"", 5, false), "");
    assert_eq!(format_stderr_tail(b"", 5, true), "[stderr truncated]");
    assert_eq!(format_stderr_tail(b"a\nb\nc", 0, false), "");
    assert_eq!(format_stderr_tail(b"a\nb\nc", 1, false), "c");
    assert_eq!(format_stderr_tail(b"a\n\nb\n\n", 2, false), "b\n");
    assert_eq!(format_stderr_tail(b"caf\xe9\n", 2, false), "caf\u{fffd}");
}

#[test]
fn mp4_stream_copy_viability_requires_h264_and_aac_or_silence() {
    assert!(mp4_stream_copy_viable(MediaFacts {
        video_codec: VideoCodec::H264,
        audio_codec: AudioCodec::Aac,
        ..MediaFacts::default()
    }));
    assert!(mp4_stream_copy_viable(MediaFacts {
        video_codec: VideoCodec::H264,
        audio_codec: AudioCodec::Absent,
        ..MediaFacts::default()
    }));
    assert!(!mp4_stream_copy_viable(MediaFacts {
        video_codec: VideoCodec::Vp9,
        audio_codec: AudioCodec::Opus,
        ..MediaFacts::default()
    }));
    assert!(!mp4_stream_copy_viable(MediaFacts {
        video_codec: VideoCodec::H264,
        audio_codec: AudioCodec::Opus,
        ..MediaFacts::default()
    }));
}

fn read(data: &[u8]) -> StderrOutcome {
    StderrOutcome::Read(BoundedRead { data: data.to_vec(), exceeded: false })
}

#[test]
fn a_run_ends_well_only_after_a_good_exit() {
    let mut run = FfmpegRun::new(TranscodeStage::Remux, 1_000);
    assert!(matches!(
        run.on_event(RunEvent::Line { elapsed_ms: 1_000 }),
        RunAction::ReadLine { log_heartbeat: false }
    ));
    assert!(matches!(
        run.on_event(RunEvent::Quiet { elapsed_ms: 10, since_heartbeat_ms: 30_000 }),
        RunAction::ReadLine { log_heartbeat: true }
    ));
    assert!(matches!(
        run.on_event(RunEvent::OutputEnded),
        RunAction::AwaitExit { timeout_secs: 30 }
    ));
    assert!(matches!(
        run.on_event(RunEvent::Exited { success: true, exit_code: Some(0) }),
        RunAction::AwaitStderr { timeout_secs: 2 }
    ));
    assert!(matches!(
        run.on_event(RunEvent::Stderr { outcome: read(b"done\n") }),
        RunAction::Succeed { log_tail } if log_tail == "done"
    ));
    assert_eq!(run.phase, RunPhase::Over);
    assert!(matches!(run.on_event(RunEvent::OutputEnded), RunAction::Ignore));
}

#[test]
fn a_run_reports_each_failure() {
    let mut late = FfmpegRun::new(TranscodeStage::Split, 1_000);
    assert!(matches!(
        late.on_event(RunEvent::Line { elapsed_ms: 1_001 }),
        RunAction::KillAndFail {
            error: Error::Timeout { operation: "ffmpeg", duration_ms: 1_000 }
        }
    ));

    let mut stuck = FfmpegRun::new(TranscodeStage::Split, 1_000);
    stuck.on_event(RunEvent::OutputEnded);
    assert!(matches!(
        stuck.on_event(RunEvent::WaitTimedOut),
        RunAction::KillAndFail {
            error: Error::Timeout { operation: "ffmpeg-wait", duration_ms: 30_000 }
        }
    ));

    let mut lost = FfmpegRun::new(TranscodeStage::Split, 1_000);
    lost.on_event(RunEvent::OutputEnded);
    assert!(matches!(
        lost.on_event(RunEvent::WaitFailed { error: std::io::Error::other("x") }),
        RunAction::Fail { error: Error::Io(_) }
    ));

    let mut bad = FfmpegRun::new(TranscodeStage::Split, 1_000);
    bad.on_event(RunEvent::OutputEnded);
    bad.on_event(RunEvent::Exited { success: false, exit_code: Some(1) });
    assert!(matches!(
        bad.on_event(RunEvent::Stderr { outcome: read(b"no\n") }),
        RunAction::Fail {
            error: Error::TranscodeFailed {
                stage: TranscodeStage::Split, exit_code: Some(1), stderr_tail
            }
        } if stderr_tail == "no"
    ));
}

#[test]
fn lost_error_output_has_a_text() {
    assert_eq!(
        stderr_outcome_text(&StderrOutcome::ReadFailed("pipe".to_string()), 5),
        "stderr read failed: pipe"
    );
    assert_eq!(stderr_outcome_text(&StderrOutcome::TaskFailed, 5), "stderr task failed");
    assert_eq!(
        stderr_outcome_text(&StderrOutcome::DrainTimedOut, 5),
        "stderr drain timed out"
    );
}

#[test]
fn only_h264_is_copied_for_a_codec() {
    let facts = |video_codec, audio_codec| MediaFacts {
        video_codec,
        audio_codec,
        ..MediaFacts::default()
    };
    let viable = facts(VideoCodec::H264, AudioCodec::Aac);
    assert!(stream_copy_viable_for(viable, TargetVideoCodec::H264));
    assert!(!stream_copy_viable_for(viable, TargetVideoCodec::Hevc));
    assert!(!stream_copy_viable_for(viable, TargetVideoCodec::Av1));
    let other = facts(VideoCodec::Other, AudioCodec::Aac);
    assert!(!stream_copy_viable_for(other, TargetVideoCodec::H264));
}
