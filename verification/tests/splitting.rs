//! Cutting a stream at its keyframes.

use azalea::pipeline::errors::{Error, TranscodeStage};
use azalea::pipeline::ffmpeg::copy_segment_args;
use azalea::pipeline::process::{JsonSubprocessError, JsonSubprocessOutput};
use azalea::pipeline::stream_split::{
    choose_split, packet_scan_args, parse_packets, part_file_name, part_pattern, parts_usable,
    plan_cuts, scan_packets, Keyframe, PacketScan, SplitChoice,
};

const CUT_EPSILON_SECS: f64 = 0.001;

fn scan(keyframes: &[(&str, u64)], total_bytes: u64) -> PacketScan {
    PacketScan {
        keyframes: keyframes
            .iter()
            .map(|(pts, offset)| Keyframe { pts: pts.to_string(), offset: *offset })
            .collect(),
        total_bytes,
    }
}

fn cut_times(scan: &PacketScan, budget: u64) -> Option<Vec<f64>> {
    plan_cuts(scan, budget).map(|cuts| {
        cuts.iter()
            .map(|&at| scan.keyframes[at].pts.parse::<f64>().unwrap() - CUT_EPSILON_SECS)
            .collect()
    })
}

#[test]
fn parses_keyframe_offsets_in_demux_order() {
    let stdout = b"codec_type=video|pts_time=0.000000|size=100|flags=K__\n\
codec_type=audio|pts_time=0.000000|size=10|flags=K__\n\
codec_type=video|pts_time=0.041000|size=50|flags=___\n\
codec_type=video|pts_time=2.000000|size=90|flags=K__\n\
codec_type=audio|pts_time=2.000000|size=10|flags=K__\n";
    let parsed = parse_packets(stdout);
    let keyframes: Vec<(f64, u64)> = parsed
        .keyframes
        .iter()
        .map(|k| (k.pts.parse::<f64>().unwrap(), k.offset))
        .collect();
    assert_eq!(keyframes, vec![(2.0, 160)]);
    assert_eq!(parsed.total_bytes, 260);
}

#[test]
fn furthest_fit_minimizes_parts() {
    let scan = scan(&[("2.0", 40), ("4.0", 80), ("6.0", 120), ("8.0", 160)], 200);
    let cuts = cut_times(&scan, 100).unwrap_or_default();
    assert_eq!(cuts, [4.0 - CUT_EPSILON_SECS, 8.0 - CUT_EPSILON_SECS]);
}

#[test]
fn whole_file_under_budget_needs_no_cut() {
    let scan = scan(&[("2.0", 40)], 90);
    assert_eq!(plan_cuts(&scan, 100), Some(Vec::new()));
}

#[test]
fn oversized_keyframe_interval_is_rejected() {
    let head = scan(&[("2.0", 150)], 200);
    assert_eq!(plan_cuts(&head, 100), None);

    let tail = scan(&[("2.0", 50)], 200);
    assert_eq!(plan_cuts(&tail, 100), None);
}

#[test]
fn broken_packet_lines_still_count_their_bytes() {
    let parsed = parse_packets(b"codec_type=video|size=5|flags=K__\ngarbage\n\xff\xfe\nsize=7");
    assert!(parsed.keyframes.is_empty());
    assert_eq!(parsed.total_bytes, 12);
}

#[test]
fn keyframes_without_a_time_are_passed_over() {
    let line = |pts: &str| format!("codec_type=video|pts_time={pts}|size=10|flags=K__\n");
    for pts in ["N/A", "", "1.2.3", "0x10", "1e", ".", "1 "] {
        let text = format!("{}{}", line("0"), line(pts));
        assert!(parse_packets(text.as_bytes()).keyframes.is_empty(), "{pts}");
        assert!(pts.parse::<f64>().is_err(), "{pts}");
    }
    for pts in ["1", "1.", ".5", "+2.5", "-1e-3", "1E5", "inf", "-Infinity", "NaN"] {
        let text = format!("{}{}", line("0"), line(pts));
        assert_eq!(parse_packets(text.as_bytes()).keyframes.len(), 1, "{pts}");
        assert!(pts.parse::<f64>().is_ok(), "{pts}");
    }
}

#[test]
fn part_counts_are_bounded() {
    let s = scan(&[("2.0", 40), ("4.0", 80), ("6.0", 120), ("8.0", 160)], 200);
    assert!(matches!(choose_split(&s, 100, 3), SplitChoice::Cut { cuts } if cuts == vec![1, 3]));
    assert!(matches!(choose_split(&s, 100, 2), SplitChoice::TooManyParts));
    assert!(matches!(choose_split(&s, 30, 10), SplitChoice::NoPlan));
}

#[test]
fn copied_parts_have_numbered_names() {
    assert_eq!(part_file_name("clip", 7), "clip_copy007.mp4");
    assert_eq!(part_file_name("clip", 1234), "clip_copy1234.mp4");
    assert_eq!(part_pattern("clip"), "clip_copy%03d.mp4");
    assert!(parts_usable(&vec![1, 8], 8));
    assert!(!parts_usable(&vec![1, 9], 8));
    assert!(!parts_usable(&vec![0, 8], 8));
}

#[test]
fn packets_are_listed_one_per_line() {
    assert_eq!(
        packet_scan_args("in.mp4"),
        [
            "-v",
            "error",
            "-show_entries",
            "packet=codec_type,pts_time,size,flags",
            "-of",
            "compact=p=0",
            "in.mp4"
        ]
    );
}

#[test]
fn scans_are_read_or_refused() {
    let output = |success: bool| JsonSubprocessOutput {
        success,
        exit_code: Some(3),
        stdout: b"codec_type=audio|size=7\ncodec_type=video|pts_time=1.5|size=5|flags=K__\n".to_vec(),
        stderr_tail: "bad file".to_string(),
    };
    let read = scan_packets(Ok(output(true)), 9).expect("the scan ran");
    assert_eq!(read.total_bytes, 12);
    assert_eq!(read.keyframes.len(), 1);
    assert_eq!(read.keyframes[0].pts, "1.5");
    assert_eq!(read.keyframes[0].offset, 7);

    match scan_packets(Ok(output(false)), 9) {
        Err(Error::TranscodeFailed { stage, exit_code, stderr_tail }) => {
            assert_eq!(stage, TranscodeStage::Split);
            assert_eq!(exit_code, Some(3));
            assert_eq!(stderr_tail, "bad file");
        }
        other => panic!("unexpected result: {other:?}"),
    }
    let cut = JsonSubprocessError::OutputLimit { stderr_tail: "tail".to_string() };
    match scan_packets(Err(cut), 9) {
        Err(Error::TranscodeFailed { stage, exit_code, stderr_tail }) => {
            assert_eq!(stage, TranscodeStage::Split);
            assert_eq!(exit_code, None);
            assert_eq!(stderr_tail, "packet scan output exceeded limit: tail");
        }
        other => panic!("unexpected result: {other:?}"),
    }
    assert!(matches!(
        scan_packets(Err(JsonSubprocessError::Timeout), 9),
        Err(Error::Timeout { operation: "ffprobe packet scan", duration_ms: 9 })
    ));
    let missing = std::io::Error::from(std::io::ErrorKind::NotFound);
    assert!(matches!(
        scan_packets(Err(JsonSubprocessError::Io(missing)), 9),
        Err(Error::Io(_))
    ));
}

#[test]
fn copied_parts_are_cut_at_the_given_times() {
    assert_eq!(
        copy_segment_args("in.mp4", "out%03d.mp4", "1.999000,3.999000").to_vec(),
        [
            "-y", "-i", "in.mp4", "-c", "copy", "-f", "segment", "-segment_times",
            "1.999000,3.999000", "-reset_timestamps", "1", "out%03d.mp4"
        ]
    );
}
