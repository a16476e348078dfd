//! Extensions, containers, codecs and progress texts.

use azalea::pipeline::types::{
    sanitize_extension, AudioCodec, MediaContainer, MediaFacts, PreparedPart, PreparedUpload,
    Progress, VideoCodec,
};

#[test]
fn sanitize_extension_normalizes_known_values() {
    assert_eq!(sanitize_extension(".MP4"), "mp4");
    assert_eq!(sanitize_extension(" jpg "), "jpg");
    assert_eq!(sanitize_extension("png?size=large"), "png");
}

#[test]
fn sanitize_extension_rejects_unknown_and_path_like_values() {
    assert_eq!(sanitize_extension("../etc/passwd"), "mp4");
    assert_eq!(sanitize_extension(""), "mp4");
    assert_eq!(sanitize_extension("tar.gz"), "mp4");
}

#[test]
fn sanitize_extension_only_yields_plain_suffixes() {
    for ext in ["..", "mp4/../x", "\u{2003}WebM\u{2003}", "jpeg#frag", "mkv\\x", "ÄVI", "...ts"] {
        let sanitized = sanitize_extension(ext);
        assert!(!sanitized.is_empty());
        assert!(sanitized.chars().all(|c| c.is_ascii_lowercase() || c.is_ascii_digit()));
    }
    assert_eq!(sanitize_extension("\u{2003}WebM\u{2003}"), "webm");
    assert_eq!(sanitize_extension("...ts"), "ts");
    assert_eq!(sanitize_extension("jpeg#frag"), "jpeg");
    assert_eq!(sanitize_extension("mkv\\x"), "mkv");
}

#[test]
fn media_container_parses_extensions_and_ffprobe_names() {
    assert_eq!(MediaContainer::from_extension("mov"), MediaContainer::Mov);
    assert_eq!(MediaContainer::from_extension("mkv"), MediaContainer::Matroska);
    assert_eq!(
        MediaContainer::from_ffprobe_name("mov,mp4,m4a,3gp,3g2,mj2"),
        MediaContainer::Mov
    );
    assert_eq!(
        MediaContainer::from_ffprobe_name("matroska,webm"),
        MediaContainer::Matroska
    );
}

#[test]
fn unknown_containers_are_told_apart() {
    assert_eq!(MediaContainer::from_extension("exe"), MediaContainer::Mp4);
    assert_eq!(MediaContainer::from_extension("png"), MediaContainer::Unknown);
    assert_eq!(MediaContainer::from_ffprobe_name("image2"), MediaContainer::Unknown);
    assert_eq!(MediaContainer::from_ffprobe_name("x, 3gp"), MediaContainer::Mp4);
    assert_eq!(MediaContainer::from_ffprobe_name("mpegts"), MediaContainer::MpegTs);
    assert!(MediaContainer::Mov.is_mp4_family());
    assert!(!MediaContainer::Webm.is_mp4_family());
    let facts = MediaFacts::from_extension("gif");
    assert_eq!(facts.container, MediaContainer::Gif);
    assert_eq!(facts.video_codec, VideoCodec::Other);
    assert_eq!(facts.audio_codec, AudioCodec::Other);
    assert_eq!(facts.bitrate_kbps, None);
}

#[test]
fn codec_parsing_recognizes_common_stream_copy_cases() {
    assert_eq!(VideoCodec::from_ffprobe_name("h264"), VideoCodec::H264);
    assert_eq!(VideoCodec::from_ffprobe_name("vp9"), VideoCodec::Vp9);
    assert_eq!(AudioCodec::from_ffprobe_name("aac"), AudioCodec::Aac);
    assert_eq!(AudioCodec::from_ffprobe_name("opus"), AudioCodec::Opus);
}

#[test]
fn other_codecs_are_recognized() {
    assert_eq!(VideoCodec::from_ffprobe_name("hevc"), VideoCodec::H265);
    assert_eq!(VideoCodec::from_ffprobe_name("h265"), VideoCodec::H265);
    assert_eq!(VideoCodec::from_ffprobe_name("vp8"), VideoCodec::Vp8);
    assert_eq!(VideoCodec::from_ffprobe_name("av1"), VideoCodec::Av1);
    assert_eq!(VideoCodec::from_ffprobe_name("H264"), VideoCodec::Other);
    assert_eq!(AudioCodec::from_ffprobe_name("vorbis"), AudioCodec::Vorbis);
    assert_eq!(AudioCodec::from_ffprobe_name("mp3"), AudioCodec::Mp3);
    assert_eq!(AudioCodec::from_ffprobe_name("flac"), AudioCodec::Other);
}

#[test]
fn progress_display_messages_are_stable() {
    assert_eq!(Progress::Resolving.message(), "Resolving metadata...");
    assert_eq!(Progress::Downloading.message(), "Downloading media...");
    assert_eq!(Progress::Optimizing.message(), "Processing media...");
    assert_eq!(Progress::Transcoding(2, 5).message(), "Transcoding segments (2/5)");
    assert_eq!(Progress::Uploading.message(), "Uploading...");
    assert_eq!(Progress::UploadingSegment(1, 4).message(), "Uploading segment 1/4...");
}

#[test]
fn transcoding_is_inflight_until_its_last_segment() {
    assert!(Progress::Transcoding(1, 2).is_inflight_transcoding());
    assert!(!Progress::Transcoding(2, 2).is_inflight_transcoding());
    assert!(Progress::Transcoding(2, 2).is_terminal_transcoding());
    assert!(!Progress::Uploading.is_inflight_transcoding());
    assert!(!Progress::Uploading.is_terminal_transcoding());
}

#[test]
fn prepared_parts_keep_what_they_were_given() {
    let part = PreparedPart::with_upload_ready_bytes("a.mp4".to_string(), 3, vec![1, 2, 3]);
    assert_eq!(part.path(), "a.mp4");
    assert_eq!(part.size(), 3);
    assert_eq!(part.upload_ready_bytes().map(|b| b.as_slice()), Some([1u8, 2, 3].as_slice()));
    assert_eq!(PreparedUpload::single(part).len(), 1);
    let parts = vec![
        PreparedPart::new("a".to_string(), 1),
        PreparedPart::new("b".to_string(), 2),
    ];
    assert!(parts[0].upload_ready_bytes().is_none());
    assert_eq!(PreparedUpload::split(parts).len(), 2);
}
