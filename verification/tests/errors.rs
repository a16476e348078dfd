//! Errors of the pipeline and their texts.

use azalea::pipeline::errors::{
    protocol_error, transcode_error, write_error, DownloadError, Error, ResolveError,
    TranscodeStage,
};

#[test]
fn duplicate_is_not_user_notified() {
    let error = Error::Duplicate;
    assert!(!error.should_notify_user());
    assert_eq!(error.user_message(), "This tweet was already archived recently.");
}

#[test]
fn ssrf_errors_have_security_user_message() {
    let error = Error::DownloadFailed {
        source: DownloadError::SsrfBlocked("blocked".to_string()),
    };

    assert!(error.should_notify_user());
    assert_eq!(
        error.user_message(),
        "❌ The media URL was blocked for security reasons."
    );
}

#[test]
fn transcode_display_contains_stage_and_stderr_tail() {
    let error = Error::TranscodeFailed {
        stage: TranscodeStage::Split,
        exit_code: Some(1),
        stderr_tail: "encoder failed".to_string(),
    };

    let rendered = error.message();
    assert!(rendered.contains("Split"));
    assert!(rendered.contains("encoder failed"));
    assert!(rendered.contains("exit=Some(1)"));
}

#[test]
fn io_error_propagates_source() {
    let inner = std::io::Error::other("boom");
    let error = Error::Io(inner);
    let source = error.source().expect("io error should expose source");
    assert_eq!(source.to_string(), "boom");
}

#[test]
fn every_error_has_its_text() {
    assert_eq!(Error::Duplicate.message(), "duplicate tweet");
    assert_eq!(
        Error::ResolveFailed { resolver: "vxtwitter", source: ResolveError::HttpStatus(404) }
            .message(),
        "resolve failed (vxtwitter): http status 404"
    );
    assert_eq!(
        Error::ResolveFailed {
            resolver: "yt-dlp",
            source: ResolveError::ParseFailed("bad".to_string()),
        }
        .message(),
        "resolve failed (yt-dlp): parse failed: bad"
    );
    assert_eq!(
        ResolveError::ProcessFailed { exit_code: Some(-9), stderr: "x".to_string() }.message(),
        "process failed (exit Some(-9)): x"
    );
    assert_eq!(
        ResolveError::ProcessFailed { exit_code: None, stderr: String::new() }.message(),
        "process failed (exit None): "
    );
    assert_eq!(
        Error::DownloadFailed { source: DownloadError::TooLarge { size_mb: 9, max_mb: 8 } }
            .message(),
        "download failed: file too large (9 MiB > 8 MiB)"
    );
    assert_eq!(
        Error::DownloadFailed { source: DownloadError::HttpStatus(500) }.message(),
        "download failed: http status 500"
    );
    assert_eq!(
        Error::DownloadFailed { source: DownloadError::EmptyResponse }.message(),
        "download failed: empty response"
    );
    assert_eq!(
        protocol_error("short body").message(),
        "download failed: write failed: short body"
    );
    assert_eq!(
        write_error(std::io::Error::other("disk")).message(),
        "download failed: write failed: disk"
    );
    assert_eq!(
        transcode_error(TranscodeStage::ImageCompress, "no").message(),
        "transcode failed (ImageCompress, exit=None): no"
    );
    assert_eq!(
        Error::Timeout { operation: "ffmpeg", duration_ms: 61_999 }.message(),
        "ffmpeg timed out after 61s"
    );
    assert_eq!(
        Error::DiskSpace { available_mb: 1, required_mb: 2 }.message(),
        "insufficient disk space (available 1 MiB, required 2 MiB)"
    );
    assert_eq!(Error::Io(std::io::Error::other("boom")).message(), "io error: boom");
}

#[test]
fn every_error_has_its_user_message() {
    let resolve = Error::ResolveFailed { resolver: "r", source: ResolveError::HttpStatus(1) };
    assert!(resolve.user_message().starts_with("❌ Could not extract media from tweet."));
    let download = Error::DownloadFailed { source: DownloadError::EmptyResponse };
    assert_eq!(
        download.user_message(),
        "❌ Failed to download media. Please try again later."
    );
    let transcode = transcode_error(TranscodeStage::Remux, "tail");
    assert_eq!(transcode.user_message(), "❌ Failed to process media for upload.");
    assert_eq!(transcode.transcode_stderr(), "tail");
    assert_eq!(Error::Duplicate.transcode_stderr(), "");
    assert!(Error::Duplicate.source().is_none());
    assert_eq!(
        Error::Timeout { operation: "x", duration_ms: 1 }.user_message(),
        "❌ Operation timed out. The media may be too large or the service is slow."
    );
    assert_eq!(
        Error::DiskSpace { available_mb: 0, required_mb: 1 }.user_message(),
        "❌ Not enough disk space to process the media."
    );
    assert_eq!(
        Error::Io(std::io::Error::other("x")).user_message(),
        "❌ An internal error occurred."
    );
}
