//! Errors of the pipeline stages.
//!
//! `Duplicate` is a soft error: the user is not told of it. Disk space is given
//! in MiB, timeouts in milliseconds.

use crate::text::{
    decimal, decimal_of, is_digit, lemma_decimal_value, signed_decimal, signed_decimal_of,
};
use vstd::prelude::*;
use vstd::string::StringExecFns;

verus! {

/// `std::io::Error`, carried through as it came.
#[verifier::external_type_specification]
#[verifier::external_body]
pub struct ExIoError(std::io::Error);

/// Canonical error of the pipeline stages.
#[derive(Debug)]
pub enum Error {
    Duplicate,
    ResolveFailed { resolver: &'static str, source: ResolveError },
    DownloadFailed { source: DownloadError },
    TranscodeFailed { stage: TranscodeStage, exit_code: Option<i32>, stderr_tail: String },
    Timeout { operation: &'static str, duration_ms: u64 },
    DiskSpace { available_mb: u64, required_mb: u64 },
    Io(std::io::Error),
}

/// Failures while resolving tweet media metadata.
#[derive(Debug, Clone)]
pub enum ResolveError {
    HttpStatus(u16),
    ParseFailed(String),
    ProcessFailed { exit_code: Option<i32>, stderr: String },
}

/// Failures while downloading media.
#[derive(Debug)]
pub enum DownloadError {
    HttpStatus(u16),
    TooLarge { size_mb: u64, max_mb: u64 },
    WriteFailed(IoCause),
    EmptyResponse,
    SsrfBlocked(String),
}

/// Why an I/O step failed: the system said so, or a check of this library.
#[derive(Debug)]
pub enum IoCause {
    Os(std::io::Error),
    Other(String),
}

/// Stage of a failed transcode.
#[derive(Debug, Clone, Copy, PartialEq, Eq, Structural)]
pub enum TranscodeStage {
    Remux,
    Transcode,
    Split,
    ImageCompress,
}

/// The text of an I/O error, through its `Display`. The text comes from the
/// operating system, so nothing is said of it.
#[verifier::external_body]
pub(crate) fn io_error_text(error: &std::io::Error) -> (text: String) {
    error.to_string()
}

impl TranscodeStage {
    pub open spec fn name(self) -> Seq<char> {
        match self {
            TranscodeStage::Remux => "Remux"@,
            TranscodeStage::Transcode => "Transcode"@,
            TranscodeStage::Split => "Split"@,
            TranscodeStage::ImageCompress => "ImageCompress"@,
        }
    }

    fn label(self) -> (s: &'static str)
        ensures
            s@ == self.name(),
    {
        match self {
            TranscodeStage::Remux => "Remux",
            TranscodeStage::Transcode => "Transcode",
            TranscodeStage::Split => "Split",
            TranscodeStage::ImageCompress => "ImageCompress",
        }
    }
}

/// How an optional exit code is written.
pub open spec fn exit_text(code: Option<i32>) -> Seq<char> {
    match code {
        Some(n) => "Some("@ + signed_decimal(n as int) + ")"@,
        None => "None"@,
    }
}

fn exit_text_of(code: Option<i32>) -> (s: String)
    ensures
        s@ == exit_text(code),
{
    match code {
        Some(n) => {
            let mut s = "Some(".to_owned();
            s.append(signed_decimal_of(n).as_str());
            s.append(")");
            s
        },
        None => "None".to_owned(),
    }
}

impl ResolveError {
    pub open spec fn text(&self) -> Seq<char> {
        match *self {
            ResolveError::HttpStatus(code) => "http status "@ + decimal(code as nat),
            ResolveError::ParseFailed(msg) => "parse failed: "@ + msg@,
            ResolveError::ProcessFailed { exit_code, stderr } => "process failed (exit "@
                + exit_text(exit_code) + "): "@ + stderr@,
        }
    }

    /// A copy of the error.
    pub fn duplicate(&self) -> (r: Self)
        ensures
            r == *self,
    {
        match self {
            ResolveError::HttpStatus(code) => ResolveError::HttpStatus(*code),
            ResolveError::ParseFailed(msg) => ResolveError::ParseFailed(msg.clone()),
            ResolveError::ProcessFailed { exit_code, stderr } => ResolveError::ProcessFailed {
                exit_code: *exit_code,
                stderr: stderr.clone(),
            },
        }
    }

    /// The error as text.
    pub fn message(&self) -> (s: String)
        ensures
            s@ == self.text(),
    {
        match self {
            ResolveError::HttpStatus(code) => {
                let mut s = "http status ".to_owned();
                s.append(decimal_of(*code as u64).as_str());
                s
            },
            ResolveError::ParseFailed(msg) => {
                let mut s = "parse failed: ".to_owned();
                s.append(msg.as_str());
                s
            },
            ResolveError::ProcessFailed { exit_code, stderr } => {
                let mut s = "process failed (exit ".to_owned();
                s.append(exit_text_of(*exit_code).as_str());
                s.append("): ");
                s.append(stderr.as_str());
                s
            },
        }
    }
}

impl IoCause {
    /// `s` is how this cause is written; a cause of the system can have any
    /// text.
    pub open spec fn is_text(&self, s: Seq<char>) -> bool {
        match *self {
            IoCause::Os(_) => true,
            IoCause::Other(text) => s == text@,
        }
    }

    /// The cause as text.
    pub fn message(&self) -> (s: String)
        ensures
            self.is_text(s@),
    {
        match self {
            IoCause::Os(error) => io_error_text(error),
            IoCause::Other(text) => text.clone(),
        }
    }
}

impl DownloadError {
    /// `s` is how this error is written.
    pub open spec fn is_text(&self, s: Seq<char>) -> bool {
        match *self {
            DownloadError::HttpStatus(code) => s == "http status "@ + decimal(code as nat),
            DownloadError::TooLarge { size_mb, max_mb } => s == "file too large ("@ + decimal(
                size_mb as nat,
            ) + " MiB > "@ + decimal(max_mb as nat) + " MiB)"@,
            DownloadError::WriteFailed(cause) => exists|text: Seq<char>| #[trigger]
                cause.is_text(text) && s == "write failed: "@ + text,
            DownloadError::EmptyResponse => s == "empty response"@,
            DownloadError::SsrfBlocked(reason) => s == "ssrf blocked: "@ + reason@,
        }
    }

    /// The error as text.
    pub fn message(&self) -> (s: String)
        ensures
            self.is_text(s@),
    {
        match self {
            DownloadError::HttpStatus(code) => {
                let mut s = "http status ".to_owned();
                s.append(decimal_of(*code as u64).as_str());
                s
            },
            DownloadError::TooLarge { size_mb, max_mb } => {
                let mut s = "file too large (".to_owned();
                s.append(decimal_of(*size_mb).as_str());
                s.append(" MiB > ");
                s.append(decimal_of(*max_mb).as_str());
                s.append(" MiB)");
                s
            },
            DownloadError::WriteFailed(cause) => {
                let mut s = "write failed: ".to_owned();
                let text = cause.message();
                s.append(text.as_str());
                assert(cause.is_text(text@));
                s
            },
            DownloadError::EmptyResponse => "empty response".to_owned(),
            DownloadError::SsrfBlocked(reason) => {
                let mut s = "ssrf blocked: ".to_owned();
                s.append(reason.as_str());
                s
            },
        }
    }
}

impl Error {
    pub open spec fn user_text(&self) -> Seq<char> {
        match *self {
            Error::Duplicate => "This tweet was already archived recently."@,
            Error::ResolveFailed { .. } =>
                "❌ Could not extract media from tweet. The tweet may be protected, deleted, or contain no media."@,
            Error::DownloadFailed { source: DownloadError::SsrfBlocked(_) } =>
                "❌ The media URL was blocked for security reasons."@,
            Error::DownloadFailed { .. } =>
                "❌ Failed to download media. Please try again later."@,
            Error::TranscodeFailed { .. } => "❌ Failed to process media for upload."@,
            Error::Timeout { .. } =>
                "❌ Operation timed out. The media may be too large or the service is slow."@,
            Error::DiskSpace { .. } => "❌ Not enough disk space to process the media."@,
            Error::Io(_) => "❌ An internal error occurred."@,
        }
    }

    /// Message for the user who asked.
    pub fn user_message(&self) -> (s: &'static str)
        ensures
            s@ == self.user_text(),
    {
        match self {
            Error::Duplicate => "This tweet was already archived recently.",
            Error::ResolveFailed { .. } =>
                "❌ Could not extract media from tweet. The tweet may be protected, deleted, or contain no media.",
            Error::DownloadFailed { source } => match source {
                DownloadError::SsrfBlocked(_) =>
                    "❌ The media URL was blocked for security reasons.",
                _ => "❌ Failed to download media. Please try again later.",
            },
            Error::TranscodeFailed { .. } => "❌ Failed to process media for upload.",
            Error::Timeout { .. } =>
                "❌ Operation timed out. The media may be too large or the service is slow.",
            Error::DiskSpace { .. } => "❌ Not enough disk space to process the media.",
            Error::Io(_) => "❌ An internal error occurred.",
        }
    }

    /// Whether the user is told of this error.
    pub fn should_notify_user(&self) -> (r: bool)
        ensures
            r == !(self is Duplicate),
    {
        match self {
            Error::Duplicate => false,
            _ => true,
        }
    }

    /// `s` is how this error is written; what the operating system says of an
    /// I/O error stands behind its prefix.
    pub open spec fn is_text(&self, s: Seq<char>) -> bool {
        match *self {
            Error::Duplicate => s == "duplicate tweet"@,
            Error::ResolveFailed { resolver, source } => s == "resolve failed ("@ + resolver@
                + "): "@ + source.text(),
            Error::DownloadFailed { source } => exists|cause: Seq<char>| #[trigger]
                source.is_text(cause) && s == "download failed: "@ + cause,
            Error::TranscodeFailed { stage, exit_code, stderr_tail } => s == "transcode failed ("@
                + stage.name() + ", exit="@ + exit_text(exit_code) + "): "@ + stderr_tail@,
            Error::Timeout { operation, duration_ms } => s == operation@ + " timed out after "@
                + decimal((duration_ms / 1000) as nat) + "s"@,
            Error::DiskSpace { available_mb, required_mb } => s
                == "insufficient disk space (available "@ + decimal(available_mb as nat)
                + " MiB, required "@ + decimal(required_mb as nat) + " MiB)"@,
            Error::Io(_) => exists|cause: Seq<char>| s == #[trigger] ("io error: "@ + cause),
        }
    }

    /// The error as text, for logs.
    pub fn message(&self) -> (s: String)
        ensures
            self.is_text(s@),
    {
        match self {
            Error::Duplicate => "duplicate tweet".to_owned(),
            Error::ResolveFailed { resolver, source } => {
                let mut s = "resolve failed (".to_owned();
                s.append(resolver);
                s.append("): ");
                s.append(source.message().as_str());
                s
            },
            Error::DownloadFailed { source } => {
                let mut s = "download failed: ".to_owned();
                let cause = source.message();
                s.append(cause.as_str());
                assert(source.is_text(cause@));
                s
            },
            Error::TranscodeFailed { stage, exit_code, stderr_tail } => {
                let mut s = "transcode failed (".to_owned();
                s.append(stage.label());
                s.append(", exit=");
                s.append(exit_text_of(*exit_code).as_str());
                s.append("): ");
                s.append(stderr_tail.as_str());
                s
            },
            Error::Timeout { operation, duration_ms } => {
                let mut s = (*operation).to_owned();
                s.append(" timed out after ");
                s.append(decimal_of(*duration_ms / 1000).as_str());
                s.append("s");
                s
            },
            Error::DiskSpace { available_mb, required_mb } => {
                let mut s = "insufficient disk space (available ".to_owned();
                s.append(decimal_of(*available_mb).as_str());
                s.append(" MiB, required ");
                s.append(decimal_of(*required_mb).as_str());
                s.append(" MiB)");
                s
            },
            Error::Io(err) => {
                let mut s = "io error: ".to_owned();
                s.append(io_error_text(err).as_str());
                s
            },
        }
    }

    /// The I/O error underneath, where there is one.
    pub fn source(&self) -> (r: Option<&std::io::Error>)
        ensures
            r is Some <==> self is Io,
            r matches Some(e) ==> *self == Error::Io(*e),
    {
        match self {
            Error::Io(err) => Some(err),
            _ => None,
        }
    }

    /// The collected error output of a failed transcode, else nothing.
    pub fn transcode_stderr(&self) -> (s: &str)
        ensures
            s@ == (match *self {
                Error::TranscodeFailed { stderr_tail, .. } => stderr_tail@,
                _ => ""@,
            }),
    {
        match self {
            Error::TranscodeFailed { stderr_tail, .. } => stderr_tail.as_str(),
            _ => "",
        }
    }
}

/// `e` is a failed write for a reason of this library.
pub open spec fn is_protocol_error(e: Error, reason: Seq<char>) -> bool {
    e matches Error::DownloadFailed { source: DownloadError::WriteFailed(IoCause::Other(text)) }
        && text@ == reason
}

/// A download that failed for a reason of this library.
pub fn protocol_error(message: &str) -> (e: Error)
    ensures
        is_protocol_error(e, message@),
{
    Error::DownloadFailed { source: DownloadError::WriteFailed(IoCause::Other(message.to_owned())) }
}

/// A download that failed for a reason of the system.
pub fn write_error(error: std::io::Error) -> (e: Error)
    ensures
        e == (Error::DownloadFailed { source: DownloadError::WriteFailed(IoCause::Os(error)) }),
{
    Error::DownloadFailed { source: DownloadError::WriteFailed(IoCause::Os(error)) }
}

/// `e` is a failed transcode of that stage, without exit code, with that text.
pub open spec fn is_transcode_error(e: Error, stage: TranscodeStage, text: Seq<char>) -> bool {
    e matches Error::TranscodeFailed { stage: s, exit_code: None, stderr_tail: t } && s == stage
        && t@ == text
}

/// A failed transcode that no process reported.
pub fn transcode_error(stage: TranscodeStage, text: &str) -> (e: Error)
    ensures
        is_transcode_error(e, stage, text@),
{
    Error::TranscodeFailed { stage, exit_code: None, stderr_tail: text.to_owned() }
}

// ---------------------------------------------------------------------------
// What errors tell
// ---------------------------------------------------------------------------
/// The user reads what happened, and of a download whether it was refused.
pub proof fn lemma_users_read_what_happened(error: Error)
    ensures
        error is Duplicate ==> error.user_text()
            == "This tweet was already archived recently."@,
        error is ResolveFailed ==> error.user_text()
            == "❌ Could not extract media from tweet. The tweet may be protected, deleted, or contain no media."@,
        error is TranscodeFailed ==> error.user_text()
            == "❌ Failed to process media for upload."@,
        error is Timeout ==> error.user_text()
            == "❌ Operation timed out. The media may be too large or the service is slow."@,
        error is DiskSpace ==> error.user_text()
            == "❌ Not enough disk space to process the media."@,
        error is Io ==> error.user_text()
            == "❌ An internal error occurred."@,
        error matches Error::DownloadFailed { source } ==> error.user_text() == (if source
            is SsrfBlocked {
            "❌ The media URL was blocked for security reasons."@
        } else {
            "❌ Failed to download media. Please try again later."@
        }),
{
}

/// An error's text tells the numbers in the order in which they are named: of a
/// timeout the whole seconds, of a full disk what there is before what is
/// needed, of a large file its size before the limit.
pub proof fn lemma_errors_tell_their_numbers(error: Error, s: Seq<char>, n: nat)
    requires
        error.is_text(s),
    ensures
        error matches Error::Timeout { operation, duration_ms } ==> (n * 1000 <= duration_ms < (n
            + 1) * 1000 ==> s == operation@ + " timed out after "@ + decimal(n) + "s"@),
        error matches Error::DiskSpace { available_mb, required_mb } ==> s
            == "insufficient disk space (available "@ + decimal(available_mb as nat)
            + " MiB, required "@ + decimal(required_mb as nat) + " MiB)"@,
        error matches Error::DownloadFailed {
            source: DownloadError::TooLarge { size_mb, max_mb },
        } ==> s == "download failed: "@ + ("file too large ("@ + decimal(size_mb as nat)
            + " MiB > "@ + decimal(max_mb as nat) + " MiB)"@),
        error matches Error::DownloadFailed { source: DownloadError::HttpStatus(code) } ==> s
            == "download failed: "@ + ("http status "@ + decimal(code as nat)),
        error matches Error::DownloadFailed { source: DownloadError::SsrfBlocked(reason) } ==> s
            == "download failed: "@ + ("ssrf blocked: "@ + reason@),
        error matches Error::ResolveFailed { resolver, source } ==> s == "resolve failed ("@
            + resolver@ + "): "@ + source.text(),
        error is Duplicate ==> s == "duplicate tweet"@,
{
}

/// Stages and exits are told apart in texts.
pub proof fn lemma_stages_and_exits_are_told_apart(
    a: TranscodeStage,
    b: TranscodeStage,
    code: i32,
    other: i32,
)
    ensures
        a.name() == b.name() <==> a == b,
        a.name() == "Remux"@ <==> a == TranscodeStage::Remux,
        a.name() == "Transcode"@ <==> a == TranscodeStage::Transcode,
        a.name() == "Split"@ <==> a == TranscodeStage::Split,
        a.name() == "ImageCompress"@ <==> a == TranscodeStage::ImageCompress,
        exit_text(None) != exit_text(Some(code)),
        exit_text(Some(code)) == exit_text(Some(other)) <==> code == other,
        code >= 0 ==> exit_text(Some(code)) == "Some("@ + decimal(code as nat) + ")"@,
        code < 0 ==> exit_text(Some(code)) == "Some("@ + ("-"@ + decimal((-code) as nat)) + ")"@,
{
    reveal_strlit("Remux");
    reveal_strlit("Transcode");
    reveal_strlit("Split");
    reveal_strlit("ImageCompress");
    reveal_strlit("Some(");
    reveal_strlit("None");
    reveal_strlit(")");
    reveal_strlit("-");
    assert("Remux"@.len() == 5);
    assert("Transcode"@.len() == 9);
    assert("Split"@.len() == 5);
    assert("ImageCompress"@.len() == 13);
    assert("Some("@.len() == 5);
    assert("None"@.len() == 4);
    assert(")"@.len() == 1);
    assert("-"@.len() == 1);
    assert("Remux"@[0] != "Split"@[0]);
    assert("Remux"@[0] != "Some("@[0]);
    assert("Split"@[1] != "Some("@[1]);
    assert(")"@[0] != "-"@[0]);
    let x = exit_text(Some(code));
    let y = exit_text(Some(other));
    assert(x[0] == 'S');
    assert("None"@[0] == 'N');
    assert(exit_text(None)[0] == 'N');
    lemma_decimal_value(if code < 0 { (-code) as nat } else { code as nat });
    lemma_decimal_value(if other < 0 { (-other) as nat } else { other as nat });
    if x == y {
        let a = signed_decimal(code as int);
        let b = signed_decimal(other as int);
        assert(x.subrange(5, x.len() - 1) =~= a);
        assert(y.subrange(5, x.len() - 1) =~= b);
        assert(a[0] == '-' <==> code < 0) by {
            if code >= 0 {
                assert(is_digit(decimal(code as nat)[0]));
            }
        }
        assert(b[0] == '-' <==> other < 0) by {
            if other >= 0 {
                assert(is_digit(decimal(other as nat)[0]));
            }
        }
        if code < 0 {
            assert(a.skip(1) =~= decimal((-code) as nat));
            assert(b.skip(1) =~= decimal((-other) as nat));
        }
    }
}

/// A resolver's failure tells its status, or its exit before its output.
pub proof fn lemma_resolvers_tell_how_they_failed(error: ResolveError)
    ensures
        error matches ResolveError::HttpStatus(code) ==> error.text() == "http status "@ + decimal(
            code as nat,
        ),
        error matches ResolveError::ParseFailed(msg) ==> error.text() == "parse failed: "@ + msg@,
        error matches ResolveError::ProcessFailed { exit_code, stderr } ==> error.text()
            == "process failed (exit "@ + exit_text(exit_code) + "): "@ + stderr@,
{
}

/// Errors of this library carry the reason that they were made with, and an
/// error is made for one reason only.
pub proof fn lemma_errors_carry_their_reason(
    e: Error,
    s: Seq<char>,
    stage: TranscodeStage,
    reason: Seq<char>,
    other: Seq<char>,
)
    requires
        e.is_text(s),
    ensures
        is_protocol_error(e, reason) ==> s == "download failed: "@ + ("write failed: "@ + reason),
        is_protocol_error(e, reason) && is_protocol_error(e, other) ==> reason == other,
        is_transcode_error(e, stage, reason) ==> s == "transcode failed ("@ + stage.name()
            + ", exit="@ + "None"@ + "): "@ + reason,
        is_transcode_error(e, stage, reason) && is_transcode_error(e, stage, other) ==> reason
            == other,
        is_transcode_error(e, stage, reason) ==> !is_protocol_error(e, other),
{
}

} // verus!
