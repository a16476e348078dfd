//! Rules of the download stage.
//!
//! The first request asks for one chunk. A response that holds the whole file
//! is streamed to memory or to a file; a partial one is completed by parallel
//! range requests. Metadata is probed only where the resolver left it out or
//! the optimizer needs codec facts.

use crate::config::{EngineSettings, FloatBits};
use crate::pipeline::errors::{
    is_protocol_error, protocol_error, write_error, DownloadError, Error, IoCause,
};
use crate::pipeline::process::{JsonSubprocessError, JsonSubprocessOutput};
use crate::pipeline::ssrf::{check_parts, is_blocked, parsed_url, validate_media_url};
use crate::pipeline::types::{
    audio_codec_of, container_of_extension, container_of_names, safe_extension, sanitize_extension,
    video_codec_of, AudioCodec, DownloadedFile, MediaContainer, MediaFacts, MediaType,
    ResolvedMedia, VideoCodec,
};
use crate::text::{
    decimal, decimal_of, float_text, is_digit, is_float_text, is_white, lemma_decimal_roundtrip,
    lemma_decimal_value, lemma_first_part, parse_u64, parse_unsigned, same, split, split_once,
    starts_with, strip_prefix, trim, trim_str, views,
};
use vstd::prelude::*;
use vstd::string::StringExecFns;

verus! {

/// Redirects that are followed for one download.
pub const MAX_REDIRECTS: usize = 5;

// ---------------------------------------------------------------------------
// Names
// ---------------------------------------------------------------------------
/// `<job>_<tweet>`.
pub open spec fn job_dir_text(job_id: u64, tweet_id: u64) -> Seq<char> {
    decimal(job_id as nat) + "_"@ + decimal(tweet_id as nat)
}

/// The name of a job's directory.
pub fn job_dir_name(job_id: u64, tweet_id: u64) -> (s: String)
    ensures
        s@ == job_dir_text(job_id, tweet_id),
{
    let mut s = decimal_of(job_id);
    s.append("_");
    s.append(decimal_of(tweet_id).as_str());
    s
}

/// The name of a job's media file; only safe extensions are used.
pub fn job_file_name(job_id: u64, tweet_id: u64, extension: &str) -> (s: String)
    ensures
        s@ == job_dir_text(job_id, tweet_id) + "."@ + safe_extension(extension@),
{
    let mut s = job_dir_name(job_id, tweet_id);
    s.append(".");
    s.append(sanitize_extension(extension).as_str());
    s
}

// ---------------------------------------------------------------------------
// Byte ranges
// ---------------------------------------------------------------------------
/// Bytes `start..end`.
#[derive(Debug, Clone, Copy, PartialEq, Eq, Structural)]
pub struct ByteRange {
    pub start: u64,
    pub end: u64,
}

/// A parsed `Content-Range`, half open.
#[derive(Debug, Clone, Copy, PartialEq, Eq, Structural)]
pub struct ContentRange {
    pub start: u64,
    pub end: u64,
    pub total: u64,
}

/// What stands before and behind the first `c`.
pub open spec fn parted(s: Seq<char>, c: char) -> Option<(Seq<char>, Seq<char>)> {
    match s.index_of_first(c) {
        Some(i) => Some((s.take(i), s.skip(i + 1))),
        None => None,
    }
}

proof fn lemma_parted(s: Seq<char>, c: char, a: Seq<char>, b: Seq<char>)
    requires
        s == a + seq![c] + b,
        !a.contains(c),
    ensures
        parted(s, c) == Some((a, b)),
{
    lemma_first_part(s, c, a, b);
}

fn part_at(s: &str, c: char) -> (r: Option<(String, String)>)
    ensures
        r is Some <==> parted(s@, c) is Some,
        r matches Some((a, b)) ==> parted(s@, c) == Some((a@, b@)),
{
    proof {
        s@.index_of_first_ensures(c);
    }
    match split_once(s, c) {
        Some((a, b)) => {
            proof {
                lemma_parted(s@, c, a@, b@);
            }
            Some((a, b))
        },
        None => None,
    }
}

/// `bytes <first>-<last>/<total>`, with a nonempty range within the total.
pub open spec fn content_range_of(value: Seq<char>) -> Option<ContentRange> {
    let text = trim(value);
    if !starts_with(text, "bytes "@) {
        None
    } else {
        match parted(text.skip("bytes "@.len() as int), '/') {
            None => None,
            Some((range, total_text)) => match parted(range, '-') {
                None => None,
                Some((first_text, last_text)) => match (
                    parse_unsigned(first_text, u64::MAX as nat),
                    parse_unsigned(last_text, u64::MAX as nat),
                    parse_unsigned(total_text, u64::MAX as nat),
                ) {
                    (Some(first), Some(last), Some(total)) => if first <= last && last < total {
                        Some(
                            ContentRange {
                                start: first as u64,
                                end: (last + 1) as u64,
                                total: total as u64,
                            },
                        )
                    } else {
                        None
                    },
                    _ => None,
                },
            },
        }
    }
}

/// Parse a `Content-Range` header into a half-open range.
pub fn parse_content_range(value: &str) -> (r: Option<ContentRange>)
    ensures
        r == content_range_of(value@),
{
    let text = trim_str(value);
    let rest = match strip_prefix(text.as_str(), "bytes ") {
        Some(rest) => rest,
        None => {
            return None;
        },
    };
    let (range, total_text) = match part_at(rest.as_str(), '/') {
        Some(parts) => parts,
        None => {
            return None;
        },
    };
    let (first_text, last_text) = match part_at(range.as_str(), '-') {
        Some(parts) => parts,
        None => {
            return None;
        },
    };
    let start: u64 = match parse_u64(first_text.as_str()) {
        Some(n) => n,
        None => {
            return None;
        },
    };
    let last: u64 = match parse_u64(last_text.as_str()) {
        Some(n) => n,
        None => {
            return None;
        },
    };
    let total: u64 = match parse_u64(total_text.as_str()) {
        Some(n) => n,
        None => {
            return None;
        },
    };
    let end: u64 = match last.checked_add(1) {
        Some(n) => n,
        None => {
            return None;
        },
    };
    if start < end && end <= total {
        Some(ContentRange { start, end, total })
    } else {
        None
    }
}

/// The header value that a server sends for a range.
pub open spec fn content_range_text(r: ContentRange) -> Seq<char> {
    "bytes "@ + (decimal(r.start as nat) + seq!['-'] + decimal((r.end - 1) as nat) + seq!['/']
        + decimal(r.total as nat))
}

proof fn lemma_trim_of_plain(s: Seq<char>)
    requires
        s.len() > 0,
        !is_white(s[0]),
        !is_white(s.last()),
    ensures
        trim(s) == s,
{
}

/// A range that a server states is read back as it was stated.
pub proof fn lemma_content_range_roundtrip(r: ContentRange)
    requires
        r.start < r.end <= r.total,
    ensures
        content_range_of(content_range_text(r)) == Some(r),
{
    let a = decimal(r.start as nat);
    let b = decimal((r.end - 1) as nat);
    let c = decimal(r.total as nat);
    lemma_decimal_value(r.start as nat);
    lemma_decimal_value((r.end - 1) as nat);
    lemma_decimal_value(r.total as nat);
    lemma_decimal_roundtrip(r.start as nat, u64::MAX as nat);
    lemma_decimal_roundtrip((r.end - 1) as nat, u64::MAX as nat);
    lemma_decimal_roundtrip(r.total as nat, u64::MAX as nat);
    reveal_strlit("bytes ");
    let range = a + seq!['-'] + b;
    let rest = a + seq!['-'] + b + seq!['/'] + c;
    let text = "bytes "@ + rest;
    assert(text.last() == c.last());
    assert(is_digit(c[c.len() - 1]));
    lemma_trim_of_plain(text);
    assert(text.take("bytes "@.len() as int) =~= "bytes "@);
    assert(text.skip("bytes "@.len() as int) =~= rest);
    assert(!a.contains('-')) by {
        assert forall|i: int| 0 <= i < a.len() implies a[i] != '-' by {
            assert(is_digit(a[i]));
        }
    }
    assert(!range.contains('/')) by {
        assert forall|i: int| 0 <= i < range.len() implies range[i] != '/' by {
            if i < a.len() {
                assert(is_digit(a[i]));
            } else if i > a.len() {
                assert(is_digit(b[i - a.len() - 1]));
            }
        }
    }
    assert(rest =~= range + seq!['/'] + c);
    lemma_parted(rest, '/', range, c);
    lemma_parted(range, '-', a, b);
}

/// The `Range` header for some bytes.
pub fn range_header_value(range: &ByteRange) -> (s: String)
    requires
        range.end > 0,
    ensures
        s@ == "bytes="@ + decimal(range.start as nat) + "-"@ + decimal((range.end - 1) as nat),
{
    let mut s = "bytes=".to_owned();
    s.append(decimal_of(range.start).as_str());
    s.append("-");
    s.append(decimal_of(range.end - 1).as_str());
    s
}

/// The bytes of the first request: one chunk, where several connections are
/// allowed.
pub fn first_range(config: &EngineSettings) -> (r: Option<ByteRange>)
    ensures
        r == (if config.pipeline.download_connections > 1 {
            Some(ByteRange { start: 0, end: config.pipeline.download_chunk_bytes })
        } else {
            None
        }),
{
    if config.pipeline.download_connections > 1 {
        Some(ByteRange { start: 0, end: config.pipeline.download_chunk_bytes })
    } else {
        None
    }
}

// ---------------------------------------------------------------------------
// The first response
// ---------------------------------------------------------------------------
/// Shape of the first response body.
#[derive(Debug, Clone, Copy, PartialEq, Eq, Structural)]
pub enum Body {
    /// The whole file.
    Complete { total: Option<u64> },
    /// Bytes `0..first` of a file of `total` bytes.
    Ranged { first: u64, total: u64 },
}

impl Body {
    pub open spec fn total_bytes(self) -> Option<u64> {
        match self {
            Body::Complete { total } => total,
            Body::Ranged { total, .. } => Some(total),
        }
    }

    pub fn total(self) -> (r: Option<u64>)
        ensures
            r == self.total_bytes(),
    {
        match self {
            Body::Complete { total } => total,
            Body::Ranged { total, .. } => Some(total),
        }
    }

    pub fn is_ranged(self) -> (r: bool)
        ensures
            r == (self is Ranged),
    {
        match self {
            Body::Complete { .. } => false,
            Body::Ranged { .. } => true,
        }
    }
}

/// What a response is, by its status, length and parsed range.
pub open spec fn body_of(
    status: u16,
    content_length: Option<u64>,
    range: Option<ContentRange>,
) -> Option<Body> {
    if status != 206 {
        Some(Body::Complete { total: content_length })
    } else {
        match range {
            Some(r) if r.start == 0 => Some(
                if r.end == r.total {
                    Body::Complete { total: Some(r.total) }
                } else {
                    Body::Ranged { first: r.end, total: r.total }
                },
            ),
            _ => None,
        }
    }
}

/// Classify the first response by its status, `Content-Length` and
/// `Content-Range`.
///
/// A server that ignores ranges answers with the whole body. A partial answer
/// must begin at the first byte.
pub fn classify_response(
    status: u16,
    content_length: Option<u64>,
    content_range: Option<&str>,
) -> (r: Result<Body, Error>)
    ensures
        !(200 <= status <= 299) ==> r == Err::<Body, Error>(
            Error::DownloadFailed { source: DownloadError::HttpStatus(status) },
        ),
        200 <= status <= 299 ==> ({
            let range = match content_range {
                Some(text) => content_range_of(text@),
                None => None,
            };
            match body_of(status, content_length, range) {
                Some(body) => r == Ok::<Body, Error>(body),
                None => r is Err && is_protocol_error(
                    r->Err_0,
                    "invalid content-range for initial range"@,
                ),
            }
        }),
{
    if status < 200 || status > 299 {
        return Err(Error::DownloadFailed { source: DownloadError::HttpStatus(status) });
    }
    if status != 206 {
        return Ok(Body::Complete { total: content_length });
    }
    let range = match content_range {
        Some(text) => parse_content_range(text),
        None => None,
    };
    match range {
        Some(r) if r.start == 0 => {
            if r.end == r.total {
                Ok(Body::Complete { total: Some(r.total) })
            } else {
                Ok(Body::Ranged { first: r.end, total: r.total })
            }
        },
        _ => Err(protocol_error("invalid content-range for initial range")),
    }
}

// ---------------------------------------------------------------------------
// The plan
// ---------------------------------------------------------------------------
/// Whether the resolver left out metadata that the optimizer needs. Images
/// have no duration.
pub open spec fn metadata_missing(resolved: ResolvedMedia) -> bool {
    resolved.resolution is None || (resolved.media_type == MediaType::Video && resolved.duration
        is None)
}

pub fn resolver_metadata_missing(resolved: &ResolvedMedia) -> (r: bool)
    ensures
        r == metadata_missing(*resolved),
{
    resolved.resolution.is_none() || (resolved.media_type == MediaType::Video
        && resolved.duration.is_none())
}

/// Bytes that may be kept in memory for the upload.
pub open spec fn buffer_limit(config: EngineSettings) -> u64 {
    if config.pipeline.upload_ready_buffer_max_bytes <= config.transcode.max_upload_bytes {
        config.pipeline.upload_ready_buffer_max_bytes
    } else {
        config.transcode.max_upload_bytes
    }
}

pub fn upload_ready_buffer_limit(config: &EngineSettings) -> (r: u64)
    ensures
        r == buffer_limit(*config),
{
    if config.pipeline.upload_ready_buffer_max_bytes <= config.transcode.max_upload_bytes {
        config.pipeline.upload_ready_buffer_max_bytes
    } else {
        config.transcode.max_upload_bytes
    }
}

/// Whether bytes are kept for the upload at all.
pub open spec fn keeps_buffer(total: Option<u64>, config: EngineSettings) -> bool {
    buffer_limit(config) != 0 && !(total matches Some(size) && size > buffer_limit(config))
}

/// An empty buffer for the upload, only for files that can fit the limit.
pub fn bounded_upload_ready_buffer(total_size: Option<u64>, config: &EngineSettings) -> (r: Option<
    Vec<u8>,
>)
    ensures
        r is Some <==> keeps_buffer(total_size, *config),
        r matches Some(v) ==> v@ == Seq::<u8>::empty(),
{
    let limit = upload_ready_buffer_limit(config);
    if limit == 0 {
        return None;
    }
    match total_size {
        Some(size) => {
            if size > limit {
                return None;
            }
            if size <= usize::MAX as u64 {
                Some(Vec::with_capacity(size as usize))
            } else {
                Some(Vec::new())
            }
        },
        None => Some(Vec::new()),
    }
}

/// Whether a file need not touch the disk: its size is known, it fits the
/// buffer, and nothing has to read it.
pub open spec fn memory_only_ok(total: Option<u64>, should_probe: bool, config: EngineSettings) -> bool {
    !should_probe && (total matches Some(size) && 0 < size <= buffer_limit(config))
}

pub fn can_keep_download_memory_only(
    total_size: Option<u64>,
    should_probe: bool,
    config: &EngineSettings,
) -> (r: bool)
    ensures
        r == memory_only_ok(total_size, should_probe, *config),
{
    match total_size {
        Some(size) => !should_probe && size > 0 && size <= upload_ready_buffer_limit(config),
        None => false,
    }
}

/// What is to be done with a first response.
#[derive(Debug, Clone, Copy, PartialEq, Eq, Structural)]
pub struct DownloadPlan {
    pub must_probe: bool,
    pub should_probe: bool,
    pub memory_only: bool,
    pub reserve_bytes: u64,
}

/// Whether the file is probed: its size was not stated, metadata is missing,
/// or it is a video too large to be uploaded as it is.
pub open spec fn probes(resolved: ResolvedMedia, total: Option<u64>, config: EngineSettings) -> bool {
    ||| total is None
    ||| metadata_missing(resolved)
    ||| (resolved.media_type == MediaType::Video && (total matches Some(size) && size
        > config.transcode.max_upload_bytes))
}

/// Bytes to reserve: the stated size, else the download limit.
pub open spec fn reservation(total: Option<u64>, memory_only: bool, max_download: u64) -> u64 {
    if memory_only {
        0
    } else {
        match total {
            Some(size) if size > 0 => size,
            _ => max_download,
        }
    }
}

pub open spec fn plan_of(resolved: ResolvedMedia, body: Body, config: EngineSettings) -> DownloadPlan {
    let total = body.total_bytes();
    let should_probe = probes(resolved, total, config);
    let memory_only = !(body is Ranged) && memory_only_ok(total, should_probe, config);
    DownloadPlan {
        must_probe: total is None,
        should_probe,
        memory_only,
        reserve_bytes: reservation(total, memory_only, config.pipeline.max_download_bytes),
    }
}

/// Whether a stated size is over the download limit; no limit is zero.
pub open spec fn over_limit(size: u64, max_download: u64) -> bool {
    max_download > 0 && size > max_download
}

pub open spec fn too_large(size: u64, max_download: u64) -> Error {
    Error::DownloadFailed {
        source: DownloadError::TooLarge {
            size_mb: size / 1024 / 1024,
            max_mb: max_download / 1024 / 1024,
        },
    }
}

fn too_large_error(size: u64, max_download: u64) -> (e: Error)
    ensures
        e == too_large(size, max_download),
{
    Error::DownloadFailed {
        source: DownloadError::TooLarge {
            size_mb: size / 1024 / 1024,
            max_mb: max_download / 1024 / 1024,
        },
    }
}

/// Plan a download. A stated size over the limit is refused before any byte
/// is streamed.
pub fn plan_download(resolved: &ResolvedMedia, body: Body, config: &EngineSettings) -> (r: Result<
    DownloadPlan,
    Error,
>)
    ensures
        match body.total_bytes() {
            Some(total) if over_limit(total, config.pipeline.max_download_bytes) => r == Err::<
                DownloadPlan,
                Error,
            >(too_large(total, config.pipeline.max_download_bytes)),
            _ => r == Ok::<DownloadPlan, Error>(plan_of(*resolved, body, *config)),
        },
{
    let total_size = body.total();
    let max_download: u64 = config.pipeline.max_download_bytes;
    if let Some(total) = total_size {
        if max_download > 0 && total > max_download {
            return Err(too_large_error(total, max_download));
        }
    }
    let must_probe = total_size.is_none();
    let oversized_video = resolved.media_type == MediaType::Video && match total_size {
        Some(size) => size > config.transcode.max_upload_bytes,
        None => false,
    };
    let should_probe = must_probe || resolver_metadata_missing(resolved) || oversized_video;
    let memory_only = !body.is_ranged() && can_keep_download_memory_only(
        total_size,
        should_probe,
        config,
    );
    let reserve_bytes: u64 = if memory_only {
        0
    } else {
        match total_size {
            Some(size) if size > 0 => size,
            _ => max_download,
        }
    };
    Ok(DownloadPlan { must_probe, should_probe, memory_only, reserve_bytes })
}

/// A file that is kept in memory only has a buffer to be kept in.
pub proof fn lemma_memory_only_has_buffer(
    resolved: ResolvedMedia,
    body: Body,
    config: EngineSettings,
)
    requires
        plan_of(resolved, body, config).memory_only,
    ensures
        keeps_buffer(body.total_bytes(), config),
        body is Complete,
{
}

// ---------------------------------------------------------------------------
// Streaming one response
// ---------------------------------------------------------------------------
/// What to do with the file for one chunk.
#[derive(Debug)]
pub enum ChunkAction {
    /// The chunk is in memory; there is no file.
    Keep,
    /// Append the chunk to the file.
    Append,
    /// Open the file, write what was kept in memory, then the chunk.
    OpenAndAppend { buffered: Vec<u8> },
    /// Give up; remove the file where one is open.
    Abort { remove_file: bool, error: Error },
}

/// A response body on its way to memory and file.
///
/// `received` is all that came in, `in_file` all that the file was told to
/// hold.
pub struct StreamState {
    pub downloaded: u64,
    pub buffer: Option<Vec<u8>>,
    pub file_open: bool,
    pub total_size: Option<u64>,
    pub max_download: u64,
    pub buffer_limit: u64,
    pub received: Ghost<Seq<u8>>,
    pub in_file: Ghost<Seq<u8>>,
}

impl StreamState {
    /// Nothing is lost: the buffer and the open file each hold every byte, and
    /// there is at least one of them.
    pub open spec fn wf(&self) -> bool {
        &&& self.buffer matches Some(b) ==> b@ == self.received@
        &&& self.file_open ==> self.in_file@ == self.received@
        &&& self.buffer is Some || self.file_open
        &&& self.downloaded == (if self.received@.len() > u64::MAX {
            u64::MAX as nat
        } else {
            self.received@.len()
        })
    }

    /// Begin with an empty buffer, and an open file unless the bytes stay in
    /// memory.
    pub fn begin(total_size: Option<u64>, memory_only: bool, config: &EngineSettings) -> (r: Self)
        requires
            memory_only ==> keeps_buffer(total_size, *config),
        ensures
            r.wf(),
            r.received@ == Seq::<u8>::empty(),
            r.downloaded == 0,
            r.file_open == !memory_only,
            r.buffer is Some <==> keeps_buffer(total_size, *config),
            r.total_size == total_size,
            r.max_download == config.pipeline.max_download_bytes,
            r.buffer_limit == buffer_limit(*config),
    {
        StreamState {
            downloaded: 0,
            buffer: bounded_upload_ready_buffer(total_size, config),
            file_open: !memory_only,
            total_size,
            max_download: config.pipeline.max_download_bytes,
            buffer_limit: upload_ready_buffer_limit(config),
            received: Ghost(Seq::empty()),
            in_file: Ghost(Seq::empty()),
        }
    }

    /// Take in a chunk and say what the file is to do.
    pub fn on_chunk(&mut self, chunk: &[u8]) -> (action: ChunkAction)
        requires
            old(self).wf(),
        ensures
            final(self).received@ == old(self).received@ + chunk@,
            final(self).total_size == old(self).total_size,
            final(self).max_download == old(self).max_download,
            final(self).buffer_limit == old(self).buffer_limit,
            match action {
                ChunkAction::Keep => final(self).wf() && !final(self).file_open
                    && !old(self).file_open && final(self).in_file@ == old(self).in_file@,
                ChunkAction::Append => final(self).wf() && old(self).file_open
                    && final(self).file_open && final(self).in_file@ == old(self).in_file@
                    + chunk@,
                ChunkAction::OpenAndAppend { buffered } => final(self).wf() && !old(self).file_open
                    && final(self).file_open && buffered@ == old(self).received@
                    && final(self).in_file@ == buffered@ + chunk@,
                ChunkAction::Abort { remove_file, error } => over_limit(
                    final(self).downloaded,
                    old(self).max_download,
                ) && error == too_large(final(self).downloaded, old(self).max_download)
                    && remove_file == final(self).file_open,
            },
            action is Abort <==> over_limit(final(self).downloaded, old(self).max_download),
            final(self).buffer is Some <==> old(self).buffer is Some && final(self).downloaded
                <= old(self).buffer_limit,
            final(self).downloaded == (if old(self).downloaded + chunk@.len() > u64::MAX {
                u64::MAX as int
            } else {
                old(self).downloaded + chunk@.len()
            }),
    {
        let next: u64 = self.downloaded.saturating_add(chunk.len() as u64);
        let mut opened: Option<Vec<u8>> = None;
        let ghost before = self.received@;
        if let Some(mut bytes) = self.buffer.take() {
            if next <= self.buffer_limit {
                let ghost start = bytes@;
                let mut i: usize = 0;
                while i < chunk.len()
                    invariant
                        i <= chunk@.len(),
                        bytes@ == start + chunk@.take(i as int),
                    decreases chunk@.len() - i,
                {
                    bytes.push(chunk[i]);
                    i = i + 1;
                    assert(start + chunk@.take(i as int) =~= bytes@);
                }
                assert(chunk@.take(i as int) =~= chunk@);
                self.buffer = Some(bytes);
            } else if !self.file_open {
                opened = Some(bytes);
                self.file_open = true;
                proof {
                    self.in_file@ = before;
                }
            }
        }
        self.downloaded = next;
        proof {
            self.received@ = before + chunk@;
        }
        if self.max_download > 0 && self.downloaded > self.max_download {
            return ChunkAction::Abort {
                remove_file: self.file_open,
                error: too_large_error(self.downloaded, self.max_download),
            };
        }
        if !self.file_open {
            return ChunkAction::Keep;
        }
        proof {
            self.in_file@ = self.in_file@ + chunk@;
        }
        match opened {
            Some(buffered) => ChunkAction::OpenAndAppend { buffered },
            None => ChunkAction::Append,
        }
    }

    /// The body has ended: count and, where they were kept, the bytes.
    pub fn finish(self) -> (r: Result<(u64, Option<Vec<u8>>), Error>)
        requires
            self.wf(),
        ensures
            self.downloaded == 0 ==> r == Err::<(u64, Option<Vec<u8>>), Error>(
                Error::DownloadFailed { source: DownloadError::EmptyResponse },
            ),
            self.downloaded != 0 && (self.total_size matches Some(t) && t != self.downloaded)
                ==> r is Err && is_protocol_error(r->Err_0, "download incomplete"@),
            self.downloaded != 0 && !(self.total_size matches Some(t) && t != self.downloaded)
                ==> (r matches Ok((n, bytes)) && n == self.downloaded && bytes == self.buffer),
            r matches Ok((_, Some(bytes))) ==> bytes@ == self.received@,
    {
        if self.downloaded == 0 {
            return Err(Error::DownloadFailed { source: DownloadError::EmptyResponse });
        }
        if let Some(total) = self.total_size {
            if total != self.downloaded {
                return Err(protocol_error("download incomplete"));
            }
        }
        Ok((self.downloaded, self.buffer))
    }
}

// ---------------------------------------------------------------------------
// Parallel ranges
// ---------------------------------------------------------------------------
/// Queue of byte ranges that range workers take from.
#[derive(Debug)]
pub struct ChunkQueue {
    pub next: u64,
    pub chunk_bytes: u64,
    pub total: u64,
}

/// Chunks that cover `left` bytes.
pub open spec fn chunks_for(left: int, chunk: int) -> int {
    if left <= 0 {
        0
    } else {
        (left + chunk - 1) / chunk
    }
}

/// The `k`-th range from `start`.
pub open spec fn chunk_range(start: int, chunk: int, total: int, k: int) -> (int, int) {
    let begin = start + k * chunk;
    (
        begin,
        if begin + chunk < total {
            begin + chunk
        } else {
            total
        },
    )
}

impl ChunkQueue {
    pub fn new(start: u64, chunk_bytes: u64, total: u64) -> (r: Self)
        ensures
            r == (ChunkQueue { next: start, chunk_bytes, total }),
    {
        ChunkQueue { next: start, chunk_bytes, total }
    }

    /// Ranges still in the queue.
    pub fn remaining_chunks(&self) -> (n: u64)
        requires
            self.chunk_bytes > 0,
        ensures
            n == chunks_for(self.total - self.next, self.chunk_bytes as int),
    {
        let left: u64 = self.total.saturating_sub(self.next);
        let whole: u64 = left / self.chunk_bytes;
        proof {
            lemma_div_up(left as int, self.chunk_bytes as int);
        }
        if left % self.chunk_bytes > 0 {
            whole + 1
        } else {
            whole
        }
    }

    /// Take the next range. The position moves on by one chunk, wrapping at
    /// the end of the number range.
    pub fn claim(&mut self) -> (r: Option<ByteRange>)
        ensures
            final(self).chunk_bytes == old(self).chunk_bytes,
            final(self).total == old(self).total,
            r is Some <==> old(self).next < old(self).total,
            r matches Some(range) ==> range.start == old(self).next && range.end == chunk_range(
                old(self).next as int,
                old(self).chunk_bytes as int,
                old(self).total as int,
                0,
            ).1,
            final(self).next == old(self).next.wrapping_add(old(self).chunk_bytes),
    {
        let start: u64 = self.next;
        self.next = self.next.wrapping_add(self.chunk_bytes);
        if start < self.total {
            let reach: u64 = start.saturating_add(self.chunk_bytes);
            let end: u64 = if reach < self.total {
                reach
            } else {
                self.total
            };
            Some(ByteRange { start, end })
        } else {
            None
        }
    }
}

proof fn lemma_div_up(left: int, chunk: int)
    requires
        left >= 0,
        chunk > 0,
    ensures
        chunks_for(left, chunk) == left / chunk + (if left % chunk > 0 {
            1int
        } else {
            0
        }),
        left / chunk <= left,
        left % chunk > 0 ==> left / chunk < left,
{
    vstd::arithmetic::div_mod::lemma_fundamental_div_mod(left, chunk);
    let q = left / chunk;
    let m = left % chunk;
    assert(0 <= m < chunk) by {
        vstd::arithmetic::div_mod::lemma_mod_bound(left, chunk);
    }
    assert(left == chunk * q + m);
    assert(q >= 0) by {
        vstd::arithmetic::div_mod::lemma_div_pos_is_pos(left, chunk);
    }
    assert(q <= chunk * q) by (nonlinear_arith)
        requires
            q >= 0,
            chunk >= 1,
    ;
    if m > 0 {
        assert((left + chunk - 1) == chunk * (q + 1) + (m - 1)) by (nonlinear_arith)
            requires
                left == chunk * q + m,
        ;
        vstd::arithmetic::div_mod::lemma_fundamental_div_mod_converse(
            left + chunk - 1,
            chunk,
            q + 1,
            m - 1,
        );
    } else {
        if left > 0 {
            assert((left + chunk - 1) == q * chunk + (chunk - 1)) by (nonlinear_arith)
                requires
                    left == chunk * q + m,
                    m == 0,
            ;
            vstd::arithmetic::div_mod::lemma_fundamental_div_mod_converse(
                left + chunk - 1,
                chunk,
                q,
                chunk - 1,
            );
        }
        if left == 0 {
            assert(q == 0) by (nonlinear_arith)
                requires
                    0 == chunk * q + m,
                    m == 0,
                    chunk > 0,
            ;
        }
    }
}

/// The ranges of a queue cover every byte exactly once: each byte from `start`
/// to `total` lies in its own range and in no other, and there are as many
/// ranges as the queue counts.
pub proof fn lemma_chunks_cover_once(start: int, chunk: int, total: int, byte: int)
    requires
        0 <= start <= byte < total,
        chunk > 0,
    ensures
        ({
            let k = (byte - start) / chunk;
            &&& 0 <= k < chunks_for(total - start, chunk)
            &&& chunk_range(start, chunk, total, k).0 <= byte < chunk_range(
                start,
                chunk,
                total,
                k,
            ).1
            &&& forall|j: int|
                0 <= j && #[trigger] chunk_range(start, chunk, total, j).0 <= byte < chunk_range(
                    start,
                    chunk,
                    total,
                    j,
                ).1 ==> j == k
        }),
{
    let d = byte - start;
    let k = d / chunk;
    let m = d % chunk;
    vstd::arithmetic::div_mod::lemma_fundamental_div_mod(d, chunk);
    vstd::arithmetic::div_mod::lemma_mod_bound(d, chunk);
    vstd::arithmetic::div_mod::lemma_div_pos_is_pos(d, chunk);
    assert(k * chunk == chunk * k) by (nonlinear_arith);
    assert(d == k * chunk + m);
    lemma_div_up(total - start, chunk);
    let n = chunks_for(total - start, chunk);
    let left = total - start;
    let q = left / chunk;
    let r = left % chunk;
    vstd::arithmetic::div_mod::lemma_fundamental_div_mod(left, chunk);
    vstd::arithmetic::div_mod::lemma_mod_bound(left, chunk);
    assert(left <= n * chunk) by (nonlinear_arith)
        requires
            left == chunk * q + r,
            0 <= r < chunk,
            n == q + (if r > 0 {
                1int
            } else {
                0
            }),
    ;
    assert(k < n) by (nonlinear_arith)
        requires
            k * chunk <= d,
            d < left,
            left <= n * chunk,
            chunk > 0,
    ;
    assert forall|j: int|
        0 <= j && #[trigger] chunk_range(start, chunk, total, j).0 <= byte < chunk_range(
            start,
            chunk,
            total,
            j,
        ).1 implies j == k by {
        assert(j * chunk <= d < j * chunk + chunk);
        assert(j == k) by (nonlinear_arith)
            requires
                j * chunk <= d,
                d < j * chunk + chunk,
                k * chunk <= d,
                d < k * chunk + chunk,
                chunk > 0,
        ;
    }
}

/// Workers besides the first connection: no more than there are ranges.
pub fn extra_workers(queue: &ChunkQueue, download_connections: u32) -> (n: u64)
    requires
        queue.chunk_bytes > 0,
    ensures
        n <= chunks_for(queue.total - queue.next, queue.chunk_bytes as int),
        download_connections == 0 ==> n == 0,
        download_connections > 0 ==> n <= download_connections - 1,
        n == chunks_for(queue.total - queue.next, queue.chunk_bytes as int) || n + 1
            == download_connections || (n == 0 && download_connections == 0),
{
    let chunks = queue.remaining_chunks();
    let allowed: u64 = if download_connections == 0 {
        0
    } else {
        (download_connections - 1) as u64
    };
    if chunks < allowed {
        chunks
    } else {
        allowed
    }
}

/// Check that a range response is the one that was asked for.
pub fn check_range_response(
    status: u16,
    served: Option<ContentRange>,
    range: ByteRange,
    total: u64,
) -> (r: Result<(), Error>)
    ensures
        r is Ok <==> status == 206 && served == Some(
            ContentRange { start: range.start, end: range.end, total },
        ),
        r matches Err(e) ==> is_protocol_error(e, "range response does not match request"@),
{
    let matches_request = match served {
        Some(s) => s.start == range.start && s.end == range.end && s.total == total,
        None => false,
    };
    if status != 206 || !matches_request {
        return Err(protocol_error("range response does not match request"));
    }
    Ok(())
}

/// Bytes of one range on their way to the file.
#[derive(Debug)]
pub struct RangeWrite {
    pub expected: u64,
    pub written: u64,
}

impl RangeWrite {
    pub fn new(range: ByteRange) -> (r: Self)
        requires
            range.start <= range.end,
        ensures
            r.expected == range.end - range.start,
            r.written == 0,
    {
        RangeWrite { expected: range.end - range.start, written: 0 }
    }

    /// Count a chunk; more than was asked for is refused.
    pub fn on_chunk(&mut self, len: u64) -> (r: Result<(), Error>)
        ensures
            final(self).expected == old(self).expected,
            final(self).written == (if old(self).written + len > u64::MAX {
                u64::MAX as int
            } else {
                old(self).written + len
            }),
            r is Ok <==> final(self).written <= old(self).expected,
            r matches Err(e) ==> is_protocol_error(e, "range response exceeded requested length"@),
    {
        self.written = self.written.saturating_add(len);
        if self.written > self.expected {
            return Err(protocol_error("range response exceeded requested length"));
        }
        Ok(())
    }

    /// The body has ended; it must be complete.
    pub fn finish(&self) -> (r: Result<(), Error>)
        ensures
            r is Ok <==> self.written == self.expected,
            r matches Err(e) ==> is_protocol_error(e, "range response ended early"@),
    {
        if self.written != self.expected {
            return Err(protocol_error("range response ended early"));
        }
        Ok(())
    }
}

// ---------------------------------------------------------------------------
// Redirects
// ---------------------------------------------------------------------------
/// What joining an address and a location gives: an address, or the text of
/// the parser's error.
pub uninterp spec fn joined_url(base: Seq<char>, location: Seq<char>) -> Result<
    Seq<char>,
    Seq<char>,
>;

/// `reqwest::Url::parse` of the base, then `Url::join` with the location; the
/// result is named.
#[verifier::external_body]
fn join_url(base: &str, location: &str) -> (r: Result<String, String>)
    ensures
        match r {
            Ok(url) => joined_url(base@, location@) == Ok::<Seq<char>, Seq<char>>(url@),
            Err(text) => joined_url(base@, location@) == Err::<Seq<char>, Seq<char>>(text@),
        },
{
    match reqwest::Url::parse(base).and_then(|url| url.join(location)) {
        Ok(url) => Ok(url.to_string()),
        Err(e) => Err(e.to_string()),
    }
}

/// What the validation of an address says.
pub open spec fn validated(url: Seq<char>) -> Result<u16, Seq<char>> {
    match parsed_url(url) {
        Err(text) => Err(text),
        Ok(parts) => check_parts(parts),
    }
}

/// What becomes of a redirect at a hop: the address to fetch next, or why there
/// is none.
pub open spec fn is_redirect_result(
    hop: nat,
    base: Seq<char>,
    location: Option<Seq<char>>,
    r: Result<String, Error>,
) -> bool {
    match location {
        None => r is Err && is_protocol_error(r->Err_0, "redirect missing location header"@),
        Some(target) => if hop >= MAX_REDIRECTS {
            r is Err && is_protocol_error(r->Err_0, "too many redirects"@)
        } else {
            match joined_url(base, target) {
                Err(text) => r is Err && is_protocol_error(r->Err_0, text),
                Ok(next) => match validated(next) {
                    Ok(_) => r matches Ok(url) && url@ == next,
                    Err(reason) => r is Err && is_blocked(r->Err_0, reason),
                },
            }
        },
    }
}

pub open spec fn location_text(location: Option<&str>) -> Option<Seq<char>> {
    match location {
        Some(text) => Some(text@),
        None => None,
    }
}

/// The redirects of one fetch, of which only so many are followed.
#[derive(Debug, Clone, Copy, PartialEq, Eq, Structural)]
pub struct RedirectWalk {
    pub hops: usize,
}

impl RedirectWalk {
    /// No more redirects were followed than are allowed.
    pub open spec fn wf(&self) -> bool {
        self.hops <= MAX_REDIRECTS
    }

    /// Nothing has been followed.
    pub fn new() -> (r: Self)
        ensures
            r.hops == 0,
            r.wf(),
    {
        RedirectWalk { hops: 0 }
    }

    /// Decide on the next redirect; one that is followed counts.
    pub fn follow(&mut self, base: &str, location: Option<&str>) -> (r: Result<String, Error>)
        ensures
            is_redirect_result(old(self).hops as nat, base@, location_text(location), r),
            final(self).hops == (if r is Ok {
                old(self).hops + 1
            } else {
                old(self).hops as int
            }),
            old(self).wf() ==> final(self).wf(),
            r is Ok ==> final(self).wf(),
    {
        match follow_redirect(self.hops, base, location) {
            Ok(url) => {
                self.hops = self.hops + 1;
                Ok(url)
            },
            Err(e) => Err(e),
        }
    }
}

/// Decide on a redirect at a hop. Only so many are followed, and each target
/// is validated again before it is fetched.
pub fn follow_redirect(hop: usize, base: &str, location: Option<&str>) -> (r: Result<String, Error>)
    ensures
        is_redirect_result(hop as nat, base@, location_text(location), r),
{
    let location = match location {
        Some(l) => l,
        None => {
            return Err(protocol_error("redirect missing location header"));
        },
    };
    if hop >= MAX_REDIRECTS {
        return Err(protocol_error("too many redirects"));
    }
    match join_url(base, location) {
        Err(text) => Err(protocol_error(text.as_str())),
        Ok(next) => validated_target(next),
    }
}

/// Accept the target of a redirect where it passes validation.
pub fn validated_target(next: String) -> (r: Result<String, Error>)
    ensures
        match validated(next@) {
            Ok(_) => r matches Ok(url) && url@ == next@,
            Err(reason) => r is Err && is_blocked(r->Err_0, reason),
        },
{
    match validate_media_url(next.as_str()) {
        Ok(_) => Ok(next),
        Err(e) => Err(e),
    }
}

// ---------------------------------------------------------------------------
// Probe results
// ---------------------------------------------------------------------------
/// The container section of a probe.
#[derive(Debug)]
pub struct FfprobeFormat {
    pub duration: Option<String>,
    pub format_name: Option<String>,
    pub bit_rate: Option<String>,
}

/// One stream of a probe.
#[derive(Debug)]
pub struct FfprobeStream {
    pub codec_type: Option<String>,
    pub codec_name: Option<String>,
    pub width: Option<u32>,
    pub height: Option<u32>,
}

/// What ffprobe printed.
#[derive(Debug)]
pub struct FfprobeOutput {
    pub format: Option<FfprobeFormat>,
    pub streams: Vec<FfprobeStream>,
}

/// The stream is of that type.
pub open spec fn is_of_type(stream: FfprobeStream, kind: Seq<char>) -> bool {
    stream.codec_type matches Some(t) && t@ == kind
}

/// The place of the first stream of a type at or behind `i`, or the length.
pub open spec fn first_stream(streams: Seq<FfprobeStream>, kind: Seq<char>, i: int) -> int
    decreases streams.len() - i,
{
    if 0 <= i < streams.len() && !is_of_type(streams[i], kind) {
        first_stream(streams, kind, i + 1)
    } else {
        i
    }
}

fn find_stream(streams: &Vec<FfprobeStream>, kind: &str) -> (at: usize)
    ensures
        at == first_stream(streams@, kind@, 0),
        at <= streams@.len(),
{
    let mut i: usize = 0;
    while i < streams.len()
        invariant
            i <= streams@.len(),
            first_stream(streams@, kind@, 0) == first_stream(streams@, kind@, i as int),
        decreases streams@.len() - i,
    {
        if let Some(t) = &streams[i].codec_type {
            if same(t.as_str(), kind) {
                return i;
            }
        }
        i = i + 1;
    }
    i
}

/// Facts and size that a probe gives. Duration and bitrate stay text, to be
/// read as numbers by the caller.
#[derive(Debug)]
pub struct ProbeReading {
    pub duration: Option<String>,
    pub bit_rate: Option<String>,
    pub resolution: Option<(u32, u32)>,
    pub container: MediaContainer,
    pub video_codec: VideoCodec,
    pub audio_codec: AudioCodec,
}

pub open spec fn optional_text(t: Option<String>) -> Option<Seq<char>> {
    match t {
        Some(s) => Some(s@),
        None => None,
    }
}

fn copy_text(t: &Option<String>) -> (r: Option<String>)
    ensures
        optional_text(r) == optional_text(*t),
{
    match t {
        Some(s) => Some(s.clone()),
        None => None,
    }
}

/// The arguments that make ffprobe describe a file.
pub fn ffprobe_args(path: &str) -> (v: Vec<String>)
    ensures
        views(v@) == seq![
            "-v"@,
            "quiet"@,
            "-print_format"@,
            "json"@,
            "-show_format"@,
            "-show_streams"@,
            path@,
        ],
{
    let mut v: Vec<String> = Vec::new();
    v.push("-v".to_owned());
    v.push("quiet".to_owned());
    v.push("-print_format".to_owned());
    v.push("json".to_owned());
    v.push("-show_format".to_owned());
    v.push("-show_streams".to_owned());
    v.push(path.to_owned());
    assert(views(v@) =~= seq![
        "-v"@,
        "quiet"@,
        "-print_format"@,
        "json"@,
        "-show_format"@,
        "-show_streams"@,
        path@,
    ]);
    v
}

/// What a probe that could not be run is answered with.
pub open spec fn ffprobe_failure(failure: JsonSubprocessError, timeout_ms: u64, e: Error) -> bool {
    match failure {
        JsonSubprocessError::Io(error) => e == (Error::DownloadFailed {
            source: DownloadError::WriteFailed(IoCause::Os(error)),
        }),
        JsonSubprocessError::Timeout => e matches Error::Timeout { operation, duration_ms }
            && operation@ == "ffprobe"@ && duration_ms == timeout_ms,
        JsonSubprocessError::OutputLimit { .. } => is_protocol_error(
            e,
            "ffprobe output exceeded limit"@,
        ),
    }
}

/// The description that a probe printed, as it printed it.
pub fn ffprobe_output(
    outcome: Result<JsonSubprocessOutput, JsonSubprocessError>,
    timeout_ms: u64,
) -> (r: Result<Vec<u8>, Error>)
    ensures
        r is Ok <==> outcome is Ok && outcome->Ok_0.success,
        r matches Ok(stdout) ==> stdout == outcome->Ok_0.stdout,
        r matches Err(e) ==> match outcome {
            Ok(_) => is_protocol_error(e, "ffprobe returned error"@),
            Err(failure) => ffprobe_failure(failure, timeout_ms, e),
        },
{
    match outcome {
        Ok(output) => {
            if output.success {
                Ok(output.stdout)
            } else {
                Err(protocol_error("ffprobe returned error"))
            }
        },
        Err(JsonSubprocessError::Io(error)) => Err(write_error(error)),
        Err(JsonSubprocessError::Timeout) => Err(
            Error::Timeout { operation: "ffprobe", duration_ms: timeout_ms },
        ),
        Err(JsonSubprocessError::OutputLimit { .. }) => Err(
            protocol_error("ffprobe output exceeded limit"),
        ),
    }
}

/// A download that took too long.
pub fn download_timed_out(timeout_ms: u64) -> (e: Error)
    ensures
        e matches Error::Timeout { operation, duration_ms } && operation@ == "download"@
            && duration_ms == timeout_ms,
{
    Error::Timeout { operation: "download", duration_ms: timeout_ms }
}

/// Read a probe: the first video and the first audio stream count. A video
/// codec that is not named is unknown; a file whose audio stream is missing or
/// not named counts as silent.
pub fn read_probe(probe: &FfprobeOutput) -> (r: ProbeReading)
    ensures
        ({
            let v = first_stream(probe.streams@, "video"@, 0);
            let a = first_stream(probe.streams@, "audio"@, 0);
            &&& r.resolution == (if v < probe.streams@.len() {
                match (probe.streams@[v].width, probe.streams@[v].height) {
                    (Some(w), Some(h)) => Some((w, h)),
                    _ => None,
                }
            } else {
                None
            })
            &&& r.video_codec == (if v < probe.streams@.len() && probe.streams@[v].codec_name
                is Some {
                video_codec_of(probe.streams@[v].codec_name->0@)
            } else {
                VideoCodec::Other
            })
            &&& r.audio_codec == (if a < probe.streams@.len() && probe.streams@[a].codec_name
                is Some {
                audio_codec_of(probe.streams@[a].codec_name->0@)
            } else {
                AudioCodec::Absent
            })
            &&& match probe.format {
                None => r.duration is None && r.bit_rate is None && r.container
                    == MediaContainer::Unknown,
                Some(f) => optional_text(r.duration) == optional_text(f.duration) && optional_text(
                    r.bit_rate,
                ) == optional_text(f.bit_rate) && r.container == (match f.format_name {
                    Some(n) => container_of_names(split(n@, ',')),
                    None => MediaContainer::Unknown,
                }),
            }
        }),
{
    let v = find_stream(&probe.streams, "video");
    let a = find_stream(&probe.streams, "audio");
    let mut resolution: Option<(u32, u32)> = None;
    let mut video_codec = VideoCodec::default();
    if v < probe.streams.len() {
        let stream = &probe.streams[v];
        if let (Some(w), Some(h)) = (stream.width, stream.height) {
            resolution = Some((w, h));
        }
        if let Some(name) = &stream.codec_name {
            video_codec = VideoCodec::from_ffprobe_name(name.as_str());
        }
    }
    let mut audio_codec = AudioCodec::Absent;
    if a < probe.streams.len() {
        if let Some(name) = &probe.streams[a].codec_name {
            audio_codec = AudioCodec::from_ffprobe_name(name.as_str());
        }
    }
    match &probe.format {
        None => ProbeReading {
            duration: None,
            bit_rate: None,
            resolution,
            container: MediaContainer::default(),
            video_codec,
            audio_codec,
        },
        Some(f) => {
            let container = match &f.format_name {
                Some(n) => MediaContainer::from_ffprobe_name(n.as_str()),
                None => MediaContainer::default(),
            };
            ProbeReading {
                duration: copy_text(&f.duration),
                bit_rate: copy_text(&f.bit_rate),
                resolution,
                container,
                video_codec,
                audio_codec,
            }
        },
    }
}

/// What a bitrate text says, in kbit/s.
#[derive(Debug, Clone, Copy, PartialEq, Eq, Structural)]
pub enum BitrateText {
    /// So many, rounded up.
    Kbps { kbps: u32 },
    /// Nothing that can be used.
    Absent,
    /// A number that is not written as a whole one.
    Fraction,
}

/// A whole number of bit/s, rounded up to kbit/s; zero and what does not fit
/// say nothing.
pub open spec fn bitrate_of(text: Seq<char>) -> BitrateText {
    match parse_unsigned(text, u64::MAX as nat) {
        Some(bits) => if bits == 0 || (bits + 999) / 1000 > u32::MAX {
            BitrateText::Absent
        } else {
            BitrateText::Kbps { kbps: ((bits + 999) / 1000) as u32 }
        },
        None => if is_float_text(text) {
            BitrateText::Fraction
        } else {
            BitrateText::Absent
        },
    }
}

/// Read the bitrate that ffprobe printed, in bit/s. Numbers with a fraction
/// or an exponent are left to the caller.
pub fn parse_bitrate_kbps(bit_rate: &str) -> (r: BitrateText)
    ensures
        r == bitrate_of(bit_rate@),
{
    match parse_u64(bit_rate) {
        Some(bits) => {
            let whole: u64 = bits / 1000;
            let kbps: u64 = if bits % 1000 > 0 {
                whole + 1
            } else {
                whole
            };
            if bits == 0 || kbps > u32::MAX as u64 {
                BitrateText::Absent
            } else {
                BitrateText::Kbps { kbps: kbps as u32 }
            }
        },
        None => {
            if float_text(bit_rate) {
                BitrateText::Fraction
            } else {
                BitrateText::Absent
            }
        },
    }
}

/// A probe with its numbers read.
#[derive(Debug, Clone, Copy)]
pub struct ProbeResult {
    pub duration: Option<FloatBits>,
    pub resolution: Option<(u32, u32)>,
    pub facts: MediaFacts,
}

/// Metadata of a finished download.
#[derive(Debug, Clone, Copy)]
pub struct MediaMetadata {
    pub duration: Option<FloatBits>,
    pub resolution: Option<(u32, u32)>,
    pub facts: MediaFacts,
}

/// What was probed goes before what the resolver said; only a container known
/// from the extension stays.
pub open spec fn merged(resolved: ResolvedMedia, probe: ProbeResult) -> MediaMetadata {
    let by_extension = container_of_extension(resolved.extension@);
    MediaMetadata {
        duration: if probe.duration is Some {
            probe.duration
        } else {
            resolved.duration
        },
        resolution: if probe.resolution is Some {
            probe.resolution
        } else {
            resolved.resolution
        },
        facts: MediaFacts {
            container: if by_extension == MediaContainer::Unknown {
                probe.facts.container
            } else {
                by_extension
            },
            ..probe.facts
        },
    }
}

/// What is known without a probe.
pub open spec fn unprobed(resolved: ResolvedMedia) -> MediaMetadata {
    MediaMetadata {
        duration: resolved.duration,
        resolution: resolved.resolution,
        facts: MediaFacts {
            container: container_of_extension(resolved.extension@),
            video_codec: VideoCodec::Other,
            audio_codec: AudioCodec::Other,
            bitrate_kbps: None,
        },
    }
}

/// Metadata of a download. `probe` is nothing where none was made, else its
/// result or nothing where it failed. A failed probe is fatal only where the
/// size was not known beforehand.
pub fn download_metadata(
    resolved: &ResolvedMedia,
    must_probe: bool,
    probe: Option<Option<ProbeResult>>,
) -> (r: Result<MediaMetadata, Error>)
    ensures
        match probe {
            None => r == Ok::<MediaMetadata, Error>(unprobed(*resolved)),
            Some(Some(p)) => r == Ok::<MediaMetadata, Error>(merged(*resolved, p)),
            Some(None) => if must_probe {
                r is Err && is_protocol_error(r->Err_0, "corrupt download"@)
            } else {
                r == Ok::<MediaMetadata, Error>(unprobed(*resolved))
            },
        },
{
    let mut facts = MediaFacts::from_extension(resolved.extension.as_str());
    match probe {
        Some(Some(p)) => {
            let duration = match p.duration {
                Some(d) => Some(d),
                None => resolved.duration,
            };
            let resolution = match p.resolution {
                Some(d) => Some(d),
                None => resolved.resolution,
            };
            if facts.container == MediaContainer::Unknown {
                facts.container = p.facts.container;
            }
            facts.video_codec = p.facts.video_codec;
            facts.audio_codec = p.facts.audio_codec;
            facts.bitrate_kbps = p.facts.bitrate_kbps;
            Ok(MediaMetadata { duration, resolution, facts })
        },
        Some(None) if must_probe => Err(protocol_error("corrupt download")),
        _ => Ok(
            MediaMetadata { duration: resolved.duration, resolution: resolved.resolution, facts },
        ),
    }
}

/// Put the finished download together. A bitrate that the probe did not give
/// is the one estimated from size and duration.
pub fn downloaded_file(
    path: String,
    size: u64,
    metadata: MediaMetadata,
    estimated_kbps: Option<u32>,
    upload_ready_bytes: Option<Vec<u8>>,
) -> (r: DownloadedFile)
    ensures
        r.path == path,
        r.size == size,
        r.duration == metadata.duration,
        r.resolution == metadata.resolution,
        r.upload_ready_bytes == upload_ready_bytes,
        r.facts == (MediaFacts {
            bitrate_kbps: if metadata.facts.bitrate_kbps is Some {
                metadata.facts.bitrate_kbps
            } else {
                estimated_kbps
            },
            ..metadata.facts
        }),
{
    let mut facts = metadata.facts;
    if facts.bitrate_kbps.is_none() {
        facts.bitrate_kbps = estimated_kbps;
    }
    DownloadedFile {
        path,
        size,
        duration: metadata.duration,
        resolution: metadata.resolution,
        facts,
        upload_ready_bytes,
    }
}

// ---------------------------------------------------------------------------
// What a download keeps
// ---------------------------------------------------------------------------
/// What stays in memory has a known size that fits both the buffer and an
/// upload, comes in one piece and is read by nobody else; it takes no space on
/// disk. All else has its stated size reserved, or the whole download limit.
pub proof fn lemma_plans_reserve_what_they_write(
    resolved: ResolvedMedia,
    body: Body,
    config: EngineSettings,
)
    ensures
        ({
            let plan = plan_of(resolved, body, config);
            let stated = match body {
                Body::Complete { total } => total,
                Body::Ranged { total, .. } => Some(total),
            };
            &&& plan.memory_only ==> body is Complete && !plan.should_probe && plan.reserve_bytes == 0
                && (stated matches Some(size) && 0 < size
                && size <= config.pipeline.upload_ready_buffer_max_bytes
                && size <= config.transcode.max_upload_bytes)
            &&& !plan.memory_only ==> plan.reserve_bytes == (if stated matches Some(size) && size
                > 0 {
                stated->0
            } else {
                config.pipeline.max_download_bytes
            })
            &&& plan.must_probe <==> stated is None
            &&& plan.must_probe ==> plan.should_probe
        }),
{
}

/// A file is left unread only where all that an upload needs is known: its
/// size, its resolution, and of a video the duration; and a video that is too
/// large to be uploaded as it is is always read.
pub proof fn lemma_probes_what_is_not_known(
    resolved: ResolvedMedia,
    body: Body,
    config: EngineSettings,
)
    ensures
        ({
            let plan = plan_of(resolved, body, config);
            let stated = match body {
                Body::Complete { total } => total,
                Body::Ranged { total, .. } => Some(total),
            };
            !plan.should_probe <==> (stated matches Some(size) && resolved.resolution is Some && (
            resolved.media_type == MediaType::Image || (resolved.duration is Some && size
                <= config.transcode.max_upload_bytes)))
        }),
{
}

/// A small file whose metadata is known never touches the disk.
pub proof fn lemma_small_known_files_stay_in_memory(
    resolved: ResolvedMedia,
    size: u64,
    config: EngineSettings,
)
    requires
        0 < size <= config.pipeline.upload_ready_buffer_max_bytes,
        size <= config.transcode.max_upload_bytes,
        resolved.resolution is Some,
        resolved.duration is Some,
    ensures
        plan_of(resolved, Body::Complete { total: Some(size) }, config).memory_only,
{
}

/// Only a partial response is a range. It must begin at the first byte, and it
/// is the whole file exactly where it ends with the last one.
pub proof fn lemma_bodies_begin_at_the_first_byte(
    status: u16,
    length: Option<u64>,
    range: Option<ContentRange>,
)
    ensures
        status != 206 ==> body_of(status, length, range) == Some(Body::Complete { total: length }),
        status == 206 ==> (body_of(status, length, range) is Some <==> (range matches Some(r)
            && r.start == 0)),
        body_of(status, length, range) matches Some(Body::Ranged { first, total }) ==> range
            == Some(ContentRange { start: 0, end: first, total }) && first != total,
        status == 206 ==> (body_of(status, length, range) matches Some(Body::Complete { total })
            ==> total is Some && range == Some(
            ContentRange { start: 0, end: total->0, total: total->0 },
        )),
{
}

/// A range that was read is not empty and lies within the file.
pub proof fn lemma_ranges_lie_within_the_file(value: Seq<char>)
    ensures
        content_range_of(value) matches Some(r) ==> r.start < r.end <= r.total,
{
}

/// No limit is zero; else exactly what is larger is refused, and the message
/// rounds both sizes down to whole mebibytes.
pub proof fn lemma_size_limit(size: u64, limit: u64)
    ensures
        over_limit(size, limit) <==> limit != 0 && size > limit,
        too_large(size, limit) matches Error::DownloadFailed {
            source: DownloadError::TooLarge { size_mb, max_mb },
        } && size_mb * 1_048_576 <= size < (size_mb + 1) * 1_048_576 && max_mb * 1_048_576 <= limit
            < (max_mb + 1) * 1_048_576,
{
    assert(size / 1024 / 1024 * 1_048_576 <= size < (size / 1024 / 1024 + 1) * 1_048_576)
        by (nonlinear_arith);
    assert(limit / 1024 / 1024 * 1_048_576 <= limit < (limit / 1024 / 1024 + 1) * 1_048_576)
        by (nonlinear_arith);
}

/// The stream that counts is the first of its type.
pub proof fn lemma_first_stream_counts(streams: Seq<FfprobeStream>, kind: Seq<char>, i: int)
    requires
        0 <= i <= streams.len(),
    ensures
        i <= first_stream(streams, kind, i) <= streams.len(),
        forall|k: int|
            i <= k < first_stream(streams, kind, i) ==> !((#[trigger] streams[k]).codec_type
                matches Some(t) && t@ == kind),
        first_stream(streams, kind, i) < streams.len() ==> (streams[first_stream(
            streams,
            kind,
            i,
        )].codec_type matches Some(t) && t@ == kind),
    decreases streams.len() - i,
{
    if i < streams.len() && !is_of_type(streams[i], kind) {
        lemma_first_stream_counts(streams, kind, i + 1);
    }
}

/// A bitrate is rounded up: it is the least number of kilobits that holds all
/// bits.
pub proof fn lemma_bitrates_round_up(bits: u64)
    requires
        0 < bits <= 4_294_967_295_000,
    ensures
        bitrate_of(decimal(bits as nat)) matches BitrateText::Kbps { kbps } && (kbps - 1) * 1000
            < bits <= kbps * 1000,
{
    lemma_decimal_roundtrip(bits as nat, u64::MAX as nat);
}

/// What a probe measured goes before what was announced; what it did not
/// measure is kept.
pub proof fn lemma_measured_goes_before_announced(resolved: ResolvedMedia, probe: ProbeResult)
    ensures
        ({
            let m = merged(resolved, probe);
            &&& probe.duration is Some ==> m.duration == probe.duration
            &&& probe.duration is None ==> m.duration == resolved.duration
            &&& probe.resolution is Some ==> m.resolution == probe.resolution
            &&& probe.resolution is None ==> m.resolution == resolved.resolution
            &&& m.facts.video_codec == probe.facts.video_codec
            &&& m.facts.audio_codec == probe.facts.audio_codec
            &&& m.facts.bitrate_kbps == probe.facts.bitrate_kbps
            &&& m.facts.container == probe.facts.container || m.facts.container
                == container_of_extension(resolved.extension@)
            &&& m.facts.container == MediaContainer::Unknown ==> probe.facts.container
                == MediaContainer::Unknown
        }),
        unprobed(resolved).duration == resolved.duration,
        unprobed(resolved).resolution == resolved.resolution,
{
}

/// Jobs of different tweets, and different jobs of one, have directories of
/// their own.
pub proof fn lemma_job_directories_differ(job: u64, tweet: u64, other_job: u64, other_tweet: u64)
    requires
        job_dir_text(job, tweet) == job_dir_text(other_job, other_tweet),
    ensures
        job == other_job,
        tweet == other_tweet,
{
    reveal_strlit("_");
    assert("_"@ =~= seq!['_']);
    lemma_decimal_value(job as nat);
    lemma_decimal_value(tweet as nat);
    lemma_decimal_value(other_job as nat);
    lemma_decimal_value(other_tweet as nat);
    let s = job_dir_text(job, tweet);
    let (a, b) = (decimal(job as nat), decimal(tweet as nat));
    let (c, d) = (decimal(other_job as nat), decimal(other_tweet as nat));
    assert(!a.contains('_')) by {
        assert forall|i: int| 0 <= i < a.len() implies a[i] != '_' by {
            assert(is_digit(a[i]));
        }
    }
    assert(!c.contains('_')) by {
        assert forall|i: int| 0 <= i < c.len() implies c[i] != '_' by {
            assert(is_digit(c[i]));
        }
    }
    lemma_first_part(s, '_', a, b);
    lemma_first_part(s, '_', c, d);
}

/// No more than five redirects are followed, and none to an address that is
/// refused.
pub proof fn lemma_redirects_are_few_and_checked(
    hop: nat,
    base: Seq<char>,
    location: Option<Seq<char>>,
    r: Result<String, Error>,
)
    requires
        is_redirect_result(hop, base, location, r),
        r is Ok,
    ensures
        hop < 5,
        location is Some,
        joined_url(base, location->0) == Ok::<Seq<char>, Seq<char>>(r->Ok_0@),
        parsed_url(r->Ok_0@) matches Ok(parts) && check_parts(parts) is Ok,
{
}

/// A probe that ran out of time fails as such.
pub proof fn lemma_failed_probes_tell_why(failure: JsonSubprocessError, timeout_ms: u64, e: Error)
    requires
        ffprobe_failure(failure, timeout_ms, e),
    ensures
        failure is Timeout <==> e is Timeout,
        e matches Error::Timeout { operation, duration_ms } ==> operation@ == "ffprobe"@
            && duration_ms == timeout_ms,
        failure matches JsonSubprocessError::Io(cause) ==> e == (Error::DownloadFailed {
            source: DownloadError::WriteFailed(IoCause::Os(cause)),
        }),
        !(failure is Timeout) ==> (e matches Error::DownloadFailed { source } && source
            is WriteFailed),
{
}

} // verus!
