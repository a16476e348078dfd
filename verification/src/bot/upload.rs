//! Sending prepared files to a channel.
//!
//! Files go out one per message or in batches, in order. Failures that may
//! pass are tried again after a growing wait.

use crate::bot::ids::MessageId;
use crate::bot::job::{Error, UploadOutcome};
use crate::config::EngineSettings;
use crate::media::url::TweetId;
use crate::pipeline::types::{PreparedPart, Progress};
use crate::text::{decimal, decimal_of, lemma_decimal_value};
use vstd::prelude::*;
use vstd::string::StringExecFns;

verus! {

/// The most files that one message takes.
pub const MAX_ATTACHMENTS_PER_REQUEST: usize = 10;

/// How often a failed request is tried again.
pub const MAX_RETRIES: usize = 3;

/// The bound of the random part of a wait, in milliseconds.
pub const JITTER_BOUND_MS: u64 = 250;

// ---------------------------------------------------------------------------
// Timings
// ---------------------------------------------------------------------------
#[derive(Debug, Clone, Copy, PartialEq, Eq, Structural)]
pub struct Metrics {
    pub attachment_prepare_ms: u64,
    pub http_send_ms: u64,
    pub response_parse_ms: u64,
    pub post_upload_cleanup_ms: u64,
    pub payload_bytes: u64,
    pub request_count: usize,
}

impl Default for Metrics {
    fn default() -> (r: Self)
        ensures
            r == Metrics::zero(),
    {
        Metrics {
            attachment_prepare_ms: 0,
            http_send_ms: 0,
            response_parse_ms: 0,
            post_upload_cleanup_ms: 0,
            payload_bytes: 0,
            request_count: 0,
        }
    }
}

/// The sum, at most what the counter holds.
pub open spec fn capped_sum(a: u64, b: u64) -> u64 {
    if a + b > u64::MAX {
        u64::MAX
    } else {
        (a + b) as u64
    }
}

impl Metrics {
    pub open spec fn zero() -> Self {
        Metrics {
            attachment_prepare_ms: 0,
            http_send_ms: 0,
            response_parse_ms: 0,
            post_upload_cleanup_ms: 0,
            payload_bytes: 0,
            request_count: 0,
        }
    }

    /// All four timings together.
    pub fn total_duration_ms(self) -> (r: u64)
        ensures
            r as int == (if self.attachment_prepare_ms + self.http_send_ms + self.response_parse_ms
                + self.post_upload_cleanup_ms > u64::MAX {
                u64::MAX as int
            } else {
                self.attachment_prepare_ms + self.http_send_ms + self.response_parse_ms
                    + self.post_upload_cleanup_ms
            }),
    {
        self.attachment_prepare_ms.saturating_add(self.http_send_ms).saturating_add(
            self.response_parse_ms,
        ).saturating_add(self.post_upload_cleanup_ms)
    }

    pub open spec fn stage_ms(self, i: int) -> u64 {
        if i == 0 {
            self.attachment_prepare_ms
        } else if i == 1 {
            self.http_send_ms
        } else if i == 2 {
            self.response_parse_ms
        } else {
            self.post_upload_cleanup_ms
        }
    }

    pub open spec fn stage_name(i: int) -> Seq<char> {
        if i == 0 {
            "attachment_preparation"@
        } else if i == 1 {
            "http_send"@
        } else if i == 2 {
            "response_parsing"@
        } else {
            "post_upload_cleanup"@
        }
    }

    /// The stage that took longest; the later one of equals.
    pub fn slowest_stage(self) -> (r: (&'static str, u64))
        ensures
            exists|i: int|
                0 <= i < 4 && r.0@ == #[trigger] Metrics::stage_name(i) && r.1 == self.stage_ms(i)
                    && (forall|j: int| 0 <= j < 4 ==> #[trigger] self.stage_ms(j) <= r.1) && (
                forall|j: int| i < j < 4 ==> #[trigger] self.stage_ms(j) < r.1),
    {
        let mut best: (&'static str, u64) = ("attachment_preparation", self.attachment_prepare_ms);
        let ghost mut at: int = 0;
        if self.http_send_ms >= best.1 {
            best = ("http_send", self.http_send_ms);
            proof {
                at = 1;
            }
        }
        if self.response_parse_ms >= best.1 {
            best = ("response_parsing", self.response_parse_ms);
            proof {
                at = 2;
            }
        }
        if self.post_upload_cleanup_ms >= best.1 {
            best = ("post_upload_cleanup", self.post_upload_cleanup_ms);
            proof {
                at = 3;
            }
        }
        assert(best.0@ == Metrics::stage_name(at));
        best
    }

    /// One request more.
    pub open spec fn plus(self, t: RequestTimings) -> Self {
        Metrics {
            attachment_prepare_ms: capped_sum(self.attachment_prepare_ms, t.prepare_ms),
            http_send_ms: capped_sum(self.http_send_ms, t.send_ms),
            response_parse_ms: capped_sum(self.response_parse_ms, t.parse_ms),
            post_upload_cleanup_ms: capped_sum(self.post_upload_cleanup_ms, t.cleanup_ms),
            payload_bytes: capped_sum(self.payload_bytes, t.payload_bytes),
            request_count: if self.request_count == usize::MAX {
                usize::MAX
            } else {
                (self.request_count + 1) as usize
            },
        }
    }

    pub fn record(&mut self, t: &RequestTimings)
        ensures
            *final(self) == old(self).plus(*t),
    {
        self.attachment_prepare_ms = self.attachment_prepare_ms.saturating_add(t.prepare_ms);
        self.http_send_ms = self.http_send_ms.saturating_add(t.send_ms);
        self.response_parse_ms = self.response_parse_ms.saturating_add(t.parse_ms);
        self.post_upload_cleanup_ms = self.post_upload_cleanup_ms.saturating_add(t.cleanup_ms);
        self.payload_bytes = self.payload_bytes.saturating_add(t.payload_bytes);
        self.request_count = self.request_count.saturating_add(1);
    }
}

/// What one request took.
#[derive(Debug, Clone, Copy, PartialEq, Eq, Structural)]
pub struct RequestTimings {
    pub prepare_ms: u64,
    pub send_ms: u64,
    pub parse_ms: u64,
    pub cleanup_ms: u64,
    pub payload_bytes: u64,
}

// ---------------------------------------------------------------------------
// Requests
// ---------------------------------------------------------------------------
/// Several files go out together where the settings say so.
pub fn should_batch_upload(parts: &[PreparedPart], config: &EngineSettings) -> (r: bool)
    ensures
        r == (parts@.len() > 1 && config.pipeline.batch_upload_multiple_media),
{
    parts.len() > 1 && config.pipeline.batch_upload_multiple_media
}

/// The number of full or partial batches.
pub open spec fn batches(parts: nat) -> nat {
    if parts % 10 == 0 {
        parts / 10
    } else {
        parts / 10 + 1
    }
}

pub fn batch_request_count(parts: usize) -> (r: usize)
    ensures
        r == batches(parts as nat),
{
    let full: usize = parts / MAX_ATTACHMENTS_PER_REQUEST;
    if parts % MAX_ATTACHMENTS_PER_REQUEST == 0 {
        full
    } else {
        full + 1
    }
}

/// The files of one request.
#[derive(Debug, Clone, Copy, PartialEq, Eq, Structural)]
pub struct RequestParts {
    pub start: usize,
    pub end: usize,
}

/// The requests of one upload.
#[derive(Debug, Clone, Copy, PartialEq, Eq, Structural)]
pub struct UploadRun {
    pub total: usize,
    /// Files per request.
    pub step: usize,
    /// Files that are sent.
    pub sent: usize,
    pub requests: usize,
    pub first_message_id: Option<MessageId>,
    pub metrics: Metrics,
}

/// `e` is an upload failure with this part, total and cause.
pub open spec fn is_upload_failure(e: Error, part: int, total: int, cause: Seq<char>) -> bool {
    e matches Error::UploadFailed { part: p, total: t, source } && p == part && t == total
        && source@ == cause
}

impl UploadRun {
    /// Requests are sent in full until the files run out, and the first
    /// message is known once one was sent.
    pub open spec fn wf(&self) -> bool {
        &&& self.step == 1 || self.step == MAX_ATTACHMENTS_PER_REQUEST
        &&& self.sent <= self.total
        &&& self.total > 0
        &&& self.requests <= self.sent
        &&& self.sent < self.total ==> self.sent == self.requests * self.step
        &&& self.sent == self.total ==> (self.requests - 1) * self.step < self.total
            <= self.requests * self.step
        &&& self.first_message_id is Some <==> self.requests > 0
    }

    /// Begin; there has to be a file.
    pub fn begin(parts: &[PreparedPart], config: &EngineSettings) -> (r: Result<Self, Error>)
        ensures
            r is Ok <==> parts@.len() > 0,
            r matches Ok(run) ==> run.wf() && run.total == parts@.len() && run.sent == 0
                && run.requests == 0 && run.metrics == Metrics::zero() && run.step == (if parts@.len()
                > 1 && config.pipeline.batch_upload_multiple_media {
                MAX_ATTACHMENTS_PER_REQUEST
            } else {
                1
            }),
            r matches Err(e) ==> is_upload_failure(e, 0, 0, "no upload files provided"@),
    {
        if parts.len() == 0 {
            return Err(
                Error::UploadFailed {
                    part: 0,
                    total: 0,
                    source: "no upload files provided".to_owned(),
                },
            );
        }
        Ok(
            UploadRun {
                total: parts.len(),
                step: if should_batch_upload(parts, config) {
                    MAX_ATTACHMENTS_PER_REQUEST
                } else {
                    1
                },
                sent: 0,
                requests: 0,
                first_message_id: None,
                metrics: Metrics::default(),
            },
        )
    }

    /// The files of the next request, where some are left.
    pub fn next_request(&self) -> (r: Option<RequestParts>)
        requires
            self.wf(),
        ensures
            r is Some <==> self.sent < self.total,
            r matches Some(p) ==> p.start == self.sent && p.end == (if self.total - self.sent
                <= self.step {
                self.total as int
            } else {
                self.sent + self.step
            }),
    {
        if self.sent >= self.total {
            return None;
        }
        let left: usize = self.total - self.sent;
        let end: usize = if left <= self.step {
            self.total
        } else {
            self.sent + self.step
        };
        Some(RequestParts { start: self.sent, end })
    }

    /// The request with these files was answered by a message.
    pub fn request_done(&mut self, parts: RequestParts, message: MessageId, timings: &RequestTimings)
        requires
            old(self).wf(),
            old(self).sent < old(self).total,
            parts.start == old(self).sent,
            parts.end == (if old(self).total - old(self).sent <= old(self).step {
                old(self).total as int
            } else {
                old(self).sent + old(self).step
            }),
        ensures
            final(self).wf(),
            final(self).total == old(self).total,
            final(self).step == old(self).step,
            final(self).sent == parts.end,
            final(self).requests == old(self).requests + 1,
            final(self).first_message_id == (match old(self).first_message_id {
                Some(first) => Some(first),
                None => Some(message),
            }),
            final(self).metrics == old(self).metrics.plus(*timings),
    {
        proof {
            let q = self.requests as int;
            let s = self.step as int;
            assert((q + 1) * s == q * s + s) by (nonlinear_arith);
            assert((q + 1 - 1) * s == q * s);
        }
        self.sent = parts.end;
        self.requests = self.requests + 1;
        if self.first_message_id.is_none() {
            self.first_message_id = Some(message);
        }
        self.metrics.record(timings);
    }

    /// The request with these files failed; the last of them is named.
    pub fn request_failed(&self, parts: RequestParts, cause: String) -> (e: Error)
        ensures
            is_upload_failure(e, parts.end as int, self.total as int, cause@),
    {
        Error::UploadFailed { part: parts.end, total: self.total, source: cause }
    }

    /// The outcome when all files are sent.
    pub fn finish(&self) -> (r: Result<UploadOutcome, Error>)
        requires
            self.wf(),
        ensures
            r is Ok <==> self.requests > 0,
            r matches Ok(outcome) ==> self.first_message_id == Some(outcome.first_message_id)
                && outcome.messages_sent == self.requests,
            r matches Err(e) ==> is_upload_failure(
                e,
                0,
                self.total as int,
                "upload produced no messages"@,
            ),
    {
        match self.first_message_id {
            Some(first_message_id) => Ok(
                UploadOutcome { first_message_id, messages_sent: self.requests },
            ),
            None => Err(
                Error::UploadFailed {
                    part: 0,
                    total: self.total,
                    source: "upload produced no messages".to_owned(),
                },
            ),
        }
    }
}

/// An upload that sent everything made one request per file, or one per batch.
pub proof fn lemma_request_count(run: UploadRun)
    requires
        run.wf(),
        run.sent == run.total,
    ensures
        run.step == 1 ==> run.requests == run.total,
        run.step == MAX_ATTACHMENTS_PER_REQUEST ==> run.requests == batches(run.total as nat),
{
    if run.step == 1 {
        assert((run.requests - 1) * run.step == run.requests - 1) by (nonlinear_arith)
            requires
                run.step == 1,
        ;
        assert(run.requests * run.step == run.requests) by (nonlinear_arith)
            requires
                run.step == 1,
        ;
    } else {
        assert((run.requests - 1) * run.step == (run.requests - 1) * 10);
        assert(run.requests * run.step == run.requests * 10);
    }
}

/// The status shown while a file is prepared.
pub fn part_progress(part_number: usize, total: usize) -> (r: Progress)
    ensures
        r == (if total > 1 {
            Progress::UploadingSegment(part_number, total)
        } else {
            Progress::Uploading
        }),
{
    if total > 1 {
        Progress::UploadingSegment(part_number, total)
    } else {
        Progress::Uploading
    }
}

// ---------------------------------------------------------------------------
// Attachments
// ---------------------------------------------------------------------------
fn upload_failure(part: usize, total: usize, cause: &str) -> (e: Error)
    ensures
        is_upload_failure(e, part as int, total as int, cause@),
{
    Error::UploadFailed { part, total, source: cause.to_owned() }
}

/// The size of a file, where it may be uploaded.
pub fn file_size_checked_from_metadata(
    file_size: u64,
    max_upload_bytes: u64,
    part_number: usize,
    total: usize,
) -> (r: Result<u64, Error>)
    ensures
        r is Ok <==> file_size <= max_upload_bytes && file_size <= usize::MAX,
        r matches Ok(n) ==> n == file_size,
        file_size > max_upload_bytes ==> (r matches Err(e) && is_upload_failure(
            e,
            part_number as int,
            total as int,
            "file too large"@,
        )),
        file_size <= max_upload_bytes && file_size > usize::MAX ==> (r matches Err(e)
            && is_upload_failure(
            e,
            part_number as int,
            total as int,
            "file size exceeds addressable memory"@,
        )),
{
    if file_size > max_upload_bytes {
        return Err(upload_failure(part_number, total, "file too large"));
    }
    if file_size > usize::MAX as u64 {
        return Err(upload_failure(part_number, total, "file size exceeds addressable memory"));
    }
    Ok(file_size)
}

pub open spec fn attachment_name(
    extension: Option<Seq<char>>,
    tweet_id: nat,
    part_number: nat,
    total: nat,
) -> Seq<char> {
    let ext = match extension {
        Some(e) => e,
        None => "mp4"@,
    };
    if total > 1 {
        "tweet_"@ + decimal(tweet_id) + "_part"@ + decimal(part_number) + "."@ + ext
    } else {
        "tweet_"@ + decimal(tweet_id) + "."@ + ext
    }
}

/// The name that a file is uploaded under.
pub fn attachment_filename(
    extension: Option<&str>,
    tweet_id: TweetId,
    part_number: usize,
    total: usize,
) -> (s: String)
    ensures
        s@ == attachment_name(
            match extension {
                Some(e) => Some(e@),
                None => None,
            },
            tweet_id.0 as nat,
            part_number as nat,
            total as nat,
        ),
{
    let mut s = "tweet_".to_owned();
    s.append(decimal_of(tweet_id.0).as_str());
    if total > 1 {
        s.append("_part");
        s.append(decimal_of(part_number as u64).as_str());
    }
    s.append(".");
    match extension {
        Some(e) => s.append(e),
        None => s.append("mp4"),
    }
    s
}

/// All lengths together.
pub open spec fn total_len(lengths: Seq<usize>) -> nat
    decreases lengths.len(),
{
    if lengths.len() == 0 {
        0
    } else {
        total_len(lengths.drop_last()) + lengths.last() as nat
    }
}

proof fn lemma_total_len_prefix(lengths: Seq<usize>, n: int)
    requires
        0 <= n <= lengths.len(),
    ensures
        total_len(lengths.take(n)) <= total_len(lengths),
    decreases lengths.len() - n,
{
    if n < lengths.len() {
        lemma_total_len_prefix(lengths, n + 1);
        assert(lengths.take(n + 1).drop_last() =~= lengths.take(n));
    } else {
        assert(lengths.take(n) =~= lengths);
    }
}

/// The bytes of all attachments of a request, from their lengths.
pub fn attachment_payload_bytes(lengths: &[usize]) -> (r: u64)
    requires
        total_len(lengths@) <= u64::MAX,
    ensures
        r == total_len(lengths@),
{
    let mut sum: u64 = 0;
    let mut i: usize = 0;
    assert(lengths@.take(0) =~= Seq::<usize>::empty());
    while i < lengths.len()
        invariant
            i <= lengths@.len(),
            sum == total_len(lengths@.take(i as int)),
            total_len(lengths@) <= u64::MAX,
        decreases lengths@.len() - i,
    {
        proof {
            lemma_total_len_prefix(lengths@, i + 1);
            assert(lengths@.take(i + 1).drop_last() =~= lengths@.take(i as int));
        }
        sum = sum + lengths[i] as u64;
        i = i + 1;
    }
    assert(lengths@.take(i as int) =~= lengths@);
    sum
}

/// Where the bytes of an attachment come from.
#[derive(Debug, Clone, Copy, PartialEq, Eq, Structural)]
pub enum AttachmentSource {
    /// They are held in memory.
    Memory,
    /// They are to be read, so many of them.
    File { size: u64 },
}

/// Decide where the bytes of a file come from. Bytes in memory have to be as
/// many as the file is said to hold.
pub fn build_attachment(
    part: &PreparedPart,
    max_upload_bytes: u64,
    part_number: usize,
    total: usize,
) -> (r: Result<AttachmentSource, Error>)
    ensures
        part.size > max_upload_bytes ==> (r matches Err(e) && is_upload_failure(
            e,
            part_number as int,
            total as int,
            "file too large"@,
        )),
        part.size <= max_upload_bytes && part.size > usize::MAX ==> (r matches Err(e)
            && is_upload_failure(
            e,
            part_number as int,
            total as int,
            "file size exceeds addressable memory"@,
        )),
        part.size <= max_upload_bytes && part.size <= usize::MAX
            ==> match part.upload_ready_bytes {
            None => r == Ok::<AttachmentSource, Error>(AttachmentSource::File { size: part.size }),
            Some(bytes) => if bytes@.len() == part.size {
                r == Ok::<AttachmentSource, Error>(AttachmentSource::Memory)
            } else {
                r matches Err(e) && is_upload_failure(
                    e,
                    part_number as int,
                    total as int,
                    "in-memory upload payload size mismatch"@,
                )
            },
        },
{
    match &part.upload_ready_bytes {
        Some(bytes) => {
            match file_size_checked_from_metadata(part.size, max_upload_bytes, part_number, total) {
                Err(e) => Err(e),
                Ok(size) => {
                    if bytes.len() as u64 != size {
                        return Err(
                            upload_failure(
                                part_number,
                                total,
                                "in-memory upload payload size mismatch",
                            ),
                        );
                    }
                    Ok(AttachmentSource::Memory)
                },
            }
        },
        None => build_attachment_from_path(part.size, max_upload_bytes, part_number, total),
    }
}

/// Decide on a file whose bytes are read.
pub fn build_attachment_from_path(
    file_size: u64,
    max_upload_bytes: u64,
    part_number: usize,
    total: usize,
) -> (r: Result<AttachmentSource, Error>)
    ensures
        r is Ok <==> file_size <= max_upload_bytes && file_size <= usize::MAX,
        r matches Ok(source) ==> source == (AttachmentSource::File { size: file_size }),
        file_size > max_upload_bytes ==> (r matches Err(e) && is_upload_failure(
            e,
            part_number as int,
            total as int,
            "file too large"@,
        )),
        file_size <= max_upload_bytes && file_size > usize::MAX ==> (r matches Err(e)
            && is_upload_failure(
            e,
            part_number as int,
            total as int,
            "file size exceeds addressable memory"@,
        )),
{
    match file_size_checked_from_metadata(file_size, max_upload_bytes, part_number, total) {
        Ok(size) => Ok(AttachmentSource::File { size }),
        Err(e) => Err(e),
    }
}

/// A size that cannot be allocated.
#[derive(Debug)]
pub struct InvalidInput {
    pub message: &'static str,
}

/// The length of a buffer for a file.
pub fn checked_preallocation_len(size: u64) -> (r: Result<usize, InvalidInput>)
    ensures
        r is Ok <==> size <= isize::MAX,
        r matches Ok(n) ==> n == size,
        r matches Err(e) ==> e.message@ == "file size exceeds addressable memory"@,
{
    if size > isize::MAX as u64 {
        return Err(InvalidInput { message: "file size exceeds addressable memory" });
    }
    Ok(size as usize)
}

/// The preparation of one batch: a bounded number of files at once, each into
/// its own slot.
#[derive(Debug)]
pub struct BatchPreparation {
    pub total: usize,
    pub limit: usize,
    pub next: usize,
    pub running: usize,
    /// The slots that are filled.
    pub filled: Vec<bool>,
}

/// How many files are prepared at once.
pub open spec fn prepare_limit(configured: usize, parts: nat) -> nat {
    let most = if parts == 0 {
        1
    } else {
        parts
    };
    if configured < most {
        configured as nat
    } else {
        most
    }
}

pub open spec fn count_filled(filled: Seq<bool>) -> nat
    decreases filled.len(),
{
    if filled.len() == 0 {
        0
    } else {
        count_filled(filled.drop_last()) + if filled.last() {
            1nat
        } else {
            0nat
        }
    }
}

proof fn lemma_count_update(filled: Seq<bool>, slot: int)
    requires
        0 <= slot < filled.len(),
        !filled[slot],
    ensures
        count_filled(filled.update(slot, true)) == count_filled(filled) + 1,
    decreases filled.len(),
{
    let n = filled.len() - 1;
    let after = filled.update(slot, true);
    if slot == n {
        assert(after.drop_last() =~= filled.drop_last());
    } else {
        lemma_count_update(filled.drop_last(), slot);
        assert(after.drop_last() =~= filled.drop_last().update(slot, true));
    }
}

proof fn lemma_count_bound(filled: Seq<bool>)
    ensures
        count_filled(filled) <= filled.len(),
        count_filled(filled) == filled.len() ==> forall|i: int|
            0 <= i < filled.len() ==> #[trigger] filled[i],
    decreases filled.len(),
{
    if filled.len() > 0 {
        lemma_count_bound(filled.drop_last());
        assert forall|i: int|
            count_filled(filled) == filled.len() && 0 <= i
                < filled.len() implies #[trigger] filled[i] by {
            if i < filled.len() - 1 {
                assert(filled.drop_last()[i]);
            }
        }
    }
}

proof fn lemma_count_empty(filled: Seq<bool>)
    requires
        forall|i: int| 0 <= i < filled.len() ==> !#[trigger] filled[i],
    ensures
        count_filled(filled) == 0,
    decreases filled.len(),
{
    if filled.len() > 0 {
        let rest = filled.drop_last();
        assert forall|i: int| 0 <= i < rest.len() implies !#[trigger] rest[i] by {
            assert(rest[i] == filled[i]);
        }
        lemma_count_empty(rest);
    }
}

impl BatchPreparation {
    /// Every file that was started runs or has filled its slot.
    pub open spec fn wf(&self) -> bool {
        &&& self.filled@.len() == self.total
        &&& self.next <= self.total
        &&& self.running <= self.limit
        &&& self.running + count_filled(self.filled@) == self.next
        &&& forall|i: int| self.next <= i < self.total ==> !#[trigger] self.filled@[i]
    }

    pub fn new(total: usize, configured: usize) -> (r: Self)
        ensures
            r.wf(),
            r.total == total,
            r.limit == prepare_limit(configured, total as nat),
            r.next == 0,
            r.running == 0,
    {
        let most: usize = if total == 0 {
            1
        } else {
            total
        };
        let limit: usize = if configured < most {
            configured
        } else {
            most
        };
        let mut filled: Vec<bool> = Vec::new();
        let mut i: usize = 0;
        while i < total
            invariant
                i <= total,
                filled@.len() == i,
                forall|j: int| 0 <= j < i ==> !#[trigger] filled@[j],
            decreases total - i,
        {
            filled.push(false);
            i = i + 1;
        }
        proof {
            lemma_count_empty(filled@);
        }
        BatchPreparation { total, limit, next: 0, running: 0, filled }
    }

    /// The slot of the file to start next, while there is room.
    pub fn start_next(&mut self) -> (slot: Option<usize>)
        requires
            old(self).wf(),
        ensures
            final(self).wf(),
            slot is Some <==> old(self).next < old(self).total && old(self).running < old(
                self,
            ).limit,
            slot matches Some(s) ==> s == old(self).next && final(self).next == old(self).next + 1
                && final(self).running == old(self).running + 1,
            slot is None ==> final(self).next == old(self).next && final(self).running == old(
                self,
            ).running,
            final(self).filled@ == old(self).filled@,
            final(self).total == old(self).total,
            final(self).limit == old(self).limit,
    {
        if self.next >= self.total || self.running >= self.limit {
            return None;
        }
        let slot = self.next;
        self.next = self.next + 1;
        self.running = self.running + 1;
        Some(slot)
    }

    /// The file of a slot is prepared.
    pub fn finished(&mut self, slot: usize)
        requires
            old(self).wf(),
            slot < old(self).next,
            !old(self).filled@[slot as int],
            old(self).running > 0,
        ensures
            final(self).wf(),
            final(self).filled@ == old(self).filled@.update(slot as int, true),
            final(self).running == old(self).running - 1,
            final(self).next == old(self).next,
            final(self).total == old(self).total,
            final(self).limit == old(self).limit,
    {
        proof {
            lemma_count_update(self.filled@, slot as int);
        }
        self.filled.set(slot, true);
        self.running = self.running - 1;
    }

    /// Whether every slot is filled; else the failure of the first that is
    /// not.
    pub fn result(&self, start_part_index: usize, total_files: usize) -> (r: Result<(), Error>)
        requires
            self.wf(),
            start_part_index + self.total <= usize::MAX,
        ensures
            r is Ok <==> forall|i: int| 0 <= i < self.total ==> #[trigger] self.filled@[i],
            r matches Err(e) ==> exists|slot: int|
                0 <= slot < self.total && !#[trigger] self.filled@[slot] && (forall|i: int|
                    0 <= i < slot ==> #[trigger] self.filled@[i]) && is_upload_failure(
                    e,
                    start_part_index + slot + 1,
                    total_files as int,
                    "attachment preparation produced incomplete batch"@,
                ),
    {
        let mut i: usize = 0;
        while i < self.filled.len()
            invariant
                i <= self.filled@.len(),
                self.filled@.len() == self.total,
                start_part_index + self.total <= usize::MAX,
                forall|j: int| 0 <= j < i ==> #[trigger] self.filled@[j],
            decreases self.filled@.len() - i,
        {
            if !self.filled[i] {
                assert(!self.filled@[i as int]);
                return Err(
                    upload_failure(
                        start_part_index + i + 1,
                        total_files,
                        "attachment preparation produced incomplete batch",
                    ),
                );
            }
            i = i + 1;
        }
        Ok(())
    }
}

/// A preparation that can start nothing and has nothing running has filled
/// every slot, unless no file may be prepared at all.
pub proof fn lemma_idle_preparation_is_complete(p: BatchPreparation)
    requires
        p.wf(),
        p.running == 0,
        p.limit > 0,
        !(p.next < p.total && p.running < p.limit),
    ensures
        forall|i: int| 0 <= i < p.total ==> #[trigger] p.filled@[i],
{
    lemma_count_bound(p.filled@);
}

// ---------------------------------------------------------------------------
// Trying again
// ---------------------------------------------------------------------------
/// What a failed request met.
#[derive(Debug, Clone, Copy, PartialEq, Eq, Structural)]
pub enum SendFailure {
    /// No answer in time, no connection, or the request was cancelled.
    Connection,
    /// An answer with this status. A rate limit may say how long to wait, in
    /// nanoseconds.
    Status { status: u16, retry_after_nanos: Option<u128> },
    Other,
}

/// Two to the power of `attempt`, counted up to eight.
pub open spec fn backoff_factor(attempt: nat) -> nat
    decreases attempt,
{
    if attempt == 0 {
        1
    } else if attempt > 8 {
        256
    } else {
        2 * backoff_factor((attempt - 1) as nat)
    }
}

/// The wait before the random part.
pub open spec fn backoff_base(attempt: nat, base_ms: u64, max_ms: u64) -> u64 {
    if base_ms * backoff_factor(attempt) > max_ms {
        max_ms
    } else {
        (base_ms * backoff_factor(attempt)) as u64
    }
}

/// The seed, mixed.
pub open spec fn mixed(seed: u64) -> u64 {
    let a = seed.wrapping_add(0x9e37_79b9_7f4a_7c15);
    let b = (a ^ (a >> 30u64)).wrapping_mul(0xbf58_476d_1ce4_e5b9);
    let c = (b ^ (b >> 27u64)).wrapping_mul(0x94d0_49bb_1331_11eb);
    c ^ (c >> 31u64)
}

/// A number below the bound that looks random.
pub fn jitter_millis_for_seed(max_ms: u64, seed: u64) -> (r: u64)
    ensures
        max_ms == 0 ==> r == 0,
        max_ms > 0 ==> r < max_ms && r == mixed(seed) % max_ms,
{
    if max_ms == 0 {
        return 0;
    }
    let a = seed.wrapping_add(0x9e37_79b9_7f4a_7c15);
    let b = (a ^ (a >> 30u64)).wrapping_mul(0xbf58_476d_1ce4_e5b9);
    let c = (b ^ (b >> 27u64)).wrapping_mul(0x94d0_49bb_1331_11eb);
    let d = c ^ (c >> 31u64);
    d % max_ms
}

proof fn lemma_backoff_factor(attempt: nat)
    ensures
        1 <= backoff_factor(attempt) <= 256,
    decreases attempt,
{
    reveal_with_fuel(backoff_factor, 9);
}

fn factor_of(attempt: usize) -> (r: u64)
    ensures
        r == backoff_factor(attempt as nat),
        1 <= r <= 256,
{
    proof {
        reveal_with_fuel(backoff_factor, 10);
        lemma_backoff_factor(attempt as nat);
    }
    if attempt == 0 {
        1
    } else if attempt == 1 {
        2
    } else if attempt == 2 {
        4
    } else if attempt == 3 {
        8
    } else if attempt == 4 {
        16
    } else if attempt == 5 {
        32
    } else if attempt == 6 {
        64
    } else if attempt == 7 {
        128
    } else {
        256
    }
}

/// Milliseconds to wait before the next attempt: doubled each time up to a
/// bound, plus a random part.
pub fn exponential_backoff(attempt: usize, base_ms: u64, max_ms: u64, seed: u64) -> (r: u64)
    ensures
        r == capped_sum(
            backoff_base(attempt as nat, base_ms, max_ms),
            mixed(seed) % JITTER_BOUND_MS,
        ),
{
    let factor = factor_of(attempt);
    proof {
        assert(base_ms * factor <= 0xffff_ffff_ffff_ffff * 256) by (nonlinear_arith)
            requires
                0 <= base_ms <= 0xffff_ffff_ffff_ffff,
                1 <= factor <= 256,
        ;
        assert(base_ms * factor >= 0) by (nonlinear_arith)
            requires
                base_ms >= 0,
                factor >= 1,
        ;
    }
    let grown: u128 = base_ms as u128 * factor as u128;
    let delay: u64 = if grown > max_ms as u128 {
        max_ms
    } else {
        grown as u64
    };
    delay.saturating_add(jitter_millis_for_seed(JITTER_BOUND_MS, seed))
}

/// The wait grows with the attempts, up to its bound and the random part.
pub proof fn lemma_backoff_grows_to_its_bound(attempt: nat, base_ms: u64, max_ms: u64)
    ensures
        backoff_base(attempt, base_ms, max_ms) <= backoff_base(attempt + 1, base_ms, max_ms)
            <= max_ms,
{
    let a = backoff_factor(attempt);
    let b = backoff_factor(attempt + 1);
    lemma_backoff_factor(attempt);
    lemma_backoff_factor(attempt + 1);
    assert(a <= b) by {
        reveal_with_fuel(backoff_factor, 10);
    }
    assert(0 <= base_ms * a <= base_ms * b) by (nonlinear_arith)
        requires
            0 <= a <= b,
            0 <= base_ms,
    ;
}

/// Statuses whose cause may pass.
pub open spec fn is_server_side(status: u16) -> bool {
    500 <= status < 600
}

/// Nanoseconds to wait before trying again; nothing where it is no use.
pub open spec fn retry_wait(attempt: nat, failure: SendFailure, seed: u64) -> Option<u128> {
    let jitter = mixed(seed) % JITTER_BOUND_MS;
    match failure {
        SendFailure::Connection => Some(
            (capped_sum(backoff_base(attempt, 500, 8_000), jitter) * 1_000_000) as u128,
        ),
        SendFailure::Status { status, retry_after_nanos } => if status == 429 {
            match retry_after_nanos {
                Some(nanos) => Some((nanos + jitter * 1_000_000) as u128),
                None => Some(
                    (capped_sum(backoff_base(attempt, 1_000, 15_000), jitter) * 1_000_000) as u128,
                ),
            }
        } else if is_server_side(status) {
            Some((capped_sum(backoff_base(attempt, 500, 8_000), jitter) * 1_000_000) as u128)
        } else {
            None
        },
        SendFailure::Other => None,
    }
}

/// Whether a failed request is worth another attempt, and after how long.
pub fn retry_delay(attempt: usize, failure: SendFailure, seed: u64) -> (r: Option<u128>)
    requires
        failure matches SendFailure::Status { retry_after_nanos: Some(n), .. } ==> n
            <= u64::MAX * 1_000_000_000,
    ensures
        r == retry_wait(attempt as nat, failure, seed),
{
    match failure {
        SendFailure::Connection => Some(
            exponential_backoff(attempt, 500, 8_000, seed) as u128 * 1_000_000,
        ),
        SendFailure::Status { status, retry_after_nanos } => {
            if status == 429 {
                return match retry_after_nanos {
                    Some(nanos) => Some(
                        nanos + jitter_millis_for_seed(JITTER_BOUND_MS, seed) as u128 * 1_000_000,
                    ),
                    None => Some(
                        exponential_backoff(attempt, 1_000, 15_000, seed) as u128 * 1_000_000,
                    ),
                };
            }
            if 500 <= status && status < 600 {
                return Some(exponential_backoff(attempt, 500, 8_000, seed) as u128 * 1_000_000);
            }
            None
        },
        SendFailure::Other => None,
    }
}

/// The attempts of one request.
#[derive(Debug, Clone, Copy, PartialEq, Eq, Structural)]
pub struct SendAttempts {
    pub attempt: usize,
}

impl SendAttempts {
    pub open spec fn wf(&self) -> bool {
        self.attempt <= MAX_RETRIES
    }

    pub fn new() -> (r: Self)
        ensures
            r.wf(),
            r.attempt == 0,
    {
        SendAttempts { attempt: 0 }
    }

    /// How long to wait before the next attempt; nothing where the failure is
    /// final.
    pub fn on_failure(&mut self, failure: SendFailure, seed: u64) -> (wait_nanos: Option<u128>)
        requires
            old(self).wf(),
            failure matches SendFailure::Status { retry_after_nanos: Some(n), .. } ==> n
                <= u64::MAX * 1_000_000_000,
        ensures
            final(self).wf(),
            wait_nanos == (if old(self).attempt < MAX_RETRIES {
                retry_wait(old(self).attempt as nat, failure, seed)
            } else {
                None
            }),
            final(self).attempt == (if wait_nanos is Some {
                old(self).attempt + 1
            } else {
                old(self).attempt as int
            }),
    {
        if self.attempt >= MAX_RETRIES {
            return None;
        }
        let wait = retry_delay(self.attempt, failure, seed);
        if wait.is_some() {
            self.attempt = self.attempt + 1;
        }
        wait
    }
}

// ---------------------------------------------------------------------------
// What uploads keep
// ---------------------------------------------------------------------------
/// As few batches of ten as hold all parts.
pub proof fn lemma_batches_hold_all_parts(parts: nat)
    ensures
        parts <= 10 * batches(parts) < parts + 10,
{
}

/// Each time and each size is added to its own sum, and a request counts once.
pub proof fn lemma_timings_go_to_their_sums(m: Metrics, t: RequestTimings, i: int)
    requires
        0 <= i < 4,
    ensures
        ({
            let took = seq![t.prepare_ms, t.send_ms, t.parse_ms, t.cleanup_ms];
            m.stage_ms(i) + took[i] <= u64::MAX ==> m.plus(t).stage_ms(i) == m.stage_ms(i) + took[i]
        }),
        m.plus(t).stage_ms(i) >= m.stage_ms(i),
        m.payload_bytes + t.payload_bytes <= u64::MAX ==> m.plus(t).payload_bytes
            == m.payload_bytes + t.payload_bytes,
        m.request_count < usize::MAX ==> m.plus(t).request_count == m.request_count + 1,
        Metrics::zero().plus(t).stage_ms(0) == t.prepare_ms,
        Metrics::zero().plus(t).payload_bytes == t.payload_bytes,
        Metrics::zero().request_count == 0,
{
}

/// The stages of an upload are told apart by their names.
pub proof fn lemma_upload_stages_are_told_apart(i: int, j: int)
    requires
        0 <= i < 4,
        0 <= j < 4,
    ensures
        Metrics::stage_name(i) == Metrics::stage_name(j) <==> i == j,
        Metrics::stage_name(0) == "attachment_preparation"@,
        Metrics::stage_name(1) == "http_send"@,
        Metrics::stage_name(2) == "response_parsing"@,
{
    reveal_strlit("attachment_preparation");
    reveal_strlit("http_send");
    reveal_strlit("response_parsing");
    reveal_strlit("post_upload_cleanup");
    assert("attachment_preparation"@.len() == 22);
    assert("http_send"@.len() == 9);
    assert("response_parsing"@.len() == 16);
    assert("post_upload_cleanup"@.len() == 19);
}

/// The parts of a tweet have different names, all with the file's extension,
/// which is MP4's where the file has none.
pub proof fn lemma_parts_have_their_own_names(ext: Seq<char>, tweet: nat, a: nat, b: nat, total: nat)
    ensures
        total > 1 && a != b ==> attachment_name(Some(ext), tweet, a, total) != attachment_name(
            Some(ext),
            tweet,
            b,
            total,
        ),
        total <= 1 ==> attachment_name(Some(ext), tweet, a, total) == attachment_name(
            Some(ext),
            tweet,
            b,
            total,
        ),
        ext.is_suffix_of(attachment_name(Some(ext), tweet, a, total)),
        attachment_name(None, tweet, a, total) == attachment_name(Some("mp4"@), tweet, a, total),
        decimal(tweet) == attachment_name(Some(ext), tweet, a, total).subrange(
            6,
            6 + decimal(tweet).len() as int,
        ),
{
    reveal_strlit("tweet_");
    reveal_strlit("_part");
    reveal_strlit(".");
    lemma_decimal_value(a);
    lemma_decimal_value(b);
    let x = attachment_name(Some(ext), tweet, a, total);
    let y = attachment_name(Some(ext), tweet, b, total);
    let n = 6 + decimal(tweet).len() as int + 5;
    assert(x.subrange(6, 6 + decimal(tweet).len() as int) =~= decimal(tweet));
    assert(x.skip(x.len() - ext.len()) =~= ext);
    if total > 1 && x == y {
        assert(x.subrange(n, x.len() - 1 - ext.len()) =~= decimal(a));
        assert(y.subrange(n, x.len() - 1 - ext.len()) =~= decimal(b));
    }
}

/// Lengths add up.
pub proof fn lemma_lengths_add_up(a: Seq<usize>, b: Seq<usize>)
    ensures
        total_len(a + b) == total_len(a) + total_len(b),
        a.len() == 1 ==> total_len(a) == a[0],
    decreases b.len(),
{
    if b.len() > 0 {
        assert((a + b).drop_last() =~= a + b.drop_last());
        assert((a + b).last() == b.last());
        lemma_lengths_add_up(a, b.drop_last());
    } else {
        assert(a + b =~= a);
    }
    if a.len() == 1 {
        assert(total_len(a.drop_last()) == 0);
    }
}

/// No more files are prepared at once than is configured or than there are, and
/// as many as both allow.
pub proof fn lemma_preparation_uses_its_room(configured: usize, parts: nat)
    ensures
        prepare_limit(configured, parts) <= configured,
        parts > 0 ==> prepare_limit(configured, parts) <= parts,
        prepare_limit(configured, parts) < configured ==> prepare_limit(configured, parts) == (
        if parts == 0 {
            1nat
        } else {
            parts
        }),
{
}

/// The factor doubles with each attempt, eight times.
pub proof fn lemma_wait_doubles(attempt: nat)
    ensures
        backoff_factor(0) == 1,
        attempt < 8 ==> backoff_factor(attempt + 1) == backoff_factor(attempt) + backoff_factor(
            attempt,
        ),
        attempt >= 8 ==> backoff_factor(attempt) == 256,
    decreases attempt,
{
    reveal_with_fuel(backoff_factor, 10);
}

/// A request is sent again only where no answer came, where there were too many
/// requests, or where the server failed. The wait is the one that the server
/// asks for, else one that grows with the attempts from half a second, or from a
/// whole one, up to its bound; less than a quarter of a second comes on top.
pub proof fn lemma_retries_wait_long_enough(attempt: nat, failure: SendFailure, seed: u64)
    requires
        failure matches SendFailure::Status { retry_after_nanos: Some(n), .. } ==> n
            + 250_000_000 <= u128::MAX,
    ensures
        ({
            let wait = retry_wait(attempt, failure, seed);
            let least = |first: int, most: int|
                if first * backoff_factor(attempt) <= most {
                    first * backoff_factor(attempt)
                } else {
                    most
                };
            let about = |ms: int|
                wait is Some && ms * 1_000_000 <= wait->0 < (ms + 250) * 1_000_000;
            match failure {
                SendFailure::Connection => about(least(500, 8_000)),
                SendFailure::Status { status, retry_after_nanos } => {
                    &&& wait is None <==> status != 429 && status / 100 != 5
                    &&& status / 100 == 5 ==> about(least(500, 8_000))
                    &&& status == 429 && retry_after_nanos is None ==> about(least(1_000, 15_000))
                    &&& status == 429 && retry_after_nanos is Some ==> retry_after_nanos->0
                        <= wait->0 < retry_after_nanos->0 + 250_000_000
                },
                SendFailure::Other => wait is None,
            }
        }),
{
    let jitter = mixed(seed) % 250;
    assert(0 <= jitter < 250);
    lemma_backoff_factor(attempt);
}

/// A failed upload tells which part of how many failed, and why.
pub proof fn lemma_failed_uploads_tell_the_part(e: Error, part: int, total: int, cause: Seq<char>)
    requires
        is_upload_failure(e, part, total, cause),
    ensures
        e is UploadFailed,
        e->part == part && e->total == total,
        e->UploadFailed_source@ == cause,
{
}

/// Waits are whole milliseconds beyond what a server asks for.
pub proof fn lemma_waits_are_whole_milliseconds(attempt: nat, seed: u64, nanos: u128, status: u16)
    requires
        nanos + 250_000_000 <= u128::MAX,
    ensures
        retry_wait(attempt, SendFailure::Connection, seed) matches Some(w) && w % 1_000_000 == 0,
        retry_wait(attempt, SendFailure::Status { status, retry_after_nanos: None }, seed) matches Some(
            w,
        ) ==> w % 1_000_000 == 0,
        retry_wait(
            attempt,
            SendFailure::Status { status: 429, retry_after_nanos: Some(nanos) },
            seed,
        ) matches Some(w) && (w - nanos) % 1_000_000 == 0,
{
    let jitter = mixed(seed) % 250;
    assert(0 <= jitter < 250);
    lemma_backoff_factor(attempt);
    let a = capped_sum(backoff_base(attempt, 500, 8_000), jitter);
    let b = capped_sum(backoff_base(attempt, 1_000, 15_000), jitter);
    assert(a <= 10_000 && b <= 20_000);
    assert(a * 1_000_000 % 1_000_000 == 0);
    assert(b * 1_000_000 % 1_000_000 == 0);
    assert(jitter * 1_000_000 % 1_000_000 == 0);
}

} // verus!
