//! The report of a probe run: resolve, download and optimize without upload.
//!
//! A probe leaves metrics and deduplication alone, as no upload completes it.

use crate::config::{FloatBits, HardwareAcceleration};
use crate::engine::TranscodeRuntime;
use crate::media::url::TweetLink;
use crate::pipeline::types::{
    audio_codec_of, container_of_name, video_codec_of, AudioCodec, DownloadedFile, Job,
    MediaContainer, MediaFacts, MediaType, PreparedPart, PreparedUpload, RequestId, ResolvedMedia,
    VideoCodec,
};
use vstd::prelude::*;

verus! {

/// What to probe.
#[derive(Debug)]
pub struct Input {
    pub request_id: RequestId,
    pub scope_id: u64,
    pub job_id: u64,
    pub tweet_url: TweetLink,
}

impl Input {
    pub fn new(request_id: RequestId, scope_id: u64, job_id: u64, tweet_url: TweetLink) -> (r: Self)
        ensures
            r == (Input { request_id, scope_id, job_id, tweet_url }),
    {
        Input { request_id, scope_id, job_id, tweet_url }
    }

    /// The pipeline's job for this input.
    pub fn into_job(self) -> (job: Job)
        ensures
            job == (Job {
                request_id: self.request_id,
                scope_id: self.scope_id,
                job_id: self.job_id,
                tweet_url: self.tweet_url,
            }),
    {
        Job::new(self.request_id, self.scope_id, self.job_id, self.tweet_url)
    }
}

#[derive(Debug, Clone, Copy, PartialEq, Eq, Structural)]
pub struct StageTimings {
    pub resolve_ms: u64,
    pub download_ms: u64,
    pub optimize_ms: u64,
}

#[derive(Debug)]
pub struct Resolved {
    pub url: String,
    pub media_type: &'static str,
    pub extension: String,
    pub duration_secs: Option<FloatBits>,
    pub resolution: Option<(u32, u32)>,
}

#[derive(Debug)]
pub struct Downloaded {
    pub path: String,
    pub size_bytes: u64,
    pub duration_secs: Option<FloatBits>,
    pub resolution: Option<(u32, u32)>,
    pub facts: Facts,
    pub upload_ready_memory_bytes: Option<usize>,
}

#[derive(Debug)]
pub struct Facts {
    pub container: &'static str,
    pub video_codec: &'static str,
    pub audio_codec: &'static str,
    pub bitrate_kbps: Option<u32>,
}

#[derive(Debug)]
pub struct Part {
    pub path: String,
    pub size_bytes: u64,
    pub upload_ready_memory_bytes: Option<usize>,
    pub kept_path: Option<String>,
}

#[derive(Debug)]
pub struct Output {
    pub kind: &'static str,
    pub parts: Vec<Part>,
    pub total_size_bytes: u64,
    pub upload_limit_bytes: u64,
    pub fits_single_upload: bool,
    /// Output size over download size, where there is a download size.
    pub size_ratio_to_download: Option<(u64, u64)>,
}

#[derive(Debug, Clone, Copy)]
pub struct Runtime {
    pub configured_backend: &'static str,
    pub active_backend: &'static str,
    pub software_fallback_active: bool,
    pub fallback_transitions: u64,
    pub hw_encode_count: u64,
    pub sw_encode_count: u64,
    pub hw_avg_duration_ms: u64,
    pub sw_avg_duration_ms: u64,
}

/// Everything a probe found out.
#[derive(Debug)]
pub struct Report {
    pub request_id: u64,
    pub scope_id: u64,
    pub job_id: u64,
    pub tweet_id: u64,
    pub user: String,
    pub canonical_url: String,
    pub elapsed_ms: u64,
    pub stages: StageTimings,
    pub resolved: Resolved,
    pub downloaded: Downloaded,
    pub output: Output,
    pub runtime: Runtime,
}

pub open spec fn media_type_name(value: MediaType) -> Seq<char> {
    match value {
        MediaType::Video => "video"@,
        MediaType::Image => "image"@,
    }
}

fn media_type(value: MediaType) -> (s: &'static str)
    ensures
        s@ == media_type_name(value),
{
    match value {
        MediaType::Video => "video",
        MediaType::Image => "image",
    }
}

pub open spec fn container_name(value: MediaContainer) -> Seq<char> {
    match value {
        MediaContainer::Mp4 => "mp4"@,
        MediaContainer::Mov => "mov"@,
        MediaContainer::Webm => "webm"@,
        MediaContainer::Matroska => "matroska"@,
        MediaContainer::Avi => "avi"@,
        MediaContainer::MpegTs => "mpegts"@,
        MediaContainer::Gif => "gif"@,
        MediaContainer::Unknown => "unknown"@,
    }
}

fn container(value: MediaContainer) -> (s: &'static str)
    ensures
        s@ == container_name(value),
{
    match value {
        MediaContainer::Mp4 => "mp4",
        MediaContainer::Mov => "mov",
        MediaContainer::Webm => "webm",
        MediaContainer::Matroska => "matroska",
        MediaContainer::Avi => "avi",
        MediaContainer::MpegTs => "mpegts",
        MediaContainer::Gif => "gif",
        MediaContainer::Unknown => "unknown",
    }
}

pub open spec fn video_codec_name(value: VideoCodec) -> Seq<char> {
    match value {
        VideoCodec::H264 => "h264"@,
        VideoCodec::H265 => "h265"@,
        VideoCodec::Vp8 => "vp8"@,
        VideoCodec::Vp9 => "vp9"@,
        VideoCodec::Av1 => "av1"@,
        VideoCodec::Other => "other"@,
    }
}

fn video_codec(value: VideoCodec) -> (s: &'static str)
    ensures
        s@ == video_codec_name(value),
{
    match value {
        VideoCodec::H264 => "h264",
        VideoCodec::H265 => "h265",
        VideoCodec::Vp8 => "vp8",
        VideoCodec::Vp9 => "vp9",
        VideoCodec::Av1 => "av1",
        VideoCodec::Other => "other",
    }
}

pub open spec fn audio_codec_name(value: AudioCodec) -> Seq<char> {
    match value {
        AudioCodec::Aac => "aac"@,
        AudioCodec::Opus => "opus"@,
        AudioCodec::Vorbis => "vorbis"@,
        AudioCodec::Mp3 => "mp3"@,
        AudioCodec::Absent => "none"@,
        AudioCodec::Other => "other"@,
    }
}

fn audio_codec(value: AudioCodec) -> (s: &'static str)
    ensures
        s@ == audio_codec_name(value),
{
    match value {
        AudioCodec::Aac => "aac",
        AudioCodec::Opus => "opus",
        AudioCodec::Vorbis => "vorbis",
        AudioCodec::Mp3 => "mp3",
        AudioCodec::Absent => "none",
        AudioCodec::Other => "other",
    }
}

pub open spec fn bytes_held(bytes: Option<Vec<u8>>) -> Option<nat> {
    match bytes {
        Some(b) => Some(b@.len()),
        None => None,
    }
}

pub open spec fn counted(n: Option<usize>) -> Option<nat> {
    match n {
        Some(v) => Some(v as nat),
        None => None,
    }
}

impl Resolved {
    pub fn from_media(value: &ResolvedMedia) -> (r: Self)
        ensures
            r.url@ == value.url@,
            r.media_type@ == media_type_name(value.media_type),
            r.extension@ == value.extension@,
            r.duration_secs == value.duration,
            r.resolution == value.resolution,
    {
        Resolved {
            url: value.url.clone(),
            media_type: media_type(value.media_type),
            extension: value.extension.clone(),
            duration_secs: value.duration,
            resolution: value.resolution,
        }
    }
}

impl Facts {
    pub open spec fn describe(&self, value: MediaFacts) -> bool {
        &&& self.container@ == container_name(value.container)
        &&& self.video_codec@ == video_codec_name(value.video_codec)
        &&& self.audio_codec@ == audio_codec_name(value.audio_codec)
        &&& self.bitrate_kbps == value.bitrate_kbps
    }

    pub fn from_facts(value: MediaFacts) -> (r: Self)
        ensures
            r.describe(value),
    {
        Facts {
            container: container(value.container),
            video_codec: video_codec(value.video_codec),
            audio_codec: audio_codec(value.audio_codec),
            bitrate_kbps: value.bitrate_kbps,
        }
    }
}

impl Downloaded {
    pub fn from_file(value: &DownloadedFile) -> (r: Self)
        ensures
            r.path@ == value.path@,
            r.size_bytes == value.size,
            r.duration_secs == value.duration,
            r.resolution == value.resolution,
            r.facts.describe(value.facts),
            counted(r.upload_ready_memory_bytes) == bytes_held(value.upload_ready_bytes),
    {
        Downloaded {
            path: value.path.clone(),
            size_bytes: value.size,
            duration_secs: value.duration,
            resolution: value.resolution,
            facts: Facts::from_facts(value.facts),
            upload_ready_memory_bytes: match &value.upload_ready_bytes {
                Some(bytes) => Some(bytes.len()),
                None => None,
            },
        }
    }
}

impl Part {
    pub open spec fn describes(&self, value: PreparedPart) -> bool {
        &&& self.path@ == value.path@
        &&& self.size_bytes == value.size
        &&& counted(self.upload_ready_memory_bytes) == bytes_held(value.upload_ready_bytes)
        &&& self.kept_path is None
    }

    pub fn from_part(value: &PreparedPart) -> (r: Self)
        ensures
            r.describes(*value),
    {
        Part {
            path: value.path.clone(),
            size_bytes: value.size,
            upload_ready_memory_bytes: match &value.upload_ready_bytes {
                Some(bytes) => Some(bytes.len()),
                None => None,
            },
            kept_path: None,
        }
    }
}

/// The bytes of the first `n` parts together.
pub open spec fn total_size(parts: Seq<PreparedPart>, n: int) -> nat
    decreases n,
{
    if n <= 0 {
        0
    } else {
        total_size(parts, n - 1) + parts[n - 1].size as nat
    }
}

proof fn lemma_total_size_grows(parts: Seq<PreparedPart>, m: int, n: int)
    requires
        0 <= m <= n,
    ensures
        total_size(parts, m) <= total_size(parts, n),
    decreases n - m,
{
    if m < n {
        lemma_total_size_grows(parts, m, n - 1);
    }
}

/// Two numbers to divide; nothing where the second is zero.
pub fn ratio(numerator: u64, denominator: u64) -> (r: Option<(u64, u64)>)
    ensures
        r == (if denominator == 0 {
            None
        } else {
            Some((numerator, denominator))
        }),
{
    if denominator == 0 {
        None
    } else {
        Some((numerator, denominator))
    }
}

fn part_reports(parts: &[PreparedPart]) -> (r: (Vec<Part>, u64))
    requires
        total_size(parts@, parts@.len() as int) <= u64::MAX,
    ensures
        r.0@.len() == parts@.len(),
        forall|i: int| 0 <= i < parts@.len() ==> (#[trigger] r.0@[i]).describes(parts@[i]),
        r.1 == total_size(parts@, parts@.len() as int),
{
    let mut reports: Vec<Part> = Vec::new();
    let mut total: u64 = 0;
    let mut i: usize = 0;
    while i < parts.len()
        invariant
            i <= parts@.len(),
            reports@.len() == i,
            forall|j: int| 0 <= j < i ==> (#[trigger] reports@[j]).describes(parts@[j]),
            total == total_size(parts@, i as int),
            total_size(parts@, parts@.len() as int) <= u64::MAX,
        decreases parts@.len() - i,
    {
        proof {
            lemma_total_size_grows(parts@, i + 1, parts@.len() as int);
        }
        reports.push(Part::from_part(&parts[i]));
        total = total + parts[i].size;
        i = i + 1;
    }
    (reports, total)
}

impl Output {
    /// Describe the prepared files against the upload limit.
    pub fn from_prepared(prepared: &PreparedUpload, downloaded_size: u64, upload_limit: u64) -> (r:
        Self)
        requires
            total_size(prepared.parts_view(), prepared.parts_view().len() as int) <= u64::MAX,
        ensures
            r.kind@ == (match *prepared {
                PreparedUpload::Single { .. } => "single"@,
                PreparedUpload::Split { .. } => "split"@,
            }),
            r.parts@.len() == prepared.parts_view().len(),
            forall|i: int|
                0 <= i < r.parts@.len() ==> (#[trigger] r.parts@[i]).describes(
                    prepared.parts_view()[i],
                ),
            r.total_size_bytes == total_size(
                prepared.parts_view(),
                prepared.parts_view().len() as int,
            ),
            r.upload_limit_bytes == upload_limit,
            r.fits_single_upload == (r.total_size_bytes <= upload_limit),
            r.size_ratio_to_download == (if downloaded_size == 0 {
                None
            } else {
                Some((r.total_size_bytes, downloaded_size))
            }),
    {
        let (kind, (parts, total)) = match prepared {
            PreparedUpload::Single { part } => {
                let mut parts: Vec<Part> = Vec::new();
                parts.push(Part::from_part(part));
                proof {
                    reveal_with_fuel(total_size, 2);
                }
                ("single", (parts, part.size))
            },
            PreparedUpload::Split { parts } => ("split", part_reports(parts.as_slice())),
        };
        Output {
            kind,
            parts,
            total_size_bytes: total,
            upload_limit_bytes: upload_limit,
            fits_single_upload: total <= upload_limit,
            size_ratio_to_download: ratio(total, downloaded_size),
        }
    }
}

impl Runtime {
    pub fn from_runtime(value: &TranscodeRuntime) -> (r: Self)
        ensures
            r.configured_backend@ == value.configured.config_name(),
            r.active_backend@ == value.active.config_name(),
            r.software_fallback_active == (value.configured != HardwareAcceleration::Software
                && value.active == HardwareAcceleration::Software),
            r.fallback_transitions == value.transitions,
            r.hw_encode_count == value.hw_encodes.count,
            r.sw_encode_count == value.sw_encodes.count,
            r.hw_avg_duration_ms == (if value.hw_encodes.count == 0 {
                0
            } else {
                value.hw_encodes.total_ms / value.hw_encodes.count
            }),
            r.sw_avg_duration_ms == (if value.sw_encodes.count == 0 {
                0
            } else {
                value.sw_encodes.total_ms / value.sw_encodes.count
            }),
    {
        Runtime {
            configured_backend: value.configured.as_str(),
            active_backend: value.active.as_str(),
            software_fallback_active: value.software_fallback_active(),
            fallback_transitions: value.transitions,
            hw_encode_count: value.hw_encodes.count,
            sw_encode_count: value.sw_encodes.count,
            hw_avg_duration_ms: value.hw_encodes.average_ms(),
            sw_avg_duration_ms: value.sw_encodes.average_ms(),
        }
    }
}

impl Report {
    /// Put the parts of a report together.
    pub fn assemble(
        job: &Job,
        elapsed_ms: u64,
        stages: StageTimings,
        resolved: Resolved,
        downloaded: Downloaded,
        output: Output,
        runtime: Runtime,
    ) -> (r: Self)
        ensures
            r.request_id == job.request_id.0,
            r.scope_id == job.scope_id,
            r.job_id == job.job_id,
            r.tweet_id == job.tweet_url.tweet_id.0,
            r.user@ == job.tweet_url.user@,
            r.canonical_url@ == job.tweet_url.canonical_url@,
            r.elapsed_ms == elapsed_ms,
            r.stages == stages,
            r.resolved == resolved,
            r.downloaded == downloaded,
            r.output == output,
            r.runtime == runtime,
    {
        Report {
            request_id: job.request_id.0,
            scope_id: job.scope_id,
            job_id: job.job_id,
            tweet_id: job.tweet_url.tweet_id.0,
            user: job.tweet_url.user.clone(),
            canonical_url: job.tweet_url.canonical_url.clone(),
            elapsed_ms,
            stages,
            resolved,
            downloaded,
            output,
            runtime,
        }
    }
}

// ---------------------------------------------------------------------------
// Names read back
// ---------------------------------------------------------------------------
/// A reported container or codec, read as ffprobe's own name, is that container
/// or codec again; H.265 has a second name there.
pub proof fn lemma_reported_names_read_back(
    container: MediaContainer,
    video: VideoCodec,
    audio: AudioCodec,
)
    ensures
        container_of_name(container_name(container)) == (if container == MediaContainer::Unknown {
            None
        } else {
            Some(container)
        }),
        video_codec_of(video_codec_name(video)) == video,
        video_codec_of("hevc"@) == VideoCodec::H265,
        audio != AudioCodec::Absent ==> audio_codec_of(audio_codec_name(audio)) == audio,
        audio_codec_name(audio) == "none"@ <==> audio == AudioCodec::Absent,
        media_type_name(MediaType::Video) == "video"@,
        media_type_name(MediaType::Image) == "image"@,
{
    reveal_strlit("mp4");
    reveal_strlit("mov");
    reveal_strlit("webm");
    reveal_strlit("matroska");
    reveal_strlit("avi");
    reveal_strlit("mpegts");
    reveal_strlit("gif");
    reveal_strlit("unknown");
    reveal_strlit("m4a");
    reveal_strlit("3gp");
    reveal_strlit("3g2");
    reveal_strlit("mj2");
    reveal_strlit("h264");
    reveal_strlit("h265");
    reveal_strlit("hevc");
    reveal_strlit("vp8");
    reveal_strlit("vp9");
    reveal_strlit("av1");
    reveal_strlit("other");
    reveal_strlit("aac");
    reveal_strlit("opus");
    reveal_strlit("vorbis");
    reveal_strlit("mp3");
    reveal_strlit("none");
    reveal_strlit("video");
    reveal_strlit("image");
    assert("mp4"@.len() == 3);
    assert("mov"@.len() == 3);
    assert("webm"@.len() == 4);
    assert("matroska"@.len() == 8);
    assert("avi"@.len() == 3);
    assert("mpegts"@.len() == 6);
    assert("gif"@.len() == 3);
    assert("unknown"@.len() == 7);
    assert("m4a"@.len() == 3);
    assert("3gp"@.len() == 3);
    assert("3g2"@.len() == 3);
    assert("mj2"@.len() == 3);
    assert("h264"@.len() == 4);
    assert("h265"@.len() == 4);
    assert("hevc"@.len() == 4);
    assert("vp8"@.len() == 3);
    assert("vp9"@.len() == 3);
    assert("av1"@.len() == 3);
    assert("other"@.len() == 5);
    assert("aac"@.len() == 3);
    assert("opus"@.len() == 4);
    assert("vorbis"@.len() == 6);
    assert("mp3"@.len() == 3);
    assert("none"@.len() == 4);
    assert("video"@.len() == 5);
    assert("image"@.len() == 5);
    assert("mp4"@[1] != "mov"@[1]);
    assert("mp4"@[0] != "avi"@[0]);
    assert("mp4"@[0] != "gif"@[0]);
    assert("mp4"@[1] != "m4a"@[1]);
    assert("mp4"@[0] != "3gp"@[0]);
    assert("mp4"@[0] != "3g2"@[0]);
    assert("mp4"@[1] != "mj2"@[1]);
    assert("mp4"@[0] != "vp8"@[0]);
    assert("mp4"@[0] != "vp9"@[0]);
    assert("mp4"@[0] != "av1"@[0]);
    assert("mp4"@[0] != "aac"@[0]);
    assert("mp4"@[2] != "mp3"@[2]);
    assert("mov"@[0] != "avi"@[0]);
    assert("mov"@[0] != "gif"@[0]);
    assert("mov"@[1] != "m4a"@[1]);
    assert("mov"@[0] != "3gp"@[0]);
    assert("mov"@[0] != "3g2"@[0]);
    assert("mov"@[1] != "mj2"@[1]);
    assert("mov"@[0] != "vp8"@[0]);
    assert("mov"@[0] != "vp9"@[0]);
    assert("mov"@[0] != "av1"@[0]);
    assert("mov"@[0] != "aac"@[0]);
    assert("mov"@[1] != "mp3"@[1]);
    assert("webm"@[0] != "h264"@[0]);
    assert("webm"@[0] != "h265"@[0]);
    assert("webm"@[0] != "hevc"@[0]);
    assert("webm"@[0] != "opus"@[0]);
    assert("webm"@[0] != "none"@[0]);
    assert("avi"@[0] != "gif"@[0]);
    assert("avi"@[0] != "m4a"@[0]);
    assert("avi"@[0] != "3gp"@[0]);
    assert("avi"@[0] != "3g2"@[0]);
    assert("avi"@[0] != "mj2"@[0]);
    assert("avi"@[0] != "vp8"@[0]);
    assert("avi"@[0] != "vp9"@[0]);
    assert("avi"@[2] != "av1"@[2]);
    assert("avi"@[1] != "aac"@[1]);
    assert("avi"@[0] != "mp3"@[0]);
    assert("mpegts"@[0] != "vorbis"@[0]);
    assert("gif"@[0] != "m4a"@[0]);
    assert("gif"@[0] != "3gp"@[0]);
    assert("gif"@[0] != "3g2"@[0]);
    assert("gif"@[0] != "mj2"@[0]);
    assert("gif"@[0] != "vp8"@[0]);
    assert("gif"@[0] != "vp9"@[0]);
    assert("gif"@[0] != "av1"@[0]);
    assert("gif"@[0] != "aac"@[0]);
    assert("gif"@[0] != "mp3"@[0]);
    assert("m4a"@[0] != "3gp"@[0]);
    assert("m4a"@[0] != "3g2"@[0]);
    assert("m4a"@[1] != "mj2"@[1]);
    assert("m4a"@[0] != "vp8"@[0]);
    assert("m4a"@[0] != "vp9"@[0]);
    assert("m4a"@[0] != "av1"@[0]);
    assert("m4a"@[0] != "aac"@[0]);
    assert("m4a"@[1] != "mp3"@[1]);
    assert("3gp"@[2] != "3g2"@[2]);
    assert("3gp"@[0] != "mj2"@[0]);
    assert("3gp"@[0] != "vp8"@[0]);
    assert("3gp"@[0] != "vp9"@[0]);
    assert("3gp"@[0] != "av1"@[0]);
    assert("3gp"@[0] != "aac"@[0]);
    assert("3gp"@[0] != "mp3"@[0]);
    assert("3g2"@[0] != "mj2"@[0]);
    assert("3g2"@[0] != "vp8"@[0]);
    assert("3g2"@[0] != "vp9"@[0]);
    assert("3g2"@[0] != "av1"@[0]);
    assert("3g2"@[0] != "aac"@[0]);
    assert("3g2"@[0] != "mp3"@[0]);
    assert("mj2"@[0] != "vp8"@[0]);
    assert("mj2"@[0] != "vp9"@[0]);
    assert("mj2"@[0] != "av1"@[0]);
    assert("mj2"@[0] != "aac"@[0]);
    assert("mj2"@[1] != "mp3"@[1]);
    assert("h264"@[3] != "h265"@[3]);
    assert("h264"@[1] != "hevc"@[1]);
    assert("h264"@[0] != "opus"@[0]);
    assert("h264"@[0] != "none"@[0]);
    assert("h265"@[1] != "hevc"@[1]);
    assert("h265"@[0] != "opus"@[0]);
    assert("h265"@[0] != "none"@[0]);
    assert("hevc"@[0] != "opus"@[0]);
    assert("hevc"@[0] != "none"@[0]);
    assert("vp8"@[2] != "vp9"@[2]);
    assert("vp8"@[0] != "av1"@[0]);
    assert("vp8"@[0] != "aac"@[0]);
    assert("vp8"@[0] != "mp3"@[0]);
    assert("vp9"@[0] != "av1"@[0]);
    assert("vp9"@[0] != "aac"@[0]);
    assert("vp9"@[0] != "mp3"@[0]);
    assert("av1"@[1] != "aac"@[1]);
    assert("av1"@[0] != "mp3"@[0]);
    assert("other"@[0] != "video"@[0]);
    assert("other"@[0] != "image"@[0]);
    assert("aac"@[0] != "mp3"@[0]);
    assert("opus"@[0] != "none"@[0]);
    assert("video"@[0] != "image"@[0]);
}

/// A name that is read is the reported one, or one of the few others of the same
/// meaning.
pub proof fn lemma_read_names_are_the_reported_ones(name: Seq<char>)
    ensures
        container_of_name(name) matches Some(c) ==> c != MediaContainer::Unknown && (name
            == container_name(c) || (c == MediaContainer::Mp4 && (name == "m4a"@ || name == "3gp"@
            || name == "3g2"@ || name == "mj2"@))),
        video_codec_of(name) == VideoCodec::Other || name == video_codec_name(video_codec_of(name))
            || name == "hevc"@,
        audio_codec_of(name) == AudioCodec::Other || name == audio_codec_name(audio_codec_of(name)),
{
}

/// The size of an upload is the sum of its parts, and each part counts.
pub proof fn lemma_parts_add_up(parts: Seq<PreparedPart>, more: PreparedPart, n: int)
    requires
        0 <= n <= parts.len(),
    ensures
        total_size(parts.push(more), n) == total_size(parts, n),
        n == parts.len() ==> total_size(parts.push(more), n + 1) == total_size(parts, n)
            + more.size,
        total_size(Seq::empty(), 0) == 0,
    decreases n,
{
    if n > 0 {
        lemma_parts_add_up(parts, more, n - 1);
        assert(parts.push(more)[n - 1] == parts[n - 1]);
    }
    let all = parts.push(more);
    assert(all[parts.len() as int] == more);
    assert(total_size(all, n + 1) == total_size(all, n) + all[n].size as nat);
}

/// A report tells each fact of a file as it is.
pub proof fn lemma_reports_tell_facts_as_they_are(
    facts: Facts,
    value: MediaFacts,
    part: Part,
    prepared: PreparedPart,
)
    ensures
        facts.describe(value) ==> {
            &&& value.container != MediaContainer::Unknown ==> container_of_name(facts.container@)
                == Some(value.container)
            &&& video_codec_of(facts.video_codec@) == value.video_codec
            &&& value.audio_codec != AudioCodec::Absent ==> audio_codec_of(facts.audio_codec@)
                == value.audio_codec
            &&& facts.bitrate_kbps == value.bitrate_kbps
        },
        part.describes(prepared) ==> part.path@ == prepared.path@ && part.size_bytes == prepared.size
            && part.kept_path is None && (part.upload_ready_memory_bytes is Some
            <==> prepared.upload_ready_bytes is Some) && (
        prepared.upload_ready_bytes matches Some(bytes) ==> part.upload_ready_memory_bytes->0
            == bytes@.len()),
{
    lemma_reported_names_read_back(value.container, value.video_codec, value.audio_codec);
}

} // verus!
