//! Data that the resolve, download and optimize stages hand on.

use crate::config::FloatBits;
use crate::media::url::TweetLink;
use crate::text::{
    before_any, before_any_of, chars_of, decimal, decimal_of, is_digit, is_lower, is_white,
    is_word, lemma_ends_before_stop, lemma_leading_char_left_out, lower, lower_chars, same, split,
    split_str, string_of, trim, trim_chars, trim_start_char, trim_start_char_of, trim_str, views,
};
use vstd::prelude::*;
use vstd::string::StringExecFns;

verus! {

/// Identifier that ties the log lines of one job together.
#[derive(Debug, Clone, Copy, PartialEq, Eq, Hash, Structural)]
pub struct RequestId(pub u64);

/// Input to the pipeline.
#[derive(Debug)]
pub struct Job {
    pub request_id: RequestId,
    pub scope_id: u64,
    pub job_id: u64,
    pub tweet_url: TweetLink,
}

impl Job {
    /// Build a job from its caller's identifiers and a parsed link.
    pub fn new(request_id: RequestId, scope_id: u64, job_id: u64, tweet_url: TweetLink) -> (job:
        Self)
        ensures
            job == (Job { request_id, scope_id, job_id, tweet_url }),
    {
        Job { request_id, scope_id, job_id, tweet_url }
    }
}

#[derive(Debug, Clone, Copy, PartialEq, Eq, Structural)]
pub enum MediaType {
    Video,
    Image,
}

// ---------------------------------------------------------------------------
// Extensions
// ---------------------------------------------------------------------------
/// The extensions that files may be written with.
pub open spec fn is_allowed_extension(ext: Seq<char>) -> bool {
    ||| ext == "mp4"@
    ||| ext == "webm"@
    ||| ext == "mov"@
    ||| ext == "mkv"@
    ||| ext == "avi"@
    ||| ext == "ts"@
    ||| ext == "gif"@
    ||| ext == "jpg"@
    ||| ext == "jpeg"@
    ||| ext == "png"@
    ||| ext == "webp"@
}

/// The characters that end an extension.
pub open spec fn extension_stops() -> Seq<char> {
    seq!['/', '\\', '?', '#']
}

/// What is left of a raw extension: trimmed, without leading dots, up to the
/// first path or query character, in lower case.
pub open spec fn extension_candidate(ext: Seq<char>) -> Seq<char> {
    lower(before_any(trim_start_char(trim(ext), '.'), extension_stops()))
}

/// The safe extension for a raw one.
pub open spec fn safe_extension(ext: Seq<char>) -> Seq<char> {
    let candidate = extension_candidate(ext);
    if is_allowed_extension(candidate) {
        candidate
    } else {
        "mp4"@
    }
}

fn has_allowed_extension(ext: &str) -> (r: bool)
    ensures
        r == is_allowed_extension(ext@),
{
    same(ext, "mp4") || same(ext, "webm") || same(ext, "mov") || same(ext, "mkv") || same(
        ext,
        "avi",
    ) || same(ext, "ts") || same(ext, "gif") || same(ext, "jpg") || same(ext, "jpeg") || same(
        ext,
        "png",
    ) || same(ext, "webp")
}

/// Normalize an extension and restrict it to the known-safe ones.
pub fn sanitize_extension(ext: &str) -> (r: String)
    ensures
        r@ == safe_extension(ext@),
        is_allowed_extension(r@),
{
    let stops: [char; 4] = ['/', '\\', '?', '#'];
    assert(stops@ =~= extension_stops());
    let v = chars_of(ext);
    let v = trim_chars(&v);
    let v = trim_start_char_of(&v, '.');
    let v = before_any_of(&v, &stops);
    let candidate = string_of(&lower_chars(&v));
    if has_allowed_extension(candidate.as_str()) {
        candidate
    } else {
        "mp4".to_owned()
    }
}

/// A safe extension is nonempty and made of lower-case letters and digits, so
/// it can neither leave a directory nor name one.
pub proof fn lemma_safe_extension_is_plain(ext: Seq<char>)
    ensures
        is_allowed_extension(safe_extension(ext)),
        safe_extension(ext).len() > 0,
        forall|i: int|
            0 <= i < safe_extension(ext).len() ==> is_lower(#[trigger] safe_extension(ext)[i])
                || is_digit(safe_extension(ext)[i]),
{
    reveal_strlit("mp4");
    reveal_strlit("webm");
    reveal_strlit("mov");
    reveal_strlit("mkv");
    reveal_strlit("avi");
    reveal_strlit("ts");
    reveal_strlit("gif");
    reveal_strlit("jpg");
    reveal_strlit("jpeg");
    reveal_strlit("png");
    reveal_strlit("webp");
}

// ---------------------------------------------------------------------------
// Containers and codecs
// ---------------------------------------------------------------------------
/// Container identity.
#[derive(Debug, Clone, Copy, PartialEq, Eq, Structural)]
pub enum MediaContainer {
    Mp4,
    Mov,
    Webm,
    Matroska,
    Avi,
    MpegTs,
    Gif,
    Unknown,
}

impl Default for MediaContainer {
    fn default() -> (r: Self)
        ensures
            r == MediaContainer::Unknown,
    {
        MediaContainer::Unknown
    }
}

/// The container that a safe extension stands for.
pub open spec fn container_of_extension(ext: Seq<char>) -> MediaContainer {
    let e = safe_extension(ext);
    if e == "mp4"@ {
        MediaContainer::Mp4
    } else if e == "mov"@ {
        MediaContainer::Mov
    } else if e == "webm"@ {
        MediaContainer::Webm
    } else if e == "mkv"@ {
        MediaContainer::Matroska
    } else if e == "avi"@ {
        MediaContainer::Avi
    } else if e == "ts"@ {
        MediaContainer::MpegTs
    } else if e == "gif"@ {
        MediaContainer::Gif
    } else {
        MediaContainer::Unknown
    }
}

/// The container that one ffprobe format name stands for.
pub open spec fn container_of_name(name: Seq<char>) -> Option<MediaContainer> {
    if name == "mp4"@ || name == "m4a"@ || name == "3gp"@ || name == "3g2"@ || name == "mj2"@ {
        Some(MediaContainer::Mp4)
    } else if name == "mov"@ {
        Some(MediaContainer::Mov)
    } else if name == "webm"@ {
        Some(MediaContainer::Webm)
    } else if name == "matroska"@ {
        Some(MediaContainer::Matroska)
    } else if name == "avi"@ {
        Some(MediaContainer::Avi)
    } else if name == "mpegts"@ {
        Some(MediaContainer::MpegTs)
    } else if name == "gif"@ {
        Some(MediaContainer::Gif)
    } else {
        None
    }
}

/// The container of the first known name in a list.
pub open spec fn container_of_names(names: Seq<Seq<char>>) -> MediaContainer
    decreases names.len(),
{
    if names.len() == 0 {
        MediaContainer::Unknown
    } else {
        match container_of_name(trim(names[0])) {
            Some(c) => c,
            None => container_of_names(names.skip(1)),
        }
    }
}

fn named_container(name: &str) -> (r: Option<MediaContainer>)
    ensures
        r == container_of_name(name@),
{
    if same(name, "mp4") || same(name, "m4a") || same(name, "3gp") || same(name, "3g2") || same(
        name,
        "mj2",
    ) {
        Some(MediaContainer::Mp4)
    } else if same(name, "mov") {
        Some(MediaContainer::Mov)
    } else if same(name, "webm") {
        Some(MediaContainer::Webm)
    } else if same(name, "matroska") {
        Some(MediaContainer::Matroska)
    } else if same(name, "avi") {
        Some(MediaContainer::Avi)
    } else if same(name, "mpegts") {
        Some(MediaContainer::MpegTs)
    } else if same(name, "gif") {
        Some(MediaContainer::Gif)
    } else {
        None
    }
}

impl MediaContainer {
    pub fn from_extension(ext: &str) -> (r: Self)
        ensures
            r == container_of_extension(ext@),
    {
        let e = sanitize_extension(ext);
        let e = e.as_str();
        if same(e, "mp4") {
            MediaContainer::Mp4
        } else if same(e, "mov") {
            MediaContainer::Mov
        } else if same(e, "webm") {
            MediaContainer::Webm
        } else if same(e, "mkv") {
            MediaContainer::Matroska
        } else if same(e, "avi") {
            MediaContainer::Avi
        } else if same(e, "ts") {
            MediaContainer::MpegTs
        } else if same(e, "gif") {
            MediaContainer::Gif
        } else {
            MediaContainer::Unknown
        }
    }

    /// The first name that is known decides; ffprobe lists several.
    pub fn from_ffprobe_name(format_name: &str) -> (r: Self)
        ensures
            r == container_of_names(split(format_name@, ',')),
    {
        let names = split_str(format_name, ',');
        let ghost all = views(names@);
        let mut i: usize = 0;
        assert(all.skip(0) =~= all);
        while i < names.len()
            invariant
                i <= names@.len(),
                all == views(names@),
                all == split(format_name@, ','),
                container_of_names(all) == container_of_names(all.skip(i as int)),
            decreases names@.len() - i,
        {
            let name = trim_str(names[i].as_str());
            assert(all.skip(i as int)[0] == names@[i as int]@);
            assert(all.skip(i as int).skip(1) =~= all.skip(i + 1));
            if let Some(container) = named_container(name.as_str()) {
                return container;
            }
            i = i + 1;
        }
        MediaContainer::Unknown
    }

    pub fn is_mp4_family(self) -> (r: bool)
        ensures
            r == (self == MediaContainer::Mp4 || self == MediaContainer::Mov),
    {
        match self {
            MediaContainer::Mp4 | MediaContainer::Mov => true,
            _ => false,
        }
    }
}

/// Video codec identity.
#[derive(Debug, Clone, Copy, PartialEq, Eq, Structural)]
pub enum VideoCodec {
    H264,
    H265,
    Vp8,
    Vp9,
    Av1,
    Other,
}

impl Default for VideoCodec {
    fn default() -> (r: Self)
        ensures
            r == VideoCodec::Other,
    {
        VideoCodec::Other
    }
}

pub open spec fn video_codec_of(name: Seq<char>) -> VideoCodec {
    if name == "h264"@ {
        VideoCodec::H264
    } else if name == "hevc"@ || name == "h265"@ {
        VideoCodec::H265
    } else if name == "vp8"@ {
        VideoCodec::Vp8
    } else if name == "vp9"@ {
        VideoCodec::Vp9
    } else if name == "av1"@ {
        VideoCodec::Av1
    } else {
        VideoCodec::Other
    }
}

impl VideoCodec {
    pub fn from_ffprobe_name(codec_name: &str) -> (r: Self)
        ensures
            r == video_codec_of(codec_name@),
    {
        if same(codec_name, "h264") {
            VideoCodec::H264
        } else if same(codec_name, "hevc") || same(codec_name, "h265") {
            VideoCodec::H265
        } else if same(codec_name, "vp8") {
            VideoCodec::Vp8
        } else if same(codec_name, "vp9") {
            VideoCodec::Vp9
        } else if same(codec_name, "av1") {
            VideoCodec::Av1
        } else {
            VideoCodec::Other
        }
    }
}

/// Audio codec identity; `Absent` is a file without sound.
#[derive(Debug, Clone, Copy, PartialEq, Eq, Structural)]
pub enum AudioCodec {
    Aac,
    Opus,
    Vorbis,
    Mp3,
    Absent,
    Other,
}

impl Default for AudioCodec {
    fn default() -> (r: Self)
        ensures
            r == AudioCodec::Other,
    {
        AudioCodec::Other
    }
}

pub open spec fn audio_codec_of(name: Seq<char>) -> AudioCodec {
    if name == "aac"@ {
        AudioCodec::Aac
    } else if name == "opus"@ {
        AudioCodec::Opus
    } else if name == "vorbis"@ {
        AudioCodec::Vorbis
    } else if name == "mp3"@ {
        AudioCodec::Mp3
    } else {
        AudioCodec::Other
    }
}

impl AudioCodec {
    pub fn from_ffprobe_name(codec_name: &str) -> (r: Self)
        ensures
            r == audio_codec_of(codec_name@),
    {
        if same(codec_name, "aac") {
            AudioCodec::Aac
        } else if same(codec_name, "opus") {
            AudioCodec::Opus
        } else if same(codec_name, "vorbis") {
            AudioCodec::Vorbis
        } else if same(codec_name, "mp3") {
            AudioCodec::Mp3
        } else {
            AudioCodec::Other
        }
    }
}

/// Probe facts that the optimization strategies share.
#[derive(Debug, Clone, Copy, PartialEq, Eq, Structural)]
pub struct MediaFacts {
    pub container: MediaContainer,
    pub video_codec: VideoCodec,
    pub audio_codec: AudioCodec,
    pub bitrate_kbps: Option<u32>,
}

impl Default for MediaFacts {
    fn default() -> (r: Self)
        ensures
            r.container == MediaContainer::Unknown,
            r.video_codec == VideoCodec::Other,
            r.audio_codec == AudioCodec::Other,
            r.bitrate_kbps is None,
    {
        MediaFacts {
            container: MediaContainer::default(),
            video_codec: VideoCodec::default(),
            audio_codec: AudioCodec::default(),
            bitrate_kbps: None,
        }
    }
}

impl MediaFacts {
    /// Only the container is known from an extension.
    pub fn from_extension(ext: &str) -> (r: Self)
        ensures
            r.container == container_of_extension(ext@),
            r.video_codec == VideoCodec::Other,
            r.audio_codec == AudioCodec::Other,
            r.bitrate_kbps is None,
    {
        MediaFacts {
            container: MediaContainer::from_extension(ext),
            video_codec: VideoCodec::default(),
            audio_codec: AudioCodec::default(),
            bitrate_kbps: None,
        }
    }
}

// ---------------------------------------------------------------------------
// Progress
// ---------------------------------------------------------------------------
/// Stages of pipeline processing, for status updates.
#[derive(Debug, Clone, Copy, PartialEq, Eq, Structural)]
pub enum Progress {
    Resolving,
    Downloading,
    Optimizing,
    Transcoding(usize, usize),
    Uploading,
    UploadingSegment(usize, usize),
}

impl Progress {
    /// The status text of a stage.
    pub open spec fn text(self) -> Seq<char> {
        match self {
            Progress::Resolving => "Resolving metadata..."@,
            Progress::Downloading => "Downloading media..."@,
            Progress::Optimizing => "Processing media..."@,
            Progress::Transcoding(done, total) => "Transcoding segments ("@ + decimal(done as nat)
                + "/"@ + decimal(total as nat) + ")"@,
            Progress::Uploading => "Uploading..."@,
            Progress::UploadingSegment(done, total) => "Uploading segment "@ + decimal(done as nat)
                + "/"@ + decimal(total as nat) + "..."@,
        }
    }

    /// Status text shown to users.
    pub fn message(&self) -> (s: String)
        ensures
            s@ == self.text(),
    {
        match *self {
            Progress::Resolving => "Resolving metadata...".to_owned(),
            Progress::Downloading => "Downloading media...".to_owned(),
            Progress::Optimizing => "Processing media...".to_owned(),
            Progress::Transcoding(done, total) => {
                let mut s = "Transcoding segments (".to_owned();
                s.append(decimal_of(done as u64).as_str());
                s.append("/");
                s.append(decimal_of(total as u64).as_str());
                s.append(")");
                s
            },
            Progress::Uploading => "Uploading...".to_owned(),
            Progress::UploadingSegment(done, total) => {
                let mut s = "Uploading segment ".to_owned();
                s.append(decimal_of(done as u64).as_str());
                s.append("/");
                s.append(decimal_of(total as u64).as_str());
                s.append("...");
                s
            },
        }
    }

    /// Transcoding that is under way: some segments are still to be done.
    pub fn is_inflight_transcoding(&self) -> (r: bool)
        ensures
            r == (*self matches Progress::Transcoding(done, total) && done < total),
    {
        match *self {
            Progress::Transcoding(done, total) => done < total,
            _ => false,
        }
    }

    /// Transcoding whose segments are all done.
    pub fn is_terminal_transcoding(&self) -> (r: bool)
        ensures
            r == (*self matches Progress::Transcoding(done, total) && done >= total),
    {
        match *self {
            Progress::Transcoding(done, total) => done >= total,
            _ => false,
        }
    }
}

// ---------------------------------------------------------------------------
// Stage outputs
// ---------------------------------------------------------------------------
/// Output of the resolve stage. A duration is held by its bits.
#[derive(Debug)]
pub struct ResolvedMedia {
    pub url: String,
    pub media_type: MediaType,
    pub duration: Option<FloatBits>,
    pub resolution: Option<(u32, u32)>,
    pub extension: String,
    pub needs_container_fix: bool,
}

impl ResolvedMedia {
    /// A copy of the media description.
    pub fn duplicate(&self) -> (r: Self)
        ensures
            r == *self,
    {
        ResolvedMedia {
            url: self.url.clone(),
            media_type: self.media_type,
            duration: self.duration,
            resolution: self.resolution,
            extension: self.extension.clone(),
            needs_container_fix: self.needs_container_fix,
        }
    }
}

/// Output of the download stage.
#[derive(Debug)]
pub struct DownloadedFile {
    pub path: String,
    pub size: u64,
    pub duration: Option<FloatBits>,
    pub resolution: Option<(u32, u32)>,
    pub facts: MediaFacts,
    pub upload_ready_bytes: Option<Vec<u8>>,
}

/// One file that is ready for upload.
#[derive(Debug)]
pub struct PreparedPart {
    pub path: String,
    pub size: u64,
    pub upload_ready_bytes: Option<Vec<u8>>,
}

impl PreparedPart {
    pub fn new(path: String, size: u64) -> (part: Self)
        ensures
            part == (PreparedPart { path, size, upload_ready_bytes: None }),
    {
        PreparedPart { path, size, upload_ready_bytes: None }
    }

    pub fn with_upload_ready_bytes(path: String, size: u64, bytes: Vec<u8>) -> (part: Self)
        ensures
            part == (PreparedPart { path, size, upload_ready_bytes: Some(bytes) }),
    {
        PreparedPart { path, size, upload_ready_bytes: Some(bytes) }
    }

    pub fn path(&self) -> (path: &str)
        ensures
            path@ == self.path@,
    {
        self.path.as_str()
    }

    pub fn size(&self) -> (size: u64)
        ensures
            size == self.size,
    {
        self.size
    }

    pub fn upload_ready_bytes(&self) -> (bytes: Option<&Vec<u8>>)
        ensures
            bytes is Some <==> self.upload_ready_bytes is Some,
            bytes matches Some(b) ==> self.upload_ready_bytes == Some(*b),
    {
        match &self.upload_ready_bytes {
            Some(b) => Some(b),
            None => None,
        }
    }
}

/// Output of the optimize stage: one file, or segments in order.
#[derive(Debug)]
pub enum PreparedUpload {
    Single { part: PreparedPart },
    Split { parts: Vec<PreparedPart> },
}

impl PreparedUpload {
    pub open spec fn parts_view(&self) -> Seq<PreparedPart> {
        match *self {
            PreparedUpload::Single { part } => seq![part],
            PreparedUpload::Split { parts } => parts@,
        }
    }

    /// No file is larger than a limit.
    pub open spec fn fits(&self, limit: u64) -> bool {
        forall|i: int|
            0 <= i < self.parts_view().len() ==> (#[trigger] self.parts_view()[i]).size <= limit
    }

    pub fn single(part: PreparedPart) -> (r: Self)
        ensures
            r == (PreparedUpload::Single { part }),
            r.parts_view() == seq![part],
    {
        PreparedUpload::Single { part }
    }

    pub fn split(parts: Vec<PreparedPart>) -> (r: Self)
        ensures
            r == (PreparedUpload::Split { parts }),
            r.parts_view() == parts@,
    {
        PreparedUpload::Split { parts }
    }

    /// The number of files to upload.
    pub fn len(&self) -> (n: usize)
        ensures
            n == self.parts_view().len(),
    {
        match self {
            PreparedUpload::Single { .. } => 1,
            PreparedUpload::Split { parts } => parts.len(),
        }
    }
}

// ---------------------------------------------------------------------------
// What names stand for
// ---------------------------------------------------------------------------
/// The extensions of the media that are handled.
pub open spec fn media_extensions() -> Seq<Seq<char>> {
    seq!["mp4"@, "webm"@, "mov"@, "mkv"@, "avi"@, "ts"@, "gif"@, "jpg"@, "jpeg"@, "png"@, "webp"@]
}

/// A known extension is kept, whatever its case, with dots before it and a path
/// or a query behind it; another one gives way to MP4.
pub proof fn lemma_known_extensions_are_kept(dots: nat, name: Seq<char>, tail: Seq<char>)
    requires
        name.len() > 0,
        forall|i: int| 0 <= i < name.len() ==> is_word(#[trigger] name[i]),
        tail.len() > 0 ==> (tail[0] == '/' || tail[0] == '\\' || tail[0] == '?' || tail[0] == '#')
            && !is_white(tail.last()),
    ensures
        safe_extension(Seq::new(dots, |i: int| '.') + name + tail) == (
        if media_extensions().contains(lower(name)) {
            lower(name)
        } else {
            "mp4"@
        }),
{
    let run = Seq::new(dots, |i: int| '.');
    let s = run + name + tail;
    assert(is_word(name[0]) && is_word(name[name.len() - 1]));
    assert(s[0] == if dots > 0 { '.' } else { name[0] });
    assert(s.last() == if tail.len() > 0 { tail.last() } else { name.last() });
    assert(trim(s) == s);
    assert(s =~= run + (name + tail));
    lemma_leading_char_left_out(dots, '.', name + tail);
    let stops = extension_stops();
    assert forall|i: int| 0 <= i < name.len() implies !stops.contains(#[trigger] name[i]) by {
        assert(is_word(name[i]));
    }
    if tail.len() > 0 {
        assert(stops[0] == '/' && stops[1] == '\\' && stops[2] == '?' && stops[3] == '#');
    }
    lemma_ends_before_stop(name, tail, stops);
    let known = media_extensions();
    let e = lower(name);
    if is_allowed_extension(e) {
        assert(known[0] == e || known[1] == e || known[2] == e || known[3] == e || known[4] == e
            || known[5] == e || known[6] == e || known[7] == e || known[8] == e || known[9] == e
            || known[10] == e);
    }
}

/// A container has one meaning, whether it is told by a file's extension or by
/// a probe.
pub proof fn lemma_extensions_and_formats_agree(e: Seq<char>, name: Seq<char>)
    requires
        safe_extension(e) == (if name == "matroska"@ {
            "mkv"@
        } else if name == "mpegts"@ {
            "ts"@
        } else {
            name
        }),
    ensures
        container_of_name(name) is Some ==> container_of_extension(e) == container_of_name(name)->0,
        container_of_extension(e) == MediaContainer::Unknown <==> (name == "jpg"@ || name
            == "jpeg"@ || name == "png"@ || name == "webp"@),
{
    reveal_strlit("mp4");
    reveal_strlit("webm");
    reveal_strlit("mov");
    reveal_strlit("mkv");
    reveal_strlit("avi");
    reveal_strlit("ts");
    reveal_strlit("gif");
    reveal_strlit("jpg");
    reveal_strlit("jpeg");
    reveal_strlit("png");
    reveal_strlit("webp");
    reveal_strlit("matroska");
    reveal_strlit("mpegts");
    reveal_strlit("m4a");
    reveal_strlit("3gp");
    reveal_strlit("3g2");
    reveal_strlit("mj2");
    assert("mp4"@.len() == 3);
    assert("webm"@.len() == 4);
    assert("mov"@.len() == 3);
    assert("mkv"@.len() == 3);
    assert("avi"@.len() == 3);
    assert("ts"@.len() == 2);
    assert("gif"@.len() == 3);
    assert("jpg"@.len() == 3);
    assert("jpeg"@.len() == 4);
    assert("png"@.len() == 3);
    assert("webp"@.len() == 4);
    assert("matroska"@.len() == 8);
    assert("mpegts"@.len() == 6);
    assert("m4a"@.len() == 3);
    assert("3gp"@.len() == 3);
    assert("3g2"@.len() == 3);
    assert("mj2"@.len() == 3);
    assert("mp4"@[1] != "mov"@[1]);
    assert("mp4"@[1] != "mkv"@[1]);
    assert("mp4"@[0] != "avi"@[0]);
    assert("mp4"@[0] != "gif"@[0]);
    assert("mp4"@[0] != "jpg"@[0]);
    assert("mp4"@[0] != "png"@[0]);
    assert("mp4"@[1] != "m4a"@[1]);
    assert("mp4"@[0] != "3gp"@[0]);
    assert("mp4"@[0] != "3g2"@[0]);
    assert("mp4"@[1] != "mj2"@[1]);
    assert("webm"@[0] != "jpeg"@[0]);
    assert("webm"@[3] != "webp"@[3]);
    assert("mov"@[1] != "mkv"@[1]);
    assert("mov"@[0] != "avi"@[0]);
    assert("mov"@[0] != "gif"@[0]);
    assert("mov"@[0] != "jpg"@[0]);
    assert("mov"@[0] != "png"@[0]);
    assert("mov"@[1] != "m4a"@[1]);
    assert("mov"@[0] != "3gp"@[0]);
    assert("mov"@[0] != "3g2"@[0]);
    assert("mov"@[1] != "mj2"@[1]);
    assert("mkv"@[0] != "avi"@[0]);
    assert("mkv"@[0] != "gif"@[0]);
    assert("mkv"@[0] != "jpg"@[0]);
    assert("mkv"@[0] != "png"@[0]);
    assert("mkv"@[1] != "m4a"@[1]);
    assert("mkv"@[0] != "3gp"@[0]);
    assert("mkv"@[0] != "3g2"@[0]);
    assert("mkv"@[1] != "mj2"@[1]);
    assert("avi"@[0] != "gif"@[0]);
    assert("avi"@[0] != "jpg"@[0]);
    assert("avi"@[0] != "png"@[0]);
    assert("avi"@[0] != "m4a"@[0]);
    assert("avi"@[0] != "3gp"@[0]);
    assert("avi"@[0] != "3g2"@[0]);
    assert("avi"@[0] != "mj2"@[0]);
    assert("gif"@[0] != "jpg"@[0]);
    assert("gif"@[0] != "png"@[0]);
    assert("gif"@[0] != "m4a"@[0]);
    assert("gif"@[0] != "3gp"@[0]);
    assert("gif"@[0] != "3g2"@[0]);
    assert("gif"@[0] != "mj2"@[0]);
    assert("jpg"@[0] != "png"@[0]);
    assert("jpg"@[0] != "m4a"@[0]);
    assert("jpg"@[0] != "3gp"@[0]);
    assert("jpg"@[0] != "3g2"@[0]);
    assert("jpg"@[0] != "mj2"@[0]);
    assert("jpeg"@[0] != "webp"@[0]);
    assert("png"@[0] != "m4a"@[0]);
    assert("png"@[0] != "3gp"@[0]);
    assert("png"@[0] != "3g2"@[0]);
    assert("png"@[0] != "mj2"@[0]);
    assert("m4a"@[0] != "3gp"@[0]);
    assert("m4a"@[0] != "3g2"@[0]);
    assert("m4a"@[1] != "mj2"@[1]);
    assert("3gp"@[2] != "3g2"@[2]);
    assert("3gp"@[0] != "mj2"@[0]);
    assert("3g2"@[0] != "mj2"@[0]);
    lemma_safe_extension_is_plain(e);
}

/// Of a list of names the first known one counts, and unknown ones do not.
pub proof fn lemma_first_known_name_counts(names: Seq<Seq<char>>, i: int)
    requires
        0 <= i <= names.len(),
        forall|k: int| 0 <= k < i ==> container_of_name(trim(#[trigger] names[k])) is None,
    ensures
        i == names.len() ==> container_of_names(names) == MediaContainer::Unknown,
        i < names.len() ==> (container_of_name(trim(names[i])) matches Some(c) ==> container_of_names(
            names,
        ) == c),
    decreases names.len(),
{
    if i > 0 {
        let rest = names.skip(1);
        assert(container_of_name(trim(names[0])) is None);
        assert forall|k: int| 0 <= k < i - 1 implies container_of_name(trim(#[trigger] rest[k]))
            is None by {
            assert(rest[k] == names[k + 1]);
        }
        lemma_first_known_name_counts(rest, i - 1);
    }
}

/// An upload fits where each of its parts does; one part too large is enough
/// that it does not.
pub proof fn lemma_uploads_fit_part_by_part(
    upload: PreparedUpload,
    part: PreparedPart,
    limit: u64,
    i: int,
)
    ensures
        (PreparedUpload::Single { part }).fits(limit) <==> part.size <= limit,
        upload.fits(limit) && 0 <= i < upload.parts_view().len() ==> upload.parts_view()[i].size
            <= limit,
        0 <= i < upload.parts_view().len() && upload.parts_view()[i].size > limit ==> !upload.fits(
            limit,
        ),
        upload matches PreparedUpload::Single { part: p } ==> upload.parts_view() == seq![p],
{
    let one = PreparedUpload::Single { part };
    assert(one.parts_view()[0] == part);
}

/// Progress tells how many segments of how many are done.
pub proof fn lemma_progress_counts_segments(done: usize, total: usize)
    ensures
        Progress::Transcoding(done, total).text() == "Transcoding segments ("@ + (decimal(
            done as nat,
        ) + "/"@ + decimal(total as nat)) + ")"@,
        Progress::UploadingSegment(done, total).text() == "Uploading segment "@ + (decimal(
            done as nat,
        ) + "/"@ + decimal(total as nat)) + "..."@,
        Progress::Resolving.text() == "Resolving metadata..."@,
        Progress::Downloading.text() == "Downloading media..."@,
        Progress::Optimizing.text() == "Processing media..."@,
        Progress::Uploading.text() == "Uploading..."@,
{
    let of = decimal(done as nat) + "/"@ + decimal(total as nat);
    assert(Progress::Transcoding(done, total).text() =~= "Transcoding segments ("@ + of + ")"@);
    assert(Progress::UploadingSegment(done, total).text() =~= "Uploading segment "@ + of + "..."@);
}

} // verus!
