//! The run of the command line: which links, in what order, under which names.

use crate::cli::args::{ArgsModel, CliArgs, CodecChoice};
use crate::cli::filename::{base_name, safe_component, sanitize_component};
use crate::config::{
    ConcurrencySettings, EngineSettings, HardwareAcceleration, PipelineSettings, StorageSettings,
    TargetVideoCodec, TranscodeSettings,
};
use crate::media::url::{parse_tweet_urls, tweet_links, TweetLinks};
use crate::pipeline::types::{safe_extension, sanitize_extension};
use crate::text::{decimal, decimal_of, same, trim, trim_str, views};
use vstd::prelude::*;
use vstd::string::StringExecFns;

verus! {

/// The longest time that a stage may take.
pub const MAX_STAGE_TIMEOUT_SECS: u64 = 3600;

/// The settings that command-line options give: nothing is kept over runs and
/// every stage has the longest time allowed. Everything else is as by default.
pub fn engine_settings(concurrency: u32, hw: HardwareAcceleration) -> (r: EngineSettings)
    ensures
        !r.storage.dedup_persistent,
        !r.storage.metrics_enabled,
        (StorageSettings { dedup_persistent: true, metrics_enabled: true, ..r.storage }).is_default(),
        r.concurrency.download == concurrency,
        r.concurrency.transcode == concurrency,
        r.concurrency.pipeline == concurrency,
        (ConcurrencySettings { download: 4, transcode: 1, pipeline: 8, ..r.concurrency }).is_default(),
        r.pipeline.download_timeout_secs == MAX_STAGE_TIMEOUT_SECS,
        r.pipeline.resolver_timeout_secs == MAX_STAGE_TIMEOUT_SECS,
        r.pipeline.ytdlp_timeout_secs == MAX_STAGE_TIMEOUT_SECS,
        r.pipeline.upload_timeout_secs == MAX_STAGE_TIMEOUT_SECS,
        (PipelineSettings {
            download_timeout_secs: 60,
            resolver_timeout_secs: 10,
            ytdlp_timeout_secs: 30,
            upload_timeout_secs: 120,
            ..r.pipeline
        }).is_default(),
        r.transcode.ffmpeg_timeout_secs == MAX_STAGE_TIMEOUT_SECS,
        r.transcode.ffprobe_timeout_secs == MAX_STAGE_TIMEOUT_SECS,
        r.transcode.hardware_acceleration == hw,
        (TranscodeSettings {
            ffmpeg_timeout_secs: 600,
            ffprobe_timeout_secs: 30,
            hardware_acceleration: HardwareAcceleration::Software,
            ..r.transcode
        }).is_default(),
        r.http.is_default(),
        r.binaries.is_default(),
        concurrency >= 1 ==> r.problem() is None,
        concurrency == 0 ==> r.problem() == Some("all concurrency values must be at least 1"@),
{
    let mut config = EngineSettings::default();
    config.storage.dedup_persistent = false;
    config.storage.metrics_enabled = false;
    config.concurrency.download = concurrency;
    config.concurrency.transcode = concurrency;
    config.concurrency.pipeline = concurrency;
    config.pipeline.download_timeout_secs = MAX_STAGE_TIMEOUT_SECS;
    config.pipeline.resolver_timeout_secs = MAX_STAGE_TIMEOUT_SECS;
    config.pipeline.ytdlp_timeout_secs = MAX_STAGE_TIMEOUT_SECS;
    config.pipeline.upload_timeout_secs = MAX_STAGE_TIMEOUT_SECS;
    config.transcode.ffmpeg_timeout_secs = MAX_STAGE_TIMEOUT_SECS;
    config.transcode.ffprobe_timeout_secs = MAX_STAGE_TIMEOUT_SECS;
    config.transcode.hardware_acceleration = hw;
    config
}

/// A program that is needed is not there.
pub fn missing_tool_error(tool: &str) -> (s: String)
    ensures
        s@ == "`"@ + tool@ + "` was not found on PATH; azalea-cli needs it to run"@,
{
    let mut s = "`".to_owned();
    s.append(tool);
    s.append("` was not found on PATH; azalea-cli needs it to run");
    s
}

// ---------------------------------------------------------------------------
// Links
// ---------------------------------------------------------------------------
/// Texts on lines of their own.
pub open spec fn joined_lines(texts: Seq<Seq<char>>) -> Seq<char>
    decreases texts.len(),
{
    if texts.len() == 0 {
        ""@
    } else if texts.len() == 1 {
        texts[0]
    } else {
        joined_lines(texts.drop_last()) + "\n"@ + texts.last()
    }
}

pub fn join_lines(texts: &Vec<String>) -> (s: String)
    ensures
        s@ == joined_lines(views(texts@)),
{
    let ghost all = views(texts@);
    if texts.len() == 0 {
        return "".to_owned();
    }
    let mut s = texts[0].clone();
    let mut i: usize = 1;
    assert(all.take(1)[0] == texts@[0]@);
    while i < texts.len()
        invariant
            1 <= i <= texts@.len(),
            all == views(texts@),
            s@ == joined_lines(all.take(i as int)),
        decreases texts@.len() - i,
    {
        s.append("\n");
        s.append(texts[i].as_str());
        i = i + 1;
        assert(all.take(i as int).drop_last() =~= all.take(i - 1));
        assert(all.take(i as int).last() == texts@[i - 1]@);
    }
    assert(all.take(i as int) =~= all);
    s
}

/// All text that may hold links: the arguments, then the input file.
pub open spec fn all_input(args: ArgsModel, file: Option<Seq<char>>) -> Seq<char> {
    match file {
        Some(content) => joined_lines(args.urls) + "\n"@ + content,
        None => joined_lines(args.urls),
    }
}

/// Put the arguments and the input file together.
pub fn collect_input(args: &CliArgs, file: Option<&str>) -> (s: String)
    ensures
        s@ == all_input(
            args@,
            match file {
                Some(content) => Some(content@),
                None => None,
            },
        ),
{
    let mut content = join_lines(&args.urls);
    if let Some(text) = file {
        content.append("\n");
        content.append(text);
    }
    content
}

/// The links to work on.
pub fn collect_urls(args: &CliArgs, file: Option<&str>) -> (links: TweetLinks)
    ensures
        tweet_links(
            all_input(
                args@,
                match file {
                    Some(content) => Some(content@),
                    None => None,
                },
            ),
            links@,
        ),
{
    parse_tweet_urls(collect_input(args, file).as_str())
}

/// What a line that was typed is.
#[derive(Debug)]
pub enum TypedLine {
    Blank,
    Quit,
    /// Text that may hold links.
    Text { text: String },
}

/// Read one typed line.
pub fn typed_line(line: &str) -> (r: TypedLine)
    ensures
        trim(line@).len() == 0 ==> r is Blank,
        trim(line@).len() > 0 && (trim(line@) == "exit"@ || trim(line@) == "quit"@) ==> r is Quit,
        trim(line@).len() > 0 && trim(line@) != "exit"@ && trim(line@) != "quit"@ ==> (
        r matches TypedLine::Text { text } && text@ == trim(line@)),
{
    let line = trim_str(line);
    if line.as_str().is_empty() {
        return TypedLine::Blank;
    }
    if same(line.as_str(), "exit") || same(line.as_str(), "quit") {
        return TypedLine::Quit;
    }
    TypedLine::Text { text: line }
}

/// What to do with a typed line.
pub enum LineAction {
    /// Ask again.
    Skip,
    Quit,
    /// Say that the line holds no link, and ask again.
    NoUrl,
    Run { links: TweetLinks },
}

/// Decide on a typed line.
pub fn interactive_line(line: &str) -> (action: LineAction)
    ensures
        trim(line@).len() == 0 ==> action is Skip,
        trim(line@).len() > 0 && (trim(line@) == "exit"@ || trim(line@) == "quit"@)
            ==> action is Quit,
        trim(line@).len() > 0 && trim(line@) != "exit"@ && trim(line@) != "quit"@ ==> match action {
            LineAction::NoUrl => tweet_links(trim(line@), Seq::empty()),
            LineAction::Run { links } => links@.len() > 0 && tweet_links(trim(line@), links@),
            _ => false,
        },
{
    match typed_line(line) {
        TypedLine::Blank => LineAction::Skip,
        TypedLine::Quit => LineAction::Quit,
        TypedLine::Text { text } => {
            let links = parse_tweet_urls(text.as_str());
            if links.is_empty() {
                assert(links@ =~= Seq::empty());
                LineAction::NoUrl
            } else {
                LineAction::Run { links }
            }
        },
    }
}

// ---------------------------------------------------------------------------
// Jobs
// ---------------------------------------------------------------------------
/// Jobs of a batch: at most `limit` run at once.
#[derive(Debug, Clone, Copy, PartialEq, Eq, Structural)]
pub struct BatchRun {
    pub total: usize,
    pub started: usize,
    pub running: usize,
    pub limit: usize,
}

impl BatchRun {
    /// No more run than are allowed.
    pub open spec fn wf(&self) -> bool {
        &&& self.running <= self.started <= self.total
        &&& self.running <= self.limit
    }

    pub fn new(total: usize, limit: u32) -> (r: Self)
        ensures
            r.wf(),
            r == (BatchRun { total, started: 0, running: 0, limit: limit as usize }),
    {
        BatchRun { total, started: 0, running: 0, limit: limit as usize }
    }

    /// The link to start next, by place, while there is room.
    pub fn start_next(&mut self) -> (r: Option<usize>)
        requires
            old(self).wf(),
        ensures
            final(self).wf(),
            r is Some <==> old(self).running < old(self).limit && old(self).started < old(
                self,
            ).total,
            r matches Some(i) ==> i == old(self).started && *final(self) == (BatchRun {
                started: (old(self).started + 1) as usize,
                running: (old(self).running + 1) as usize,
                ..*old(self)
            }),
            r is None ==> *final(self) == *old(self),
    {
        if self.running >= self.limit || self.started >= self.total {
            return None;
        }
        let i = self.started;
        self.started = self.started + 1;
        self.running = self.running + 1;
        Some(i)
    }

    /// A job ended.
    pub fn finished(&mut self)
        requires
            old(self).wf(),
            old(self).running > 0,
        ensures
            final(self).wf(),
            *final(self) == (BatchRun { running: (old(self).running - 1) as usize, ..*old(self) }),
    {
        self.running = self.running - 1;
    }
}

/// A batch that can start nothing and has nothing running has started every
/// link once.
pub proof fn lemma_idle_batch_is_done(batch: BatchRun)
    requires
        batch.wf(),
        batch.running == 0,
        batch.limit >= 1,
        !(batch.running < batch.limit && batch.started < batch.total),
    ensures
        batch.started == batch.total,
{
}

pub open spec fn kept_extension(codec: CodecChoice, downloaded: Option<Seq<char>>) -> Seq<char> {
    match codec.target() {
        None => match downloaded {
            Some(ext) => safe_extension(ext),
            None => "mp4"@,
        },
        Some(TargetVideoCodec::H264) => "mp4"@,
        Some(_) => "mkv"@,
    }
}

/// The extension of the kept file.
pub fn output_extension(codec: CodecChoice, downloaded: Option<&str>) -> (s: String)
    ensures
        s@ == kept_extension(
            codec,
            match downloaded {
                Some(ext) => Some(ext@),
                None => None,
            },
        ),
{
    match codec.target_codec() {
        None => part_extension(downloaded),
        Some(TargetVideoCodec::H264) => "mp4".to_owned(),
        Some(_) => "mkv".to_owned(),
    }
}

/// The extension of a prepared part.
pub fn part_extension(ext: Option<&str>) -> (s: String)
    ensures
        s@ == (match ext {
            Some(e) => safe_extension(e@),
            None => "mp4"@,
        }),
{
    match ext {
        Some(e) => sanitize_extension(e),
        None => "mp4".to_owned(),
    }
}

/// The name of a kept part: numbered from one where there are several.
pub fn part_name(user: &str, tweet_id: u64, ext: &str, index: usize, count: usize) -> (s: String)
    requires
        index < count,
    ensures
        s@ == (if count > 1 {
            safe_component(user@) + "_"@ + decimal(tweet_id as nat) + "-part"@ + decimal(
                (index + 1) as nat,
            ) + "."@ + ext@
        } else {
            safe_component(user@) + "_"@ + decimal(tweet_id as nat) + "."@ + ext@
        }),
{
    if count <= 1 {
        return base_name(user, tweet_id, ext);
    }
    let mut s = sanitize_component(user);
    s.append("_");
    s.append(decimal_of(tweet_id).as_str());
    s.append("-part");
    s.append(decimal_of((index + 1) as u64).as_str());
    s.append(".");
    s.append(ext);
    s
}

/// One line of the summary.
pub open spec fn summary_text(
    url: Seq<char>,
    path: Seq<char>,
    size: nat,
    mode: Seq<char>,
    encoder: Option<Seq<char>>,
) -> Seq<char> {
    url + " -> "@ + path + " ("@ + decimal(size) + " bytes, "@ + mode + (match encoder {
        Some(e) => ", "@ + e,
        None => ""@,
    }) + ")"@
}

pub fn summary(url: &str, path: &str, size: u64, mode: &str, encoder: Option<&str>) -> (s: String)
    ensures
        s@ == summary_text(
            url@,
            path@,
            size as nat,
            mode@,
            match encoder {
                Some(e) => Some(e@),
                None => None,
            },
        ),
{
    let mut s = url.to_owned();
    s.append(" -> ");
    s.append(path);
    s.append(" (");
    s.append(decimal_of(size).as_str());
    s.append(" bytes, ");
    s.append(mode);
    let mut tail = "".to_owned();
    if let Some(e) = encoder {
        tail = ", ".to_owned();
        tail.append(e);
    }
    s.append(tail.as_str());
    s.append(")");
    s
}

// ---------------------------------------------------------------------------
// What goes in and comes out
// ---------------------------------------------------------------------------
/// Joining two runs of texts one after the other is joining all of them.
pub proof fn lemma_joined_texts_stay_in_order(a: Seq<Seq<char>>, b: Seq<Seq<char>>)
    requires
        a.len() > 0,
        b.len() > 0,
    ensures
        joined_lines(a + b) == joined_lines(a) + "\n"@ + joined_lines(b),
        a.len() == 1 ==> joined_lines(a) == a[0],
    decreases b.len(),
{
    assert((a + b).drop_last() =~= a + b.drop_last());
    assert((a + b).last() == b.last());
    if b.len() > 1 {
        lemma_joined_texts_stay_in_order(a, b.drop_last());
        assert(joined_lines(a + b) =~= joined_lines(a) + "\n"@ + joined_lines(b));
    } else {
        assert(a + b.drop_last() =~= a);
    }
}

/// Links of the arguments stand before those of the file.
pub proof fn lemma_arguments_go_before_the_file(args: ArgsModel, file: Seq<char>)
    requires
        args.urls.len() > 0,
    ensures
        all_input(args, Some(file)) == joined_lines(args.urls + seq![file]),
        all_input(args, None) == joined_lines(args.urls),
{
    lemma_joined_texts_stay_in_order(args.urls, seq![file]);
    lemma_joined_texts_stay_in_order(seq![file], seq![file]);
}

/// A copy keeps a known extension, an H.264 encode is an MP4, another one a
/// Matroska file.
pub proof fn lemma_files_are_called_what_they_hold(codec: CodecChoice, downloaded: Option<Seq<char>>)
    ensures
        codec == CodecChoice::H264 ==> kept_extension(codec, downloaded) == "mp4"@,
        codec == CodecChoice::Hevc || codec == CodecChoice::Av1 || codec == CodecChoice::Auto
            ==> kept_extension(codec, downloaded) == "mkv"@,
        codec == CodecChoice::Copy ==> (downloaded matches Some(ext) ==> kept_extension(
            codec,
            downloaded,
        ) == safe_extension(ext)),
        codec == CodecChoice::Copy && downloaded is None ==> kept_extension(codec, downloaded)
            == "mp4"@,
{
}

/// A line of the summary names the link before the file, with its size, the
/// mode, and the encoder where there was one.
pub proof fn lemma_summary_names_link_file_and_mode(
    url: Seq<char>,
    path: Seq<char>,
    size: nat,
    mode: Seq<char>,
    encoder: Seq<char>,
)
    ensures
        (url + " -> "@ + path + " ("@ + decimal(size) + " bytes, "@ + mode).is_prefix_of(
            summary_text(url, path, size, mode, None),
        ),
        summary_text(url, path, size, mode, Some(encoder)).len() == summary_text(
            url,
            path,
            size,
            mode,
            None,
        ).len() + 2 + encoder.len(),
        (", "@ + encoder + ")"@).is_suffix_of(summary_text(url, path, size, mode, Some(encoder))),
{
    reveal_strlit("");
    reveal_strlit(", ");
    let head = url + " -> "@ + path + " ("@ + decimal(size) + " bytes, "@ + mode;
    let plain = summary_text(url, path, size, mode, None);
    assert(plain =~= head + ")"@);
    assert(plain.take(head.len() as int) =~= head);
    let full = summary_text(url, path, size, mode, Some(encoder));
    let tail = ", "@ + encoder + ")"@;
    assert(full =~= head + tail);
    assert(full.skip(full.len() - tail.len()) =~= tail);
}

} // verus!
