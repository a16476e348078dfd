//! Rules of the optimize stage.
//!
//! Strategies are tried from the cheapest to the most expensive one until the
//! output fits the upload limit: keep the file, copy its streams, encode it
//! whole, encode it smaller, encode it in segments.

use crate::config::{EngineSettings, FloatBits, HardwareAcceleration, QualityPreset, TranscodeSettings};
use crate::engine::TranscodeRuntime;
use crate::pipeline::errors::{is_transcode_error, transcode_error, Error, TranscodeStage};
use crate::pipeline::ffmpeg::{copy_viable, mp4_stream_copy_viable, option_at, sets, Args};
use crate::pipeline::quality::{
    downshifted, lemma_never_upscales, recommended, BitrateParams, Ladder, SplitTranscodePlan,
};
use crate::pipeline::types::{
    AudioCodec, DownloadedFile, MediaContainer, MediaFacts, MediaType, PreparedPart, PreparedUpload,
    Progress, ResolvedMedia, VideoCodec,
};
use crate::text::{
    contains, decimal, decimal_of, ends_with, holds_within, lemma_contains_is_within,
    lemma_padded_decimal_value, lower, lower_str, padded_decimal, padded_decimal_of, same,
    starts_with, str_contains, str_ends_with, str_starts_with,
};
use vstd::prelude::*;
use vstd::string::StringExecFns;

verus! {

/// Seconds between two signs of life of a parallel split.
pub const PARALLEL_SEGMENT_HEARTBEAT_SECS: u64 = 30;

/// Slots of a strategy plan.
pub const STRATEGY_PLAN_CAPACITY: usize = 6;

// ---------------------------------------------------------------------------
// Strategies
// ---------------------------------------------------------------------------
/// Strategies by expected cost.
#[derive(Debug, Clone, Copy, PartialEq, Eq, Structural)]
pub enum TranscodeStrategy {
    PassThrough,
    Remux,
    TranscodeBalanced,
    TranscodeAggressive,
    SplitTranscode,
    ImageCompress,
}

impl TranscodeStrategy {
    pub open spec fn name(self) -> Seq<char> {
        match self {
            TranscodeStrategy::PassThrough => "pass-through"@,
            TranscodeStrategy::Remux => "remux"@,
            TranscodeStrategy::TranscodeBalanced => "transcode-balanced"@,
            TranscodeStrategy::TranscodeAggressive => "transcode-aggressive"@,
            TranscodeStrategy::SplitTranscode => "split-transcode"@,
            TranscodeStrategy::ImageCompress => "image-compress"@,
        }
    }

    pub fn label(self) -> (s: &'static str)
        ensures
            s@ == self.name(),
    {
        match self {
            TranscodeStrategy::PassThrough => "pass-through",
            TranscodeStrategy::Remux => "remux",
            TranscodeStrategy::TranscodeBalanced => "transcode-balanced",
            TranscodeStrategy::TranscodeAggressive => "transcode-aggressive",
            TranscodeStrategy::SplitTranscode => "split-transcode",
            TranscodeStrategy::ImageCompress => "image-compress",
        }
    }
}

/// Strategies in the order they are tried, and the split they may end in.
#[derive(Debug, Clone, Copy)]
pub struct StrategyPlan {
    pub strategies: [Option<TranscodeStrategy>; 6],
    pub split_transcode: Option<SplitTranscodePlan>,
}

/// Whether a stream copy is worth a try though the codecs are not known.
pub open spec fn copy_worth_trying(facts: MediaFacts) -> bool {
    facts.video_codec == VideoCodec::Other || facts.audio_codec == AudioCodec::Other
}

/// Whether copying into MP4 can help: the file is no MP4 yet and its codecs
/// fit, or may do.
pub open spec fn remux_plausible(facts: MediaFacts) -> bool {
    facts.container != MediaContainer::Mp4 && facts.container != MediaContainer::Mov && (
    copy_viable(facts) || copy_worth_trying(facts))
}

pub fn stream_copy_preflight_worth_trying(facts: MediaFacts) -> (r: bool)
    ensures
        r == copy_worth_trying(facts),
{
    facts.video_codec == VideoCodec::Other || facts.audio_codec == AudioCodec::Other
}

pub fn remux_is_plausible(facts: MediaFacts) -> (r: bool)
    ensures
        r == remux_plausible(facts),
{
    !facts.container.is_mp4_family() && (mp4_stream_copy_viable(facts)
        || stream_copy_preflight_worth_trying(facts))
}

/// Whether encoding the whole file leaves a bitrate worth watching. `params`
/// is nothing where no bitrate fits.
pub open spec fn single_plausible(params: Option<BitrateParams>, config: EngineSettings) -> bool {
    params matches Some(p) && p.video_bitrate_kbps >= config.transcode.min_bitrate_kbps
}

pub fn single_transcode_is_plausible(params: Option<BitrateParams>, config: &EngineSettings) -> (r:
    bool)
    ensures
        r == single_plausible(params, *config),
{
    match params {
        Some(p) => p.video_bitrate_kbps >= config.transcode.min_bitrate_kbps,
        None => false,
    }
}

/// The strategies to try, in order.
pub open spec fn strategy_order(
    facts: MediaFacts,
    single: Option<BitrateParams>,
    split: Option<SplitTranscodePlan>,
    balanced_height: Option<u32>,
    aggressive_height: Option<u32>,
    config: EngineSettings,
) -> Seq<TranscodeStrategy> {
    let a = if remux_plausible(facts) {
        seq![TranscodeStrategy::Remux]
    } else {
        Seq::empty()
    };
    let b = if single_plausible(single, config) {
        if aggressive_height != balanced_height {
            seq![TranscodeStrategy::TranscodeBalanced, TranscodeStrategy::TranscodeAggressive]
        } else {
            seq![TranscodeStrategy::TranscodeBalanced]
        }
    } else {
        Seq::empty()
    };
    let c = if split is Some {
        seq![TranscodeStrategy::SplitTranscode]
    } else {
        Seq::empty()
    };
    a + b + c
}

/// The slots hold the given strategies without gaps.
pub open spec fn slots_hold(
    slots: Seq<Option<TranscodeStrategy>>,
    order: Seq<TranscodeStrategy>,
) -> bool {
    &&& slots.len() == STRATEGY_PLAN_CAPACITY
    &&& order.len() <= slots.len()
    &&& forall|i: int|
        0 <= i < slots.len() ==> #[trigger] slots[i] == (if i < order.len() {
            Some(order[i])
        } else {
            None
        })
}

fn same_height(a: Option<u32>, b: Option<u32>) -> (r: bool)
    ensures
        r == (a == b),
{
    match (a, b) {
        (Some(x), Some(y)) => x == y,
        (None, None) => true,
        _ => false,
    }
}

/// Plan the strategies for an oversized video.
pub fn build_strategy_plan(
    facts: MediaFacts,
    single: Option<BitrateParams>,
    split: Option<SplitTranscodePlan>,
    balanced_height: Option<u32>,
    aggressive_height: Option<u32>,
    config: &EngineSettings,
) -> (plan: StrategyPlan)
    ensures
        slots_hold(
            plan.strategies@,
            strategy_order(
                facts,
                single,
                split,
                balanced_height,
                aggressive_height,
                *config,
            ),
        ),
        plan.split_transcode == split,
{
    let mut slots: [Option<TranscodeStrategy>; 6] = [None, None, None, None, None, None];
    let mut n: usize = 0;
    let ghost mut order: Seq<TranscodeStrategy> = Seq::empty();
    if remux_is_plausible(facts) {
        slots[n] = Some(TranscodeStrategy::Remux);
        n = n + 1;
        proof {
            order = order.push(TranscodeStrategy::Remux);
        }
    }
    if single_transcode_is_plausible(single, config) {
        slots[n] = Some(TranscodeStrategy::TranscodeBalanced);
        n = n + 1;
        proof {
            order = order.push(TranscodeStrategy::TranscodeBalanced);
        }
        if !same_height(aggressive_height, balanced_height) {
            slots[n] = Some(TranscodeStrategy::TranscodeAggressive);
            n = n + 1;
            proof {
                order = order.push(TranscodeStrategy::TranscodeAggressive);
            }
        }
    }
    if split.is_some() {
        slots[n] = Some(TranscodeStrategy::SplitTranscode);
        proof {
            order = order.push(TranscodeStrategy::SplitTranscode);
        }
    }
    assert(order =~= strategy_order(
        facts,
        single,
        split,
        balanced_height,
        aggressive_height,
        *config,
    ));
    StrategyPlan { strategies: slots, split_transcode: split }
}

/// No strategy is planned twice, a split comes last, and it is planned only
/// with its sizing.
pub proof fn lemma_plan_is_a_ladder(
    facts: MediaFacts,
    single: Option<BitrateParams>,
    split: Option<SplitTranscodePlan>,
    balanced_height: Option<u32>,
    aggressive_height: Option<u32>,
    config: EngineSettings,
)
    ensures
        ({
            let order = strategy_order(
                facts,
                single,
                split,
                balanced_height,
                aggressive_height,
                config,
            );
            &&& order.no_duplicates()
            &&& forall|i: int|
                0 <= i < order.len() && #[trigger] order[i] == TranscodeStrategy::SplitTranscode
                    ==> i == order.len() - 1 && split is Some
        }),
{
}

// ---------------------------------------------------------------------------
// The stage
// ---------------------------------------------------------------------------
/// How the stage begins.
#[derive(Debug)]
pub enum OptimizeStart {
    /// The file fits as it is.
    PassThrough { upload: PreparedUpload },
    /// The file has to shrink; so many bytes must be free first.
    Shrink { required_bytes: u64, image: bool },
}

/// Room for intermediate files: the minimum and twice the file.
pub open spec fn room_for(min_space: u64, size: u64) -> u64 {
    let twice = if size * 2 > u64::MAX {
        u64::MAX
    } else {
        (size * 2) as u64
    };
    if min_space + twice > u64::MAX {
        u64::MAX
    } else {
        (min_space + twice) as u64
    }
}

/// Begin with a downloaded file. What fits the limit is handed on untouched,
/// with the bytes that are still in memory.
pub fn begin_optimize(downloaded: DownloadedFile, media_type: MediaType, config: &EngineSettings) -> (r:
    OptimizeStart)
    ensures
        downloaded.size <= config.transcode.max_upload_bytes ==> r == (OptimizeStart::PassThrough {
            upload: PreparedUpload::Single {
                part: PreparedPart {
                    path: downloaded.path,
                    size: downloaded.size,
                    upload_ready_bytes: downloaded.upload_ready_bytes,
                },
            },
        }),
        downloaded.size > config.transcode.max_upload_bytes ==> r == (OptimizeStart::Shrink {
            required_bytes: room_for(config.pipeline.min_disk_space_bytes, downloaded.size),
            image: media_type == MediaType::Image,
        }),
        r matches OptimizeStart::PassThrough { upload } ==> upload.fits(
            config.transcode.max_upload_bytes,
        ),
{
    if downloaded.size <= config.transcode.max_upload_bytes {
        let part = match downloaded.upload_ready_bytes {
            Some(bytes) => PreparedPart::with_upload_ready_bytes(
                downloaded.path,
                downloaded.size,
                bytes,
            ),
            None => PreparedPart::new(downloaded.path, downloaded.size),
        };
        return OptimizeStart::PassThrough { upload: PreparedUpload::single(part) };
    }
    let twice: u64 = downloaded.size.saturating_add(downloaded.size);
    let required_bytes: u64 = config.pipeline.min_disk_space_bytes.saturating_add(twice);
    OptimizeStart::Shrink { required_bytes, image: media_type == MediaType::Image }
}

/// A minute, by its bits.
pub const MINUTE_BITS: u64 = 0x404e_0000_0000_0000;

/// The duration to plan with: what was measured, else what the resolver said,
/// else a minute.
pub fn planning_duration(downloaded: &DownloadedFile, resolved: &ResolvedMedia) -> (d: FloatBits)
    ensures
        d == (match (downloaded.duration, resolved.duration) {
            (Some(measured), _) => measured,
            (None, Some(announced)) => announced,
            (None, None) => FloatBits { bits: MINUTE_BITS },
        }),
{
    match downloaded.duration {
        Some(measured) => measured,
        None => match resolved.duration {
            Some(announced) => announced,
            None => FloatBits { bits: MINUTE_BITS },
        },
    }
}

/// The height to encode at. `params` is nothing where no bitrate fits; then a
/// cautious height is used. The thriftiest preset also shrinks a source that
/// would fit as it is.
pub open spec fn predicted_height(
    params: Option<BitrateParams>,
    source: Option<(u32, u32)>,
    preset: QualityPreset,
) -> Option<u32> {
    match params {
        None => Some(360),
        Some(p) => {
            let source_height = match source {
                Some((_, h)) => Some(h),
                None => None,
            };
            match (recommended(source_height, p.video_bitrate_kbps, preset), source_height) {
                (None, Some(h)) => if preset == QualityPreset::Size && downshifted(h, 2) < h {
                    Some(downshifted(h, 2))
                } else {
                    None
                },
                (target, _) => target,
            }
        },
    }
}

pub fn predict_resolution(
    params: Option<BitrateParams>,
    source_resolution: Option<(u32, u32)>,
    quality_preset: QualityPreset,
) -> (r: Option<u32>)
    ensures
        r == predicted_height(params, source_resolution, quality_preset),
{
    let p = match params {
        Some(p) => p,
        None => {
            return Some(360);
        },
    };
    let source_height: Option<u32> = match source_resolution {
        Some((_, h)) => Some(h),
        None => None,
    };
    let target = Ladder::recommend(source_height, p.video_bitrate_kbps, quality_preset).target_height;
    match (target, source_height) {
        (None, Some(h)) => {
            if quality_preset == QualityPreset::Size {
                let lowered = Ladder::downshift_height(h, 2);
                if lowered < h {
                    return Some(lowered);
                }
            }
            None
        },
        _ => target,
    }
}

/// The height that a strategy encodes at; none keeps the source. Only the two
/// whole-file encodes have one.
pub fn attempt_height(
    strategy: TranscodeStrategy,
    balanced: Option<u32>,
    aggressive: Option<u32>,
) -> (r: Option<u32>)
    ensures
        r == (match strategy {
            TranscodeStrategy::TranscodeBalanced => balanced,
            TranscodeStrategy::TranscodeAggressive => aggressive,
            TranscodeStrategy::PassThrough => None,
            TranscodeStrategy::Remux => None,
            TranscodeStrategy::SplitTranscode => None,
            TranscodeStrategy::ImageCompress => None,
        }),
{
    match strategy {
        TranscodeStrategy::TranscodeBalanced => balanced,
        TranscodeStrategy::TranscodeAggressive => aggressive,
        _ => None,
    }
}

/// What comes next in the ladder.
#[derive(Debug)]
pub enum LadderStep {
    /// Try this strategy.
    Attempt { strategy: TranscodeStrategy },
    /// The output can be uploaded.
    Accept,
    /// Nothing is left to try.
    Exhausted { error: Error },
}

/// Walks the strategies of a plan.
#[derive(Debug)]
pub struct StrategyWalk {
    pub plan: StrategyPlan,
    pub at: usize,
}

impl StrategyWalk {
    pub open spec fn wf(&self) -> bool {
        self.at <= STRATEGY_PLAN_CAPACITY
    }

    /// The step at the walk's place.
    pub open spec fn is_step(&self, step: LadderStep) -> bool {
        if self.at < STRATEGY_PLAN_CAPACITY && self.plan.strategies@[self.at as int] is Some {
            step == (LadderStep::Attempt {
                strategy: self.plan.strategies@[self.at as int]->0,
            })
        } else {
            step matches LadderStep::Exhausted { error } && is_transcode_error(
                error,
                TranscodeStage::Transcode,
                "transcode strategy ladder exhausted"@,
            )
        }
    }

    /// Begin with the first strategy.
    pub fn begin(plan: StrategyPlan) -> (r: (Self, LadderStep))
        ensures
            r.0.wf(),
            r.0.plan == plan,
            r.0.at == 0,
            r.0.is_step(r.1),
    {
        let walk = StrategyWalk { plan, at: 0 };
        let step = walk.step();
        (walk, step)
    }

    fn step(&self) -> (step: LadderStep)
        requires
            self.wf(),
        ensures
            self.is_step(step),
    {
        if self.at < STRATEGY_PLAN_CAPACITY {
            if let Some(strategy) = self.plan.strategies[self.at] {
                return LadderStep::Attempt { strategy };
            }
        }
        LadderStep::Exhausted {
            error: transcode_error(
                TranscodeStage::Transcode,
                "transcode strategy ladder exhausted",
            ),
        }
    }

    /// Judge an attempt: `output_size` is nothing where it failed. An output
    /// within the limit is accepted; else the next strategy is up, and the
    /// output is to be removed.
    pub fn on_attempt(&mut self, output_size: Option<u64>, max_upload_bytes: u64) -> (step:
        LadderStep)
        requires
            old(self).wf(),
            old(self).at < STRATEGY_PLAN_CAPACITY,
        ensures
            final(self).wf(),
            final(self).plan == old(self).plan,
            step is Accept <==> (output_size matches Some(size) && size <= max_upload_bytes),
            step is Accept ==> final(self).at == old(self).at,
            step !is Accept ==> final(self).at == old(self).at + 1 && final(self).is_step(step),
    {
        if let Some(size) = output_size {
            if size <= max_upload_bytes {
                return LadderStep::Accept;
            }
        }
        self.at = self.at + 1;
        self.step()
    }
}

// ---------------------------------------------------------------------------
// Images
// ---------------------------------------------------------------------------
/// One compression attempt; no scale keeps the size.
#[derive(Debug, Clone, Copy)]
pub struct ImageAttempt {
    pub quality: u32,
    pub scale: Option<&'static str>,
}

/// An attempt by its numbers.
pub open spec fn attempt_view(a: ImageAttempt) -> (u32, Option<Seq<char>>) {
    (
        a.quality,
        match a.scale {
            Some(s) => Some(s@),
            None => None,
        },
    )
}

pub open spec fn attempt_views(v: Seq<ImageAttempt>) -> Seq<(u32, Option<Seq<char>>)> {
    v.map_values(|a: ImageAttempt| attempt_view(a))
}

/// The attempts for a size and a limit: few and gentle while the file is less
/// than six fifths of the limit, harder up to twice the limit, hardest beyond.
pub open spec fn image_ladder(size: int, limit: int) -> Seq<(u32, Option<Seq<char>>)> {
    if 5 * size < 6 * limit {
        seq![(85u32, None), (75u32, None)]
    } else if size < 2 * limit {
        seq![
            (75u32, None),
            (65u32, None),
            (50u32, None),
            (75u32, Some("0.85"@)),
            (65u32, Some("0.85"@)),
            (50u32, Some("0.85"@)),
        ]
    } else {
        seq![
            (65u32, Some("0.85"@)),
            (50u32, Some("0.85"@)),
            (35u32, Some("0.85"@)),
            (65u32, Some("0.65"@)),
            (50u32, Some("0.65"@)),
            (35u32, Some("0.65"@)),
            (65u32, Some("0.5"@)),
            (50u32, Some("0.5"@)),
            (35u32, Some("0.5"@)),
        ]
    }
}

/// The attempts for an oversized image.
pub fn image_attempts(size: u64, max_upload_bytes: u64) -> (v: Vec<ImageAttempt>)
    ensures
        attempt_views(v@) == image_ladder(size as int, max_upload_bytes as int),
{
    let s: u128 = size as u128;
    let limit: u128 = max_upload_bytes as u128;
    let mut v: Vec<ImageAttempt> = Vec::new();
    if 5 * s < 6 * limit {
        v.push(ImageAttempt { quality: 85, scale: None });
        v.push(ImageAttempt { quality: 75, scale: None });
    } else if s < 2 * limit {
        v.push(ImageAttempt { quality: 75, scale: None });
        v.push(ImageAttempt { quality: 65, scale: None });
        v.push(ImageAttempt { quality: 50, scale: None });
        v.push(ImageAttempt { quality: 75, scale: Some("0.85") });
        v.push(ImageAttempt { quality: 65, scale: Some("0.85") });
        v.push(ImageAttempt { quality: 50, scale: Some("0.85") });
    } else {
        v.push(ImageAttempt { quality: 65, scale: Some("0.85") });
        v.push(ImageAttempt { quality: 50, scale: Some("0.85") });
        v.push(ImageAttempt { quality: 35, scale: Some("0.85") });
        v.push(ImageAttempt { quality: 65, scale: Some("0.65") });
        v.push(ImageAttempt { quality: 50, scale: Some("0.65") });
        v.push(ImageAttempt { quality: 35, scale: Some("0.65") });
        v.push(ImageAttempt { quality: 65, scale: Some("0.5") });
        v.push(ImageAttempt { quality: 50, scale: Some("0.5") });
        v.push(ImageAttempt { quality: 35, scale: Some("0.5") });
    }
    assert(attempt_views(v@) =~= image_ladder(size as int, max_upload_bytes as int));
    v
}

/// The output format for an input extension; JPEG where it is another one.
pub open spec fn image_format(ext: Option<Seq<char>>) -> Seq<char> {
    let e = match ext {
        Some(e) => lower(e),
        None => "jpg"@,
    };
    if e == "png"@ {
        "png"@
    } else if e == "webp"@ {
        "webp"@
    } else if e == "gif"@ {
        "gif"@
    } else {
        "jpg"@
    }
}

/// The extension of a compressed image.
pub fn image_output_extension(input_ext: Option<&str>) -> (s: String)
    ensures
        s@ == "opt."@ + image_format(
            match input_ext {
                Some(e) => Some(e@),
                None => None,
            },
        ),
{
    let e = match input_ext {
        Some(e) => lower_str(e),
        None => "jpg".to_owned(),
    };
    let format = if same(e.as_str(), "png") {
        "png"
    } else if same(e.as_str(), "webp") {
        "webp"
    } else if same(e.as_str(), "gif") {
        "gif"
    } else {
        "jpg"
    };
    let mut s = "opt.".to_owned();
    s.append(format);
    s
}

pub open spec fn image_list(input: Seq<char>, output: Seq<char>, attempt: (u32, Option<Seq<char>>)) -> Seq<
    Seq<char>,
> {
    let scale = match attempt.1 {
        Some(f) => seq!["-vf"@, "scale=iw*"@ + f + ":ih*"@ + f],
        None => Seq::empty(),
    };
    seq!["-y"@, "-i"@, input] + scale + seq!["-q:v"@, decimal(attempt.0 as nat), output]
}

/// The arguments of one image compression.
pub fn image_args(input: &str, output: &str, attempt: &ImageAttempt) -> (args: Args)
    ensures
        args@ == image_list(input@, output@, attempt_view(*attempt)),
{
    let mut args = Args::new();
    args.push("-y");
    args.option("-i", input);
    if let Some(factor) = attempt.scale {
        let mut filter = "scale=iw*".to_owned();
        filter.append(factor);
        filter.append(":ih*");
        filter.append(factor);
        args.option("-vf", filter.as_str());
    }
    args.option("-q:v", decimal_of(attempt.quality as u64).as_str());
    args.push(output);
    assert(args@ =~= image_list(input@, output@, attempt_view(*attempt)));
    args
}

/// What comes next for an oversized image.
#[derive(Debug)]
pub enum ImageStep {
    /// Try this compression.
    Attempt { attempt: ImageAttempt },
    /// The output can be uploaded.
    Accept { size: u64 },
    /// Nothing is left to try.
    Exhausted { error: Error },
}

/// Walks the compressions of an image, from gentle to hard.
#[derive(Debug)]
pub struct ImageWalk {
    pub attempts: Vec<ImageAttempt>,
    pub at: usize,
}

impl ImageWalk {
    pub open spec fn wf(&self) -> bool {
        self.at <= self.attempts@.len()
    }

    /// The step at the walk's place.
    pub open spec fn is_step(&self, step: ImageStep) -> bool {
        if self.at < self.attempts@.len() {
            step == (ImageStep::Attempt { attempt: self.attempts@[self.at as int] })
        } else {
            step matches ImageStep::Exhausted { error } && is_transcode_error(
                error,
                TranscodeStage::ImageCompress,
                "could not compress image"@,
            )
        }
    }

    /// Begin with the first compression for a size and a limit.
    pub fn begin(size: u64, max_upload_bytes: u64) -> (r: (Self, ImageStep))
        ensures
            r.0.wf(),
            r.0.at == 0,
            attempt_views(r.0.attempts@) == image_ladder(size as int, max_upload_bytes as int),
            r.0.is_step(r.1),
    {
        let walk = ImageWalk { attempts: image_attempts(size, max_upload_bytes), at: 0 };
        let step = walk.step();
        (walk, step)
    }

    fn step(&self) -> (step: ImageStep)
        requires
            self.wf(),
        ensures
            self.is_step(step),
    {
        if self.at < self.attempts.len() {
            ImageStep::Attempt { attempt: self.attempts[self.at] }
        } else {
            ImageStep::Exhausted { error: image_exhausted() }
        }
    }

    /// Judge an attempt: `output_size` is nothing where it failed. An output
    /// within the limit is accepted; else the next compression is up, and the
    /// output is to be removed.
    pub fn on_attempt(&mut self, output_size: Option<u64>, max_upload_bytes: u64) -> (step: ImageStep)
        requires
            old(self).at < old(self).attempts@.len(),
        ensures
            final(self).wf(),
            final(self).attempts@ == old(self).attempts@,
            match output_size {
                Some(size) if size <= max_upload_bytes => step == (ImageStep::Accept { size })
                    && final(self).at == old(self).at,
                _ => final(self).at == old(self).at + 1 && final(self).is_step(step),
            },
    {
        if let Some(size) = output_size {
            if size <= max_upload_bytes {
                return ImageStep::Accept { size };
            }
        }
        if self.at < self.attempts.len() {
            self.at = self.at + 1;
        }
        self.step()
    }
}

/// The error once no attempt gave a small enough image.
pub fn image_exhausted() -> (e: Error)
    ensures
        is_transcode_error(e, TranscodeStage::ImageCompress, "could not compress image"@),
{
    transcode_error(TranscodeStage::ImageCompress, "could not compress image")
}

// ---------------------------------------------------------------------------
// Names
// ---------------------------------------------------------------------------
pub fn remux_file_name(stem: &str) -> (s: String)
    ensures
        s@ == stem@ + "_remux.mp4"@,
{
    let mut s = stem.to_owned();
    s.append("_remux.mp4");
    s
}

pub fn transcode_file_name(stem: &str) -> (s: String)
    ensures
        s@ == stem@ + "_transcode.mp4"@,
{
    let mut s = stem.to_owned();
    s.append("_transcode.mp4");
    s
}

/// What the names of a file's segments begin with.
pub fn segment_prefix(stem: &str) -> (s: String)
    ensures
        s@ == stem@ + "_seg"@,
{
    let mut s = stem.to_owned();
    s.append("_seg");
    s
}

pub open spec fn segment_name(stem: Seq<char>, index: nat) -> Seq<char> {
    stem + "_seg"@ + padded_decimal(index, 3) + ".mp4"@
}

pub fn segment_file_name(stem: &str, index: usize) -> (s: String)
    ensures
        s@ == segment_name(stem@, index as nat),
{
    let mut s = segment_prefix(stem);
    s.append(padded_decimal_of(index as u64, 3).as_str());
    s.append(".mp4");
    s
}

/// Whether a file is one of the segments with a prefix.
pub fn is_segment_file(name: &str, prefix: &str) -> (r: bool)
    ensures
        r == (starts_with(name@, prefix@) && ends_with(name@, ".mp4"@)),
{
    str_starts_with(name, prefix) && str_ends_with(name, ".mp4")
}

/// Cleaning up by prefix finds every segment of the file.
pub proof fn lemma_cleanup_finds_segments(stem: Seq<char>, index: nat)
    ensures
        starts_with(segment_name(stem, index), stem + "_seg"@),
        ends_with(segment_name(stem, index), ".mp4"@),
{
    let name = segment_name(stem, index);
    let prefix = stem + "_seg"@;
    assert(name.take(prefix.len() as int) =~= prefix);
    assert(name.skip(name.len() - ".mp4"@.len()) =~= ".mp4"@);
}

// ---------------------------------------------------------------------------
// Splitting
// ---------------------------------------------------------------------------
/// The settings of a split: Quick Sync does not hold low bitrates, so software
/// encodes those.
pub fn split_transcode_settings(settings: &TranscodeSettings, segment_params: &BitrateParams) -> (r:
    TranscodeSettings)
    ensures
        settings.hardware_acceleration == HardwareAcceleration::Qsv
            && segment_params.video_bitrate_kbps < settings.min_bitrate_kbps ==> r == (
        TranscodeSettings { hardware_acceleration: HardwareAcceleration::Software, ..*settings }),
        !(settings.hardware_acceleration == HardwareAcceleration::Qsv
            && segment_params.video_bitrate_kbps < settings.min_bitrate_kbps) ==> r == *settings,
{
    let mut split_settings = settings.duplicate();
    if settings.hardware_acceleration == HardwareAcceleration::Qsv
        && segment_params.video_bitrate_kbps < settings.min_bitrate_kbps {
        split_settings.hardware_acceleration = HardwareAcceleration::Software;
    }
    split_settings
}

/// Whether segments are encoded side by side: more than one may be, and there
/// are enough of them.
pub fn split_parallel_is_plausible(
    num_segments: u32,
    effective_transcode_concurrency: u32,
    config: &EngineSettings,
) -> (r: bool)
    ensures
        r == (effective_transcode_concurrency > 1 && num_segments
            >= config.pipeline.parallel_segment_threshold),
{
    effective_transcode_concurrency > 1 && num_segments
        >= config.pipeline.parallel_segment_threshold
}

/// Whether a split runs in parallel. Software encodes take all processors, so
/// only a device encodes several segments at once.
pub fn use_parallel_split(
    settings: &TranscodeSettings,
    estimated_segments: u32,
    effective_transcode_concurrency: u32,
    config: &EngineSettings,
) -> (r: bool)
    ensures
        r == (settings.hardware_acceleration != HardwareAcceleration::Software
            && effective_transcode_concurrency > 1 && estimated_segments
            >= config.pipeline.parallel_segment_threshold),
{
    let concurrency: u32 = if settings.hardware_acceleration.is_hardware() {
        effective_transcode_concurrency
    } else {
        1
    };
    split_parallel_is_plausible(estimated_segments, concurrency, config)
}

/// What became of an attempt to queue a progress update.
#[derive(Debug, Clone, Copy, PartialEq, Eq, Structural)]
pub enum QueueState {
    Accepted,
    Closed,
    Full,
}

/// What to do about it.
#[derive(Debug, Clone, Copy, PartialEq, Eq, Structural)]
pub enum ProgressSend {
    /// Nothing more.
    Done,
    /// Let the update go.
    Drop,
    /// Wait for room in the background.
    SendLater,
}

/// Updates are let go while the queue is full, but the last one of a
/// transcode is not.
pub fn progress_send(stage: &Progress, state: QueueState) -> (r: ProgressSend)
    ensures
        state == QueueState::Accepted ==> r == ProgressSend::Done,
        state == QueueState::Closed ==> r == ProgressSend::Drop,
        state == QueueState::Full ==> r == (if *stage matches Progress::Transcoding(done, total)
            && done >= total {
            ProgressSend::SendLater
        } else {
            ProgressSend::Drop
        }),
{
    match state {
        QueueState::Accepted => ProgressSend::Done,
        QueueState::Closed => ProgressSend::Drop,
        QueueState::Full => {
            if stage.is_terminal_transcoding() {
                ProgressSend::SendLater
            } else {
                ProgressSend::Drop
            }
        },
    }
}

/// Progress of a split into a number of segments.
#[derive(Debug, Clone, Copy)]
pub struct SplitTranscodeProgress {
    pub total_segments: usize,
}

impl SplitTranscodeProgress {
    pub fn new(total_segments: usize) -> (r: Self)
        ensures
            r.total_segments == (if total_segments == 0 {
                1
            } else {
                total_segments
            }),
    {
        SplitTranscodeProgress {
            total_segments: if total_segments == 0 {
                1
            } else {
                total_segments
            },
        }
    }

    pub fn start(&self) -> (p: Progress)
        ensures
            p == Progress::Transcoding(0, self.total_segments),
    {
        Progress::Transcoding(0, self.total_segments)
    }

    /// The last update counts the segments that really came out.
    pub fn finish_with_actual_total(&self, actual_segments: usize) -> (p: Progress)
        ensures
            p == (if actual_segments == 0 {
                Progress::Transcoding(1, 1)
            } else {
                Progress::Transcoding(actual_segments, actual_segments)
            }),
    {
        let n: usize = if actual_segments == 0 {
            1
        } else {
            actual_segments
        };
        Progress::Transcoding(n, n)
    }
}

/// One encoded segment.
#[derive(Debug)]
pub struct SegmentOutput {
    pub path: String,
    pub size: u64,
}

pub open spec fn all_fit(segments: Seq<SegmentOutput>, limit: u64) -> bool {
    forall|i: int| 0 <= i < segments.len() ==> (#[trigger] segments[i]).size <= limit
}

pub fn segments_fit_limit(segments: &Vec<SegmentOutput>, config: &EngineSettings) -> (r: bool)
    ensures
        r == all_fit(segments@, config.transcode.max_upload_bytes),
{
    let mut i: usize = 0;
    while i < segments.len()
        invariant
            i <= segments@.len(),
            forall|j: int|
                0 <= j < i ==> (#[trigger] segments@[j]).size <= config.transcode.max_upload_bytes,
        decreases segments@.len() - i,
    {
        if segments[i].size > config.transcode.max_upload_bytes {
            return false;
        }
        i = i + 1;
    }
    true
}

/// The parts made of segments: same paths and sizes, same order.
pub open spec fn parts_of(parts: Seq<PreparedPart>, segments: Seq<SegmentOutput>) -> bool {
    &&& parts.len() == segments.len()
    &&& forall|i: int|
        0 <= i < parts.len() ==> #[trigger] parts[i] == (PreparedPart {
            path: segments[i].path,
            size: segments[i].size,
            upload_ready_bytes: None,
        })
}

/// Turn segments into parts.
pub fn into_prepared_parts(segments: Vec<SegmentOutput>) -> (parts: Vec<PreparedPart>)
    ensures
        parts_of(parts@, segments@),
{
    let mut parts: Vec<PreparedPart> = Vec::new();
    for segment in it: segments
        invariant
            it.seq() == segments@,
            parts@.len() == it.index(),
            forall|i: int|
                0 <= i < parts@.len() ==> #[trigger] parts@[i] == (PreparedPart {
                    path: segments@[i].path,
                    size: segments@[i].size,
                    upload_ready_bytes: None,
                }),
    {
        parts.push(PreparedPart::new(segment.path, segment.size));
    }
    parts
}

/// Accept the segments of a split where each fits the limit; else they are to
/// be removed.
pub fn ensure_split_segments_fit_limit(segments: Vec<SegmentOutput>, config: &EngineSettings) -> (r:
    Result<PreparedUpload, Error>)
    ensures
        r is Ok <==> all_fit(segments@, config.transcode.max_upload_bytes),
        r matches Ok(upload) ==> (upload matches PreparedUpload::Split { parts } && parts_of(
            parts@,
            segments@,
        )),
        r matches Ok(upload) ==> upload.fits(config.transcode.max_upload_bytes),
        r matches Err(e) ==> is_transcode_error(
            e,
            TranscodeStage::Split,
            "split segment exceeded upload limit"@,
        ),
{
    if segments_fit_limit(&segments, config) {
        let parts = into_prepared_parts(segments);
        return Ok(PreparedUpload::split(parts));
    }
    Err(transcode_error(TranscodeStage::Split, "split segment exceeded upload limit"))
}

/// A split that encodes one segment after the other.
#[derive(Debug)]
pub struct SerialSplit {
    pub total: u32,
    pub segments: Vec<SegmentOutput>,
}

impl SerialSplit {
    pub open spec fn wf(&self) -> bool {
        &&& self.segments@.len() <= self.total
        &&& forall|i: int| 0 <= i < self.segments@.len() ==> (#[trigger] self.segments@[i]).size > 0
    }

    pub fn new(total: u32) -> (r: Self)
        ensures
            r.wf(),
            r.total == total,
            r.segments@ == Seq::<SegmentOutput>::empty(),
    {
        SerialSplit { total, segments: Vec::new() }
    }

    /// The segment to encode next, while there is one.
    pub fn next_index(&self) -> (r: Option<u32>)
        requires
            self.wf(),
        ensures
            r == (if self.segments@.len() < self.total {
                Some(self.segments@.len() as u32)
            } else {
                None
            }),
    {
        if self.segments.len() < self.total as usize {
            Some(self.segments.len() as u32)
        } else {
            None
        }
    }

    /// Take in an encoded segment. An empty one fails the split; what was
    /// written is then to be removed.
    pub fn on_segment(&mut self, path: String, size: u64) -> (r: Result<Progress, Error>)
        requires
            old(self).wf(),
            old(self).segments@.len() < old(self).total,
        ensures
            final(self).wf(),
            final(self).total == old(self).total,
            size == 0 ==> r is Err && is_transcode_error(
                r->Err_0,
                TranscodeStage::Split,
                "split produced an empty segment"@,
            ) && final(self).segments@ == old(self).segments@,
            size > 0 ==> final(self).segments@ == old(self).segments@.push(
                SegmentOutput { path, size },
            ) && r == Ok::<Progress, Error>(
                Progress::Transcoding(
                    (old(self).segments@.len() + 1) as usize,
                    old(self).total as usize,
                ),
            ),
    {
        if size == 0 {
            return Err(transcode_error(TranscodeStage::Split, "split produced an empty segment"));
        }
        self.segments.push(SegmentOutput { path, size });
        Ok(Progress::Transcoding(self.segments.len(), self.total as usize))
    }

    /// Put the split together: there must be segments, and each must fit.
    pub fn finish(self, config: &EngineSettings) -> (r: Result<PreparedUpload, Error>)
        ensures
            self.segments@.len() == 0 ==> r is Err && is_transcode_error(
                r->Err_0,
                TranscodeStage::Split,
                "split produced no segments"@,
            ),
            self.segments@.len() > 0 ==> (r is Ok <==> all_fit(
                self.segments@,
                config.transcode.max_upload_bytes,
            )),
            r matches Ok(upload) ==> (upload matches PreparedUpload::Split { parts } && parts_of(
                parts@,
                self.segments@,
            )),
            r matches Ok(upload) ==> upload.fits(config.transcode.max_upload_bytes),
            self.segments@.len() > 0 && r is Err ==> is_transcode_error(
                r->Err_0,
                TranscodeStage::Split,
                "split segment exceeded upload limit"@,
            ),
    {
        if self.segments.len() == 0 {
            return Err(transcode_error(TranscodeStage::Split, "split produced no segments"));
        }
        ensure_split_segments_fit_limit(self.segments, config)
    }
}

/// The segments of all slots, in order; each slot must hold one.
fn collect_slots(slots: Vec<Option<SegmentOutput>>) -> (r: Result<Vec<SegmentOutput>, Error>)
    ensures
        r is Ok <==> forall|i: int| 0 <= i < slots@.len() ==> (#[trigger] slots@[i]) is Some,
        r matches Ok(v) ==> v@.len() == slots@.len() && forall|i: int|
            0 <= i < slots@.len() ==> #[trigger] slots@[i] == Some(v@[i]),
        r matches Err(e) ==> is_transcode_error(
            e,
            TranscodeStage::Split,
            "parallel split finished with missing segment"@,
        ),
{
    let mut segments: Vec<SegmentOutput> = Vec::new();
    for slot in it: slots
        invariant
            it.seq() == slots@,
            segments@.len() == it.index(),
            forall|i: int|
                0 <= i < segments@.len() ==> #[trigger] slots@[i] == Some(segments@[i]),
    {
        match slot {
            Some(segment) => {
                segments.push(segment);
            },
            None => {
                assert(slots@[it.index() as int] is None);
                return Err(
                    transcode_error(
                        TranscodeStage::Split,
                        "parallel split finished with missing segment",
                    ),
                );
            },
        }
    }
    Ok(segments)
}

/// A split that encodes several segments at once.
///
/// Segments are started in order, no more than `max_active` at a time. `slots`
/// hold the results by segment.
#[derive(Debug)]
pub struct ParallelSplit {
    pub total: usize,
    pub max_active: usize,
    pub next: usize,
    pub active: usize,
    pub finished: usize,
    pub slots: Vec<Option<SegmentOutput>>,
}

impl ParallelSplit {
    pub open spec fn wf(&self) -> bool {
        &&& self.slots@.len() == self.total
        &&& self.max_active >= 1
        &&& self.next <= self.total
        &&& self.active <= self.max_active
        &&& self.active + self.finished == self.next
        &&& forall|i: int| self.next <= i < self.total ==> (#[trigger] self.slots@[i]) is None
    }

    pub fn new(total: usize, concurrency: u32) -> (r: Self)
        ensures
            r.wf(),
            r.total == total,
            r.max_active == (if concurrency == 0 {
                1
            } else {
                concurrency as int
            }),
            r.next == 0,
            r.active == 0,
            r.finished == 0,
            forall|i: int| 0 <= i < total ==> (#[trigger] r.slots@[i]) is None,
    {
        let mut slots: Vec<Option<SegmentOutput>> = Vec::new();
        let mut i: usize = 0;
        while i < total
            invariant
                i <= total,
                slots@.len() == i,
                forall|j: int| 0 <= j < i ==> (#[trigger] slots@[j]) is None,
            decreases total - i,
        {
            slots.push(None);
            i = i + 1;
        }
        ParallelSplit {
            total,
            max_active: if concurrency == 0 {
                1
            } else {
                concurrency as usize
            },
            next: 0,
            active: 0,
            finished: 0,
            slots,
        }
    }

    /// The segment to start now, while there is room and one is left. Called
    /// until it gives nothing, it fills the room.
    pub fn start_next(&mut self) -> (r: Option<usize>)
        requires
            old(self).wf(),
        ensures
            final(self).wf(),
            final(self).total == old(self).total,
            final(self).max_active == old(self).max_active,
            final(self).finished == old(self).finished,
            final(self).slots@ == old(self).slots@,
            r is Some <==> old(self).next < old(self).total && old(self).active < old(
                self,
            ).max_active,
            r matches Some(index) ==> index == old(self).next && final(self).next == old(self).next
                + 1 && final(self).active == old(self).active + 1,
            r is None ==> *final(self) == *old(self),
    {
        if self.next < self.total && self.active < self.max_active {
            let index: usize = self.next;
            self.next = self.next + 1;
            self.active = self.active + 1;
            Some(index)
        } else {
            None
        }
    }

    /// Take in a finished segment.
    pub fn on_segment(&mut self, index: usize, segment: SegmentOutput) -> (r: Result<Progress, Error>)
        requires
            old(self).wf(),
            old(self).active > 0,
            index < old(self).next || index >= old(self).total,
        ensures
            index >= old(self).total ==> r is Err && is_transcode_error(
                r->Err_0,
                TranscodeStage::Split,
                "parallel split reported an out-of-range segment"@,
            ) && *final(self) == *old(self),
            index < old(self).total ==> final(self).wf() && final(self).total == old(self).total
                && final(self).max_active == old(self).max_active && final(self).next == old(
                self,
            ).next && final(self).active == old(self).active - 1 && final(self).finished == old(
                self,
            ).finished + 1 && final(self).slots@ == old(self).slots@.update(
                index as int,
                Some(segment),
            ) && r == Ok::<Progress, Error>(
                Progress::Transcoding((old(self).finished + 1) as usize, old(self).total),
            ),
    {
        if index >= self.total {
            return Err(
                transcode_error(
                    TranscodeStage::Split,
                    "parallel split reported an out-of-range segment",
                ),
            );
        }
        self.slots.set(index, Some(segment));
        self.active = self.active - 1;
        self.finished = self.finished + 1;
        Ok(Progress::Transcoding(self.finished, self.total))
    }

    /// Whether every segment has come in.
    pub fn is_finished(&self) -> (r: bool)
        ensures
            r == (self.finished >= self.total),
    {
        self.finished >= self.total
    }

    /// Put the split together, in the order of the segments.
    pub fn finish(self, config: &EngineSettings) -> (r: Result<PreparedUpload, Error>)
        requires
            self.wf(),
        ensures
            r is Ok <==> (forall|i: int|
                0 <= i < self.total ==> ((#[trigger] self.slots@[i]) matches Some(s) && s.size
                    <= config.transcode.max_upload_bytes)),
            r matches Ok(upload) ==> (upload matches PreparedUpload::Split { parts } && parts@.len()
                == self.total && forall|i: int|
                0 <= i < self.total ==> #[trigger] parts@[i] == (PreparedPart {
                    path: self.slots@[i]->0.path,
                    size: self.slots@[i]->0.size,
                    upload_ready_bytes: None,
                })),
            r matches Ok(upload) ==> upload.fits(config.transcode.max_upload_bytes),
            (exists|i: int| 0 <= i < self.total && (#[trigger] self.slots@[i]) is None) ==> r is Err
                && is_transcode_error(
                r->Err_0,
                TranscodeStage::Split,
                "parallel split finished with missing segment"@,
            ),
            r is Err && (forall|i: int| 0 <= i < self.total ==> (#[trigger] self.slots@[i]) is Some)
                ==> is_transcode_error(
                r->Err_0,
                TranscodeStage::Split,
                "split segment exceeded upload limit"@,
            ),
    {
        let segments = match collect_slots(self.slots) {
            Ok(segments) => segments,
            Err(e) => {
                return Err(e);
            },
        };
        proof {
            let all = self.slots@;
            let limit = config.transcode.max_upload_bytes;
            if all_fit(segments@, limit) {
                assert forall|i: int| 0 <= i < all.len() implies ((#[trigger] all[i]) matches Some(s)
                    && s.size <= limit) by {
                    assert(segments@[i].size <= limit);
                }
            } else {
                let bad = choose|i: int|
                    0 <= i < segments@.len() && (#[trigger] segments@[i]).size > limit;
                assert(all[bad] == Some(segments@[bad]));
            }
        }
        ensure_split_segments_fit_limit(segments, config)
    }
}

/// A segment task that did not come back fails the split.
pub fn segment_task_error(cause: &str) -> (e: Error)
    ensures
        is_transcode_error(e, TranscodeStage::Split, "segment task panicked: "@ + cause@),
{
    let mut text = "segment task panicked: ".to_owned();
    text.append(cause);
    transcode_error(TranscodeStage::Split, text.as_str())
}

// ---------------------------------------------------------------------------
// Falling back to software
// ---------------------------------------------------------------------------
/// How an encode went.
#[derive(Debug, Clone, Copy)]
pub struct TranscodeOutcome {
    pub encoder_used: &'static str,
    pub backend_used: HardwareAcceleration,
    pub used_hardware: bool,
    pub fallback_occurred: bool,
    pub duration_ms: u64,
}

impl TranscodeOutcome {
    pub fn new(backend_used: HardwareAcceleration, fallback_occurred: bool, duration_ms: u64) -> (r:
        Self)
        ensures
            r.encoder_used@ == backend_used.encoder_name(),
            r.backend_used == backend_used,
            r.used_hardware == (backend_used != HardwareAcceleration::Software),
            r.fallback_occurred == fallback_occurred,
            r.duration_ms == duration_ms,
    {
        TranscodeOutcome {
            encoder_used: backend_used.encoder(),
            backend_used,
            used_hardware: backend_used.is_hardware(),
            fallback_occurred,
            duration_ms,
        }
    }
}

/// Whether error output speaks of hardware acceleration.
pub open spec fn names_acceleration(stderr: Seq<char>) -> bool {
    let s = lower(stderr);
    ||| contains(s, "vaapi"@)
    ||| contains(s, "nvenc"@)
    ||| contains(s, "videotoolbox"@)
    ||| contains(s, "cuda"@)
    ||| contains(s, "hwaccel"@)
}

pub fn mentions_acceleration(stderr: &str) -> (r: bool)
    ensures
        r == names_acceleration(stderr@),
{
    let s = lower_str(stderr);
    str_contains(s.as_str(), "vaapi") || str_contains(s.as_str(), "nvenc") || str_contains(
        s.as_str(),
        "videotoolbox",
    ) || str_contains(s.as_str(), "cuda") || str_contains(s.as_str(), "hwaccel")
}

/// Whether a failed encode is worth a retry in software.
pub open spec fn retry_in_software(error: Error, backend: HardwareAcceleration) -> bool {
    backend != HardwareAcceleration::Software && (error matches Error::TranscodeFailed {
        stderr_tail,
        ..
    } && names_acceleration(stderr_tail@))
}

pub fn should_retry_with_software(error: &Error, backend: HardwareAcceleration) -> (r: bool)
    ensures
        r == retry_in_software(*error, backend),
{
    if !backend.is_hardware() {
        return false;
    }
    match error {
        Error::TranscodeFailed { stderr_tail, .. } => mentions_acceleration(stderr_tail.as_str()),
        _ => false,
    }
}

/// The settings of one attempt: software that was asked for stays software,
/// else the backend in use counts.
pub open spec fn attempt_settings(base: TranscodeSettings, active: HardwareAcceleration) -> TranscodeSettings {
    if base.hardware_acceleration == HardwareAcceleration::Software {
        base
    } else {
        TranscodeSettings { hardware_acceleration: active, ..base }
    }
}

pub fn encode_settings_for_attempt(
    base_settings: &TranscodeSettings,
    transcode_runtime: &TranscodeRuntime,
) -> (r: TranscodeSettings)
    ensures
        r == attempt_settings(*base_settings, transcode_runtime.active),
{
    if !base_settings.hardware_acceleration.is_hardware() {
        return base_settings.duplicate();
    }
    transcode_runtime.effective_settings(base_settings)
}

/// What is left of a time limit; nothing once it is used up.
pub fn remaining_timeout_budget(elapsed_ms: u64, timeout_ms: u64) -> (r: Option<u64>)
    ensures
        r == (if elapsed_ms <= timeout_ms {
            Some((timeout_ms - elapsed_ms) as u64)
        } else {
            None
        }),
{
    timeout_ms.checked_sub(elapsed_ms)
}

/// What to do after a failed first attempt.
#[derive(Debug)]
pub enum AfterFailure {
    /// Try once more with these settings, within this time.
    Retry { settings: TranscodeSettings, timeout_ms: u64 },
    /// Report the failure.
    GiveUp,
}

/// Decide on a failed attempt.
///
/// A failure of the device switches all further encodes to software. The retry
/// gets what is left of the time limit.
pub fn after_failed_attempt(
    error: &Error,
    attempted: HardwareAcceleration,
    base_settings: &TranscodeSettings,
    runtime: &mut TranscodeRuntime,
    elapsed_ms: u64,
    timeout_ms: u64,
) -> (r: AfterFailure)
    requires
        old(runtime).wf(),
    ensures
        final(runtime).wf(),
        !retry_in_software(*error, attempted) ==> r is GiveUp && *final(runtime) == *old(runtime),
        retry_in_software(*error, attempted) ==> ({
            &&& final(runtime).active == (if old(runtime).configured
                != HardwareAcceleration::Software {
                HardwareAcceleration::Software
            } else {
                old(runtime).active
            })
            &&& *final(runtime) == (if old(runtime).configured != HardwareAcceleration::Software
                && old(runtime).active != HardwareAcceleration::Software {
                TranscodeRuntime {
                    active: HardwareAcceleration::Software,
                    transitions: 1,
                    ..*old(runtime)
                }
            } else {
                *old(runtime)
            })
            &&& elapsed_ms <= timeout_ms ==> r == (AfterFailure::Retry {
                settings: attempt_settings(*base_settings, final(runtime).active),
                timeout_ms: (timeout_ms - elapsed_ms) as u64,
            })
            &&& elapsed_ms > timeout_ms ==> r is GiveUp
        }),
{
    if !should_retry_with_software(error, attempted) {
        return AfterFailure::GiveUp;
    }
    let _ = runtime.activate_software_fallback();
    let settings = encode_settings_for_attempt(base_settings, runtime);
    match remaining_timeout_budget(elapsed_ms, timeout_ms) {
        Some(left) => AfterFailure::Retry { settings, timeout_ms: left },
        None => AfterFailure::GiveUp,
    }
}

/// Record how an encode went.
pub fn record_transcode_outcome(runtime: &mut TranscodeRuntime, outcome: &TranscodeOutcome)
    ensures
        outcome.used_hardware ==> *final(runtime) == (TranscodeRuntime {
            hw_encodes: old(runtime).hw_encodes.plus(outcome.duration_ms),
            ..*old(runtime)
        }),
        !outcome.used_hardware ==> *final(runtime) == (TranscodeRuntime {
            sw_encodes: old(runtime).sw_encodes.plus(outcome.duration_ms),
            ..*old(runtime)
        }),
{
    runtime.record_encode(outcome.used_hardware, outcome.duration_ms);
}

// ---------------------------------------------------------------------------
// What is tried
// ---------------------------------------------------------------------------
/// A copy is planned where the streams fit MP4 or are not known and the file is
/// no MP4; an encode of the whole file where its bitrate is high enough, a
/// second one where it is smaller; a split where there is a plan for one. The
/// cheaper is tried first.
pub proof fn lemma_strategies_have_their_reasons(
    facts: MediaFacts,
    single: Option<BitrateParams>,
    split: Option<SplitTranscodePlan>,
    balanced_height: Option<u32>,
    aggressive_height: Option<u32>,
    config: EngineSettings,
)
    ensures
        ({
            let order = strategy_order(
                facts,
                single,
                split,
                balanced_height,
                aggressive_height,
                config,
            );
            let whole = single is Some && single->0.video_bitrate_kbps
                >= config.transcode.min_bitrate_kbps;
            let rank = |s: TranscodeStrategy|
                match s {
                    TranscodeStrategy::PassThrough => 0int,
                    TranscodeStrategy::Remux => 1,
                    TranscodeStrategy::TranscodeBalanced => 2,
                    TranscodeStrategy::TranscodeAggressive => 3,
                    TranscodeStrategy::SplitTranscode => 4,
                    TranscodeStrategy::ImageCompress => 5,
                };
            &&& order.contains(TranscodeStrategy::Remux) <==> !(facts.container
                == MediaContainer::Mp4 || facts.container == MediaContainer::Mov) && (
            facts.video_codec == VideoCodec::Other || facts.audio_codec == AudioCodec::Other || (
            facts.video_codec == VideoCodec::H264 && (facts.audio_codec == AudioCodec::Aac
                || facts.audio_codec == AudioCodec::Absent)))
            &&& order.contains(TranscodeStrategy::TranscodeBalanced) <==> whole
            &&& order.contains(TranscodeStrategy::TranscodeAggressive) <==> whole
                && aggressive_height != balanced_height
            &&& order.contains(TranscodeStrategy::SplitTranscode) <==> split is Some
            &&& !order.contains(TranscodeStrategy::PassThrough)
            &&& !order.contains(TranscodeStrategy::ImageCompress)
            &&& forall|i: int, j: int|
                0 <= i < j < order.len() ==> rank(#[trigger] order[i]) < rank(#[trigger] order[j])
        }),
{
    let order = strategy_order(facts, single, split, balanced_height, aggressive_height, config);
    let a: int = if remux_plausible(facts) { 1 } else { 0 };
    if a == 1 {
        assert(order[0] == TranscodeStrategy::Remux);
    }
    let b: int = if !single_plausible(single, config) {
        0
    } else if aggressive_height != balanced_height {
        2
    } else {
        1
    };
    if b > 0 {
        assert(order[a] == TranscodeStrategy::TranscodeBalanced);
    }
    if b > 1 {
        assert(order[a + 1] == TranscodeStrategy::TranscodeAggressive);
    }
    if split is Some {
        assert(order[a + b] == TranscodeStrategy::SplitTranscode);
    }
}

/// A walk tries the planned strategies in their order and then gives up.
pub proof fn lemma_walk_tries_each_in_order(
    walk: StrategyWalk,
    order: Seq<TranscodeStrategy>,
    step: LadderStep,
)
    requires
        slots_hold(walk.plan.strategies@, order),
        walk.is_step(step),
        walk.at <= order.len(),
    ensures
        step matches LadderStep::Attempt { strategy } ==> walk.at < order.len() && strategy
            == order[walk.at as int],
        step is Exhausted <==> walk.at == order.len(),
{
}

/// A file is never made taller, without a bitrate it is made small, and the
/// thriftiest preset shrinks whatever it can.
pub proof fn lemma_encodes_never_grow(
    params: Option<BitrateParams>,
    source: Option<(u32, u32)>,
    preset: QualityPreset,
)
    ensures
        params is None ==> predicted_height(params, source, preset) == Some(360u32),
        params is Some && source is Some ==> (predicted_height(params, source, preset) matches Some(
            h,
        ) ==> h < (source->0).1),
        params is Some && source is Some && preset != QualityPreset::Size ==> predicted_height(
            params,
            source,
            preset,
        ) == recommended(Some((source->0).1), params->0.video_bitrate_kbps, preset),
        params is Some && source is Some && preset == QualityPreset::Size && downshifted(
            (source->0).1,
            2,
        ) < (source->0).1 ==> predicted_height(params, source, preset) is Some,
        params is Some && source is None ==> predicted_height(params, source, preset)
            == recommended(None, params->0.video_bitrate_kbps, preset),
{
    if params is Some && source is Some {
        lemma_never_upscales((source->0).1, params->0.video_bitrate_kbps, preset);
    }
}

/// The free space asked for holds the minimum and two copies of the file, and
/// is no larger, as far as a number can say.
pub proof fn lemma_room_holds_two_copies(min_space: u64, size: u64)
    ensures
        room_for(min_space, size) <= min_space + size + size,
        room_for(min_space, size) < min_space + size + size ==> room_for(min_space, size)
            == u64::MAX,
{
}

/// The attempts on a picture go through each scale with each quality, from the
/// gentlest on: the file is the smaller the later the attempt, and a larger
/// file starts with less.
pub proof fn lemma_picture_attempts_are_a_grid(size: nat, limit: nat)
    ensures
        ({
            let attempts = image_ladder(size as int, limit as int);
            let none: Option<Seq<char>> = None;
            if size * 10 < limit * 12 {
                &&& attempts.len() == 2
                &&& forall|i: int|
                    0 <= i < 2 ==> #[trigger] attempts[i] == (seq![85u32, 75][i], none)
            } else if size < limit + limit {
                &&& attempts.len() == 6
                &&& forall|i: int|
                    0 <= i < 6 ==> #[trigger] attempts[i] == (
                        seq![75u32, 65, 50][i % 3],
                        seq![none, Some("0.85"@)][i / 3],
                    )
            } else {
                &&& attempts.len() == 9
                &&& forall|i: int|
                    0 <= i < 9 ==> #[trigger] attempts[i] == (
                        seq![65u32, 50, 35][i % 3],
                        seq![Some("0.85"@), Some("0.65"@), Some("0.5"@)][i / 3],
                    )
            }
        }),
{
}

/// A picture keeps its format, whatever the case of its extension; what has
/// none of the known ones becomes a JPEG.
pub proof fn lemma_pictures_keep_their_format(ext: Option<Seq<char>>)
    ensures
        image_format(Some(image_format(ext))) == image_format(ext),
        ext matches Some(e) ==> image_format(Some(lower(e))) == image_format(ext),
        ext matches Some(e) ==> ((lower(e) == "png"@ || lower(e) == "webp"@ || lower(e) == "gif"@
            || lower(e) == "jpg"@) <==> image_format(ext) == lower(e)),
        image_format(ext) == "png"@ || image_format(ext) == "webp"@ || image_format(ext) == "gif"@
            || image_format(ext) == "jpg"@,
        ext is None ==> image_format(ext) == "jpg"@,
{
    reveal_strlit("png");
    reveal_strlit("webp");
    reveal_strlit("gif");
    reveal_strlit("jpg");
    assert("png"@.len() == 3);
    assert("webp"@.len() == 4);
    assert("gif"@.len() == 3);
    assert("jpg"@.len() == 3);
    assert("png"@[0] != "gif"@[0]);
    assert("png"@[0] != "jpg"@[0]);
    assert("gif"@[0] != "jpg"@[0]);
    if let Some(e) = ext {
        assert(lower(lower(e)) =~= lower(e));
    }
    assert(lower("png"@) =~= "png"@);
    assert(lower("webp"@) =~= "webp"@);
    assert(lower("gif"@) =~= "gif"@);
    assert(lower("jpg"@) =~= "jpg"@);
}

/// A picture is read from its input, written to its output with the attempt's
/// quality, and scaled by the attempt's factor on both sides.
pub proof fn lemma_picture_command_follows_attempt(
    input: Seq<char>,
    output: Seq<char>,
    quality: u32,
    scale: Option<Seq<char>>,
)
    ensures
        ({
            let args = image_list(input, output, (quality, scale));
            &&& sets(args, "-i"@, input)
            &&& sets(args, "-q:v"@, decimal(quality as nat))
            &&& args.last() == output
            &&& scale matches Some(f) ==> sets(args, "-vf"@, "scale=iw*"@ + f + ":ih*"@ + f)
            &&& scale is None ==> args.len() == 6
        }),
{
    let args = image_list(input, output, (quality, scale));
    assert(option_at(args, 1, "-i"@, input));
    if scale is Some {
        assert(option_at(args, 3, "-vf"@, "scale=iw*"@ + scale->0 + ":ih*"@ + scale->0));
        assert(option_at(args, 5, "-q:v"@, decimal(quality as nat)));
    } else {
        assert(option_at(args, 3, "-q:v"@, decimal(quality as nat)));
    }
}

/// Segments of one file have different names.
pub proof fn lemma_segments_have_distinct_names(stem: Seq<char>, a: nat, b: nat)
    requires
        segment_name(stem, a) == segment_name(stem, b),
    ensures
        a == b,
{
    reveal_strlit("_seg");
    reveal_strlit(".mp4");
    lemma_padded_decimal_value(a, 3);
    lemma_padded_decimal_value(b, 3);
    let x = segment_name(stem, a);
    let n = stem.len() as int + 4;
    assert(x.subrange(n, x.len() - 4) =~= padded_decimal(a, 3));
    assert(segment_name(stem, b).subrange(n, x.len() - 4) =~= padded_decimal(b, 3));
}

/// A failure is blamed on a device where one of five words stands in its
/// output, whatever their case; then and only then is it tried in software, and
/// software itself never is.
pub proof fn lemma_devices_are_blamed_by_name(error: Error, backend: HardwareAcceleration)
    ensures
        ({
            let blames = |text: Seq<char>|
                holds_within(lower(text), "vaapi"@)
                    || holds_within(lower(text), "nvenc"@)
                    || holds_within(lower(text), "videotoolbox"@)
                    || holds_within(lower(text), "cuda"@)
                    || holds_within(lower(text), "hwaccel"@);
            retry_in_software(error, backend) <==> backend != HardwareAcceleration::Software && (
            error matches Error::TranscodeFailed { stderr_tail, .. } && blames(stderr_tail@))
        }),
        !retry_in_software(error, HardwareAcceleration::Software),
{
    if let Error::TranscodeFailed { stderr_tail, .. } = error {
        let s = lower(stderr_tail@);
        lemma_contains_is_within(s, "vaapi"@);
        lemma_contains_is_within(s, "nvenc"@);
        lemma_contains_is_within(s, "videotoolbox"@);
        lemma_contains_is_within(s, "cuda"@);
        lemma_contains_is_within(s, "hwaccel"@);
    }
}

/// An attempt runs on the device in use unless software was asked for, and
/// changes nothing else.
pub proof fn lemma_attempts_run_on_the_device_in_use(
    base: TranscodeSettings,
    active: HardwareAcceleration,
)
    ensures
        attempt_settings(base, active).hardware_acceleration == (if base.hardware_acceleration
            == HardwareAcceleration::Software {
            HardwareAcceleration::Software
        } else {
            active
        }),
        (TranscodeSettings {
            hardware_acceleration: base.hardware_acceleration,
            ..attempt_settings(base, active)
        }) == base,
        attempt_settings(attempt_settings(base, active), active) == attempt_settings(base, active),
{
}

/// Each strategy has a name of its own.
pub proof fn lemma_strategies_have_their_names(s: TranscodeStrategy)
    ensures
        s.name() == "pass-through"@ <==> s == TranscodeStrategy::PassThrough,
        s.name() == "remux"@ <==> s == TranscodeStrategy::Remux,
        s.name() == "transcode-balanced"@ <==> s == TranscodeStrategy::TranscodeBalanced,
        s.name() == "transcode-aggressive"@ <==> s == TranscodeStrategy::TranscodeAggressive,
        s.name() == "split-transcode"@ <==> s == TranscodeStrategy::SplitTranscode,
        s.name() == "image-compress"@ <==> s == TranscodeStrategy::ImageCompress,
{
    reveal_strlit("pass-through");
    reveal_strlit("remux");
    reveal_strlit("transcode-balanced");
    reveal_strlit("transcode-aggressive");
    reveal_strlit("split-transcode");
    reveal_strlit("image-compress");
    assert("pass-through"@.len() == 12);
    assert("remux"@.len() == 5);
    assert("transcode-balanced"@.len() == 18);
    assert("transcode-aggressive"@.len() == 20);
    assert("split-transcode"@.len() == 15);
    assert("image-compress"@.len() == 14);
}

/// Segments that all fit make parts that all fit: each part is its segment, in
/// the same order.
pub proof fn lemma_segments_become_parts(
    parts: Seq<PreparedPart>,
    segments: Seq<SegmentOutput>,
    limit: u64,
    i: int,
)
    requires
        parts_of(parts, segments),
        0 <= i < segments.len(),
    ensures
        parts.len() == segments.len(),
        parts[i].path == segments[i].path,
        parts[i].size == segments[i].size,
        parts[i].upload_ready_bytes is None,
        all_fit(segments, limit) ==> parts[i].size <= limit,
        segments[i].size > limit ==> !all_fit(segments, limit),
        (forall|k: int| 0 <= k < segments.len() ==> (#[trigger] parts[k]).size <= limit) ==> all_fit(
            segments,
            limit,
        ),
{
    assert(parts[i].size == segments[i].size);
    if forall|k: int| 0 <= k < segments.len() ==> (#[trigger] parts[k]).size <= limit {
        assert forall|k: int| 0 <= k < segments.len() implies (#[trigger] segments[k]).size
            <= limit by {
            assert(parts[k].size <= limit);
        }
    }
}

} // verus!
