//! Bitrate budgets and the resolution ladder that goes with them.
//!
//! What a budget leaves for video comes out of floating-point arithmetic and
//! is handed in; durations are held by their bits.

use crate::config::{FloatBits, QualityPreset};
use crate::pipeline::errors::{is_transcode_error, transcode_error, Error, TranscodeStage};
use vstd::prelude::*;

verus! {

/// Bitrate targets of a transcode.
#[derive(Debug, Clone, Copy, PartialEq, Eq, Structural)]
pub struct BitrateParams {
    pub video_bitrate_kbps: u32,
    pub audio_bitrate_kbps: u32,
}

/// Segment sizing of a split; the segment length is held by its bits.
#[derive(Debug, Clone, Copy, PartialEq, Eq, Structural)]
pub struct SplitTranscodePlan {
    pub segment_duration: FloatBits,
    pub estimated_segments: u32,
    pub bitrate: BitrateParams,
}

/// A tenth of a second: no media is that short.
pub const SHORTEST_DURATION_BITS: u64 = 0x3fb9_9999_9999_999a;

/// Five minutes.
pub const LONG_DURATION_BITS: u64 = 0x4072_c000_0000_0000;

/// Ten minutes.
pub const VERY_LONG_DURATION_BITS: u64 = 0x4082_c000_0000_0000;

/// Audio bitrate of split segments.
pub const SPLIT_AUDIO_KBPS: u32 = 128;

/// Finite and longer than the shortest duration.
pub open spec fn usable_duration(duration: FloatBits) -> bool {
    SHORTEST_DURATION_BITS < duration.bits < 0x7ff0_0000_0000_0000
}

/// Greater than a positive threshold, as numbers are: neither a negative
/// duration nor one that is no number is.
pub open spec fn longer_than(duration: FloatBits, threshold: u64) -> bool {
    threshold < duration.bits <= 0x7ff0_0000_0000_0000
}

/// The audio bitrate that keeps speech intelligible in a file of a length.
pub open spec fn audio_kbps(duration: FloatBits) -> u32 {
    if longer_than(duration, VERY_LONG_DURATION_BITS) {
        128
    } else if longer_than(duration, LONG_DURATION_BITS) {
        160
    } else {
        192
    }
}

/// The shorter of two durations, neither of which is negative.
pub open spec fn shorter(a: FloatBits, b: FloatBits) -> FloatBits {
    if b.bits < a.bits {
        b
    } else {
        a
    }
}

/// Why no budget can be made: the duration is unusable, or nothing is left
/// for video.
pub open spec fn budget_failure(
    e: Error,
    stage: TranscodeStage,
    duration: FloatBits,
    too_long: Seq<char>,
) -> bool {
    if usable_duration(duration) {
        is_transcode_error(e, stage, too_long)
    } else {
        is_transcode_error(e, stage, "invalid media duration"@)
    }
}

/// The bitrates of a whole file: at least 50 kbit/s for video, and the audio
/// bitrate of its duration. There are none where the duration is unusable or
/// nothing is left for video.
pub open spec fn whole_file_params(duration: FloatBits, video_kbps: Option<u32>) -> Option<
    BitrateParams,
> {
    match video_kbps {
        Some(kbps) if usable_duration(duration) => Some(
            BitrateParams {
                video_bitrate_kbps: if kbps < 50 {
                    50
                } else {
                    kbps
                },
                audio_bitrate_kbps: audio_kbps(duration),
            },
        ),
        _ => None,
    }
}

/// The bitrates of one split segment: at least 100 kbit/s for video, and a
/// fixed audio bitrate.
pub open spec fn segment_params(duration: FloatBits, video_kbps: Option<u32>) -> Option<
    BitrateParams,
> {
    match video_kbps {
        Some(kbps) if usable_duration(duration) => Some(
            BitrateParams {
                video_bitrate_kbps: if kbps < 100 {
                    100
                } else {
                    kbps
                },
                audio_bitrate_kbps: SPLIT_AUDIO_KBPS,
            },
        ),
        _ => None,
    }
}

/// Where a video budget gives bitrates for a whole file, a larger one does so
/// too: the audio bitrate is the same, which the duration alone decides, and
/// the video bitrate is no smaller and never below its floor.
pub proof fn lemma_larger_budget_keeps_or_raises_bitrate(
    duration: FloatBits,
    small: Option<u32>,
    large: Option<u32>,
)
    requires
        whole_file_params(duration, small) is Some,
        large is Some,
        small->0 <= large->0,
    ensures
        whole_file_params(duration, large) matches Some(more) && (whole_file_params(
            duration,
            small,
        ) matches Some(less) && {
            &&& less.audio_bitrate_kbps == audio_kbps(duration)
            &&& more.audio_bitrate_kbps == audio_kbps(duration)
            &&& 50 <= less.video_bitrate_kbps <= more.video_bitrate_kbps
        }),
{
}

/// The same of split segments, with their own floor and audio bitrate.
pub proof fn lemma_larger_budget_keeps_or_raises_segment_bitrate(
    duration: FloatBits,
    small: Option<u32>,
    large: Option<u32>,
)
    requires
        segment_params(duration, small) is Some,
        large is Some,
        small->0 <= large->0,
    ensures
        segment_params(duration, large) matches Some(more) && (segment_params(
            duration,
            small,
        ) matches Some(less) && {
            &&& less.audio_bitrate_kbps == SPLIT_AUDIO_KBPS
            &&& more.audio_bitrate_kbps == SPLIT_AUDIO_KBPS
            &&& 100 <= less.video_bitrate_kbps <= more.video_bitrate_kbps
        }),
{
}

fn validate_duration(duration: FloatBits, stage: TranscodeStage) -> (r: Result<(), Error>)
    ensures
        r is Ok <==> usable_duration(duration),
        r matches Err(e) ==> is_transcode_error(e, stage, "invalid media duration"@),
{
    if SHORTEST_DURATION_BITS < duration.bits && duration.bits < 0x7ff0_0000_0000_0000 {
        Ok(())
    } else {
        Err(transcode_error(stage, "invalid media duration"))
    }
}

impl BitrateParams {
    /// Bitrates of a whole file. `video_kbps` is what the upload limit leaves
    /// for video beside the audio bitrate of that duration; nothing where the
    /// audio alone fills it.
    pub fn compute(duration: FloatBits, video_kbps: Option<u32>) -> (r: Result<Self, Error>)
        ensures
            r is Ok <==> whole_file_params(duration, video_kbps) is Some,
            r matches Ok(params) ==> whole_file_params(duration, video_kbps) == Some(params),
            r matches Err(e) ==> budget_failure(
                e,
                TranscodeStage::Transcode,
                duration,
                "video too long to fit"@,
            ),
    {
        match validate_duration(duration, TranscodeStage::Transcode) {
            Err(e) => Err(e),
            Ok(()) => match video_kbps {
                None => Err(transcode_error(TranscodeStage::Transcode, "video too long to fit")),
                Some(kbps) => Ok(
                    BitrateParams {
                        video_bitrate_kbps: if kbps < 50 {
                            50
                        } else {
                            kbps
                        },
                        audio_bitrate_kbps: Self::audio_bitrate_for_duration(duration),
                    },
                ),
            },
        }
    }

    /// Bitrates of one split segment, whose audio bitrate is fixed.
    pub fn compute_for_split(segment_duration: FloatBits, video_kbps: Option<u32>) -> (r: Result<
        Self,
        Error,
    >)
        ensures
            r is Ok <==> segment_params(segment_duration, video_kbps) is Some,
            r matches Ok(params) ==> segment_params(segment_duration, video_kbps) == Some(params),
            r matches Err(e) ==> budget_failure(
                e,
                TranscodeStage::Split,
                segment_duration,
                "segment too long to fit"@,
            ),
    {
        match validate_duration(segment_duration, TranscodeStage::Split) {
            Err(e) => Err(e),
            Ok(()) => match video_kbps {
                None => Err(transcode_error(TranscodeStage::Split, "segment too long to fit")),
                Some(kbps) => Ok(
                    BitrateParams {
                        video_bitrate_kbps: if kbps < 100 {
                            100
                        } else {
                            kbps
                        },
                        audio_bitrate_kbps: SPLIT_AUDIO_KBPS,
                    },
                ),
            },
        }
    }

    pub fn audio_bitrate_for_duration(duration: FloatBits) -> (kbps: u32)
        ensures
            kbps == audio_kbps(duration),
    {
        if duration.bits > 0x7ff0_0000_0000_0000 {
            192
        } else if duration.bits > VERY_LONG_DURATION_BITS {
            128
        } else if duration.bits > LONG_DURATION_BITS {
            160
        } else {
            192
        }
    }
}

/// The segment length that the budget of a split is made for: the whole
/// media where it is shorter than `limit`.
pub fn segment_duration(media_duration: FloatBits, limit: FloatBits) -> (d: FloatBits)
    ensures
        d == shorter(media_duration, limit),
{
    if limit.bits < media_duration.bits {
        limit
    } else {
        media_duration
    }
}

impl SplitTranscodePlan {
    /// The plan of a split whose segments last no longer than `limit`.
    /// `segments` is how many of them the media fills, and `video_kbps` what
    /// one leaves for video.
    pub fn compute(
        media_duration: FloatBits,
        limit: FloatBits,
        segments: u32,
        video_kbps: Option<u32>,
    ) -> (r: Result<Self, Error>)
        ensures
            r is Ok <==> usable_duration(media_duration) && segment_params(
                shorter(media_duration, limit),
                video_kbps,
            ) is Some,
            r matches Ok(plan) ==> {
                &&& plan.segment_duration == shorter(media_duration, limit)
                &&& plan.estimated_segments == segments
                &&& segment_params(shorter(media_duration, limit), video_kbps) == Some(plan.bitrate)
            },
            r matches Err(e) ==> if usable_duration(media_duration) {
                budget_failure(
                    e,
                    TranscodeStage::Split,
                    shorter(media_duration, limit),
                    "segment too long to fit"@,
                )
            } else {
                is_transcode_error(e, TranscodeStage::Split, "invalid media duration"@)
            },
    {
        match validate_duration(media_duration, TranscodeStage::Split) {
            Err(e) => Err(e),
            Ok(()) => {
                let segment_duration = segment_duration(media_duration, limit);
                match BitrateParams::compute_for_split(segment_duration, video_kbps) {
                    Err(e) => Err(e),
                    Ok(bitrate) => Ok(
                        SplitTranscodePlan {
                            segment_duration,
                            estimated_segments: segments,
                            bitrate,
                        },
                    ),
                }
            },
        }
    }
}

/// Suggested height; none keeps the source.
#[derive(Debug, Clone, Copy, PartialEq, Eq, Structural)]
pub struct Recommendation {
    pub target_height: Option<u32>,
}

/// Maps a bitrate to a height that uploads well.
pub struct Ladder;

/// Heights and the bitrate each one needs, tallest first.
pub open spec fn tiers() -> Seq<(u32, u32)> {
    seq![
        (2160u32, 8000u32),
        (1440u32, 4000u32),
        (1080u32, 2000u32),
        (720u32, 1000u32),
        (480u32, 400u32),
        (360u32, 150u32),
        (240u32, 100u32),
    ]
}

/// The first tier at or behind `i` no taller than `limit` whose bitrate is
/// there, by height; the lowest height where there is none.
pub open spec fn fitting_height(i: int, limit: int, kbps: u32) -> u32
    decreases tiers().len() - i,
{
    if 0 <= i < tiers().len() {
        if tiers()[i].0 <= limit && kbps >= tiers()[i].1 {
            tiers()[i].0
        } else {
            fitting_height(i + 1, limit, kbps)
        }
    } else {
        240
    }
}

/// The tallest height that a bitrate supports.
pub open spec fn supported_height(kbps: u32) -> u32 {
    fitting_height(0, u32::MAX as int, kbps)
}

/// The place of the first tier no taller than `height`; the last one where
/// there is none.
pub open spec fn tier_of(i: int, height: u32) -> int
    decreases tiers().len() - i,
{
    if 0 <= i < tiers().len() {
        if tiers()[i].0 <= height {
            i
        } else {
            tier_of(i + 1, height)
        }
    } else {
        tiers().len() - 1
    }
}

/// A height some tiers down, not below the lowest tier.
pub open spec fn downshifted(height: u32, steps: int) -> u32 {
    let next = tier_of(0, height) + steps;
    if next >= tiers().len() {
        tiers().last().0
    } else {
        tiers()[next].0
    }
}

/// How many tiers a preset goes further down.
pub open spec fn preset_steps(preset: QualityPreset) -> int {
    match preset {
        QualityPreset::Size => 2,
        QualityPreset::Fast => 1,
        QualityPreset::Balanced | QualityPreset::Quality => 0,
    }
}

/// The height before the preset is applied: a source that the bitrate supports
/// keeps its size, a taller one goes to the tallest fitting tier. Where the
/// source is unknown only low bitrates are scaled down.
pub open spec fn budget_height(source_height: Option<u32>, kbps: u32) -> Option<u32> {
    match source_height {
        Some(h) => if h <= supported_height(kbps) {
            None
        } else {
            Some(fitting_height(0, h as int, kbps))
        },
        None => if kbps > 1000 {
            None
        } else {
            Some(supported_height(kbps))
        },
    }
}

pub open spec fn recommended(
    source_height: Option<u32>,
    kbps: u32,
    preset: QualityPreset,
) -> Option<u32> {
    match budget_height(source_height, kbps) {
        None => None,
        Some(h) => if preset_steps(preset) == 0 {
            Some(h)
        } else {
            Some(downshifted(h, preset_steps(preset)))
        },
    }
}

fn tier_at(i: usize) -> (t: (u32, u32))
    requires
        i < 7,
    ensures
        t == tiers()[i as int],
{
    let all: [(u32, u32); 7] = [
        (2160, 8000),
        (1440, 4000),
        (1080, 2000),
        (720, 1000),
        (480, 400),
        (360, 150),
        (240, 100),
    ];
    all[i]
}

fn first_fitting(limit: u32, kbps: u32) -> (h: u32)
    ensures
        h == fitting_height(0, limit as int, kbps),
{
    let mut i: usize = 0;
    while i < 7
        invariant
            i <= 7,
            fitting_height(0, limit as int, kbps) == fitting_height(i as int, limit as int, kbps),
        decreases 7 - i,
    {
        let (height, min_kbps) = tier_at(i);
        if height <= limit && kbps >= min_kbps {
            return height;
        }
        i = i + 1;
    }
    240
}

impl Ladder {
    /// The height for a source and a bitrate.
    pub fn recommend(
        source_height: Option<u32>,
        video_bitrate_kbps: u32,
        quality_preset: QualityPreset,
    ) -> (r: Recommendation)
        ensures
            r.target_height == recommended(source_height, video_bitrate_kbps, quality_preset),
    {
        let supported = first_fitting(u32::MAX, video_bitrate_kbps);
        let target: Option<u32> = match source_height {
            Some(h) => if h <= supported {
                None
            } else {
                Some(first_fitting(h, video_bitrate_kbps))
            },
            None => if video_bitrate_kbps > 1000 {
                None
            } else {
                Some(supported)
            },
        };
        let steps: usize = match quality_preset {
            QualityPreset::Size => 2,
            QualityPreset::Fast => 1,
            QualityPreset::Balanced | QualityPreset::Quality => 0,
        };
        match target {
            Some(height) if steps > 0 => Recommendation {
                target_height: Some(Self::downshift_height(height, steps)),
            },
            _ => Recommendation { target_height: target },
        }
    }

    /// A height some tiers further down.
    pub fn downshift_height(height: u32, steps: usize) -> (r: u32)
        ensures
            r == downshifted(height, steps as int),
    {
        let mut i: usize = 0;
        while i < 7 && tier_at(i).0 > height
            invariant
                i <= 7,
                tier_of(0, height) == tier_of(i as int, height),
            decreases 7 - i,
        {
            i = i + 1;
        }
        let idx: usize = if i == 7 {
            6
        } else {
            i
        };
        assert(idx == tier_of(0, height));
        let next: usize = idx.saturating_add(steps);
        if next >= 7 {
            tier_at(6).0
        } else {
            tier_at(next).0
        }
    }
}

// ---------------------------------------------------------------------------
// What the ladder keeps
// ---------------------------------------------------------------------------
proof fn lemma_ladder_unfolds(limit: int, kbps: u32)
    ensures
        fitting_height(0, limit, kbps) == (if limit >= 2160 && kbps >= 8000 {
            2160u32
        } else if limit >= 1440 && kbps >= 4000 {
            1440
        } else if limit >= 1080 && kbps >= 2000 {
            1080
        } else if limit >= 720 && kbps >= 1000 {
            720
        } else if limit >= 480 && kbps >= 400 {
            480
        } else if limit >= 360 && kbps >= 150 {
            360
        } else {
            240
        }),
{
    reveal_with_fuel(fitting_height, 8);
}

proof fn lemma_tier_unfolds(height: u32)
    ensures
        tier_of(0, height) == (if height >= 2160 {
            0int
        } else if height >= 1440 {
            1
        } else if height >= 1080 {
            2
        } else if height >= 720 {
            3
        } else if height >= 480 {
            4
        } else if height >= 360 {
            5
        } else {
            6
        }),
{
    reveal_with_fuel(tier_of, 8);
}

/// More bitrate never gives a lower height, with every preset, where the
/// source is unknown; keeping the source counts as the tallest.
pub proof fn lemma_unknown_source_is_monotonic(low: u32, high: u32, preset: QualityPreset)
    requires
        low <= high,
    ensures
        match recommended(None, high, preset) {
            None => true,
            Some(b) => recommended(None, low, preset) matches Some(a) && a <= b,
        },
{
    lemma_ladder_unfolds(u32::MAX as int, low);
    lemma_ladder_unfolds(u32::MAX as int, high);
    lemma_tier_unfolds(supported_height(low));
    lemma_tier_unfolds(supported_height(high));
}

/// A known source is never scaled up, except that nothing goes below the
/// lowest tier.
pub proof fn lemma_never_upscales(source: u32, kbps: u32, preset: QualityPreset)
    ensures
        recommended(Some(source), kbps, preset) matches Some(h) ==> 240 <= h && h < source,
{
    lemma_ladder_unfolds(u32::MAX as int, kbps);
    lemma_ladder_unfolds(source as int, kbps);
    if let Some(h) = budget_height(Some(source), kbps) {
        lemma_tier_unfolds(h);
    }
}

/// Thriftier presets never give a taller picture.
pub proof fn lemma_presets_are_ordered(source: Option<u32>, kbps: u32)
    ensures
        recommended(source, kbps, QualityPreset::Balanced) matches Some(b) ==> (recommended(
            source,
            kbps,
            QualityPreset::Fast,
        ) matches Some(f) && f <= b && (recommended(source, kbps, QualityPreset::Size) matches Some(
            s,
        ) && s <= f)),
{
    if let Some(h) = budget_height(source, kbps) {
        lemma_tier_unfolds(h);
        lemma_ladder_unfolds(u32::MAX as int, kbps);
        if let Some(src) = source {
            lemma_ladder_unfolds(src as int, kbps);
        }
    }
}

/// The bitrate that a picture of a height needs; nothing else is a height of
/// the ladder.
pub open spec fn needed_kbps(height: int) -> Option<int> {
    if height == 2160 {
        Some(8000)
    } else if height == 1440 {
        Some(4000)
    } else if height == 1080 {
        Some(2000)
    } else if height == 720 {
        Some(1000)
    } else if height == 480 {
        Some(400)
    } else if height == 360 {
        Some(150)
    } else if height == 240 {
        Some(100)
    } else {
        None
    }
}

/// A bitrate carries a picture of a height.
pub open spec fn carries(kbps: u32, height: int) -> bool {
    needed_kbps(height) matches Some(need) && kbps >= need
}

/// One height of the ladder down; the lowest stays.
pub open spec fn one_down(height: int) -> int {
    if height > 1440 {
        1440
    } else if height > 1080 {
        1080
    } else if height > 720 {
        720
    } else if height > 480 {
        480
    } else if height > 360 {
        360
    } else {
        240
    }
}

/// The balanced preset gives the tallest height that fits source and bitrate.
/// A source that is no taller than what the bitrate carries is kept.
pub proof fn lemma_balanced_is_the_tallest_fit(source: u32, kbps: u32, taller: int)
    ensures
        recommended(Some(source), kbps, QualityPreset::Balanced) matches Some(h) ==> {
            &&& h == 240 || carries(kbps, h as int)
            &&& h < source
            &&& h < taller <= source ==> !carries(kbps, taller)
            &&& taller >= source ==> !carries(kbps, taller)
        },
        recommended(Some(source), kbps, QualityPreset::Balanced) is None ==> source <= 240 || exists|
            height: int,
        | #[trigger]
            carries(kbps, height) && height >= source,
{
    lemma_ladder_unfolds(u32::MAX as int, kbps);
    lemma_ladder_unfolds(source as int, kbps);
    let top = supported_height(kbps);
    if source > 240 && source <= top {
        assert(carries(kbps, top as int));
    }
}

/// Where the source is unknown, a bitrate above a thousand keeps it; below, the
/// tallest height that the bitrate carries is taken.
pub proof fn lemma_unknown_source_gets_the_tallest_fit(kbps: u32, taller: int)
    ensures
        recommended(None, kbps, QualityPreset::Balanced) is None <==> kbps > 1000,
        recommended(None, kbps, QualityPreset::Balanced) matches Some(h) ==> {
            &&& h == 240 || carries(kbps, h as int)
            &&& h < taller ==> !carries(kbps, taller)
        },
{
    lemma_ladder_unfolds(u32::MAX as int, kbps);
}

/// The quality preset gives the picture of the balanced one, the fast preset
/// the next height down, and the size preset the one below that.
pub proof fn lemma_presets_step_down_the_ladder(source: Option<u32>, kbps: u32)
    ensures
        recommended(source, kbps, QualityPreset::Quality) == recommended(
            source,
            kbps,
            QualityPreset::Balanced,
        ),
        match recommended(source, kbps, QualityPreset::Balanced) {
            None => recommended(source, kbps, QualityPreset::Fast) is None && recommended(
                source,
                kbps,
                QualityPreset::Size,
            ) is None,
            Some(h) => recommended(source, kbps, QualityPreset::Fast) == Some(
                one_down(h as int) as u32,
            ) && recommended(source, kbps, QualityPreset::Size) == Some(
                one_down(one_down(h as int)) as u32,
            ),
        },
{
    if let Some(h) = budget_height(source, kbps) {
        lemma_tier_unfolds(h);
        lemma_ladder_unfolds(u32::MAX as int, kbps);
        if let Some(src) = source {
            lemma_ladder_unfolds(src as int, kbps);
        }
    }
}

/// A step down the ladder goes to the next height below, steps add up, and none
/// goes below the lowest height.
pub proof fn lemma_steps_down_add_up(height: u32, steps: int)
    requires
        steps >= 0,
    ensures
        downshifted(height, 0) <= height || height < 240,
        needed_kbps(downshifted(height, steps) as int) is Some,
        downshifted(height, steps + 1) == one_down(downshifted(height, steps) as int),
        needed_kbps(height as int) is Some ==> downshifted(height, 0) == height,
{
    lemma_tier_unfolds(height);
}

/// Longer media gets less sound, in three steps: up to five minutes, up to ten,
/// and beyond. The bits are those of the numbers 300 and 600.
pub proof fn lemma_longer_media_gets_less_audio(shorter: FloatBits, longer: FloatBits)
    requires
        usable_duration(shorter),
        usable_duration(longer),
        shorter.bits <= longer.bits,
    ensures
        128 <= audio_kbps(longer) <= audio_kbps(shorter) <= 192,
        shorter.bits <= 0x4072_c000_0000_0000 <==> audio_kbps(shorter) == 192,
        shorter.bits > 0x4082_c000_0000_0000 <==> audio_kbps(shorter) == 128,
        0x4072_c000_0000_0000 < shorter.bits <= 0x4082_c000_0000_0000 <==> audio_kbps(shorter)
            == 160,
{
}

/// A video budget is used as it is, but never less than the floor: 50 kilobits
/// for a file, 100 for a segment. Without a usable length there is none.
pub proof fn lemma_budgets_have_a_floor(duration: FloatBits, kbps: u32)
    ensures
        whole_file_params(duration, Some(kbps)) matches Some(p) ==> p.video_bitrate_kbps >= 50
            && p.video_bitrate_kbps >= kbps && (p.video_bitrate_kbps == kbps
            || p.video_bitrate_kbps == 50),
        segment_params(duration, Some(kbps)) matches Some(p) ==> p.video_bitrate_kbps >= 100
            && p.video_bitrate_kbps >= kbps && (p.video_bitrate_kbps == kbps
            || p.video_bitrate_kbps == 100) && p.audio_bitrate_kbps == 128,
        whole_file_params(duration, Some(kbps)) is Some <==> usable_duration(duration),
        segment_params(duration, Some(kbps)) is Some <==> usable_duration(duration),
        whole_file_params(duration, None) is None && segment_params(duration, None) is None,
        usable_duration(duration) ==> duration.positive_finite(),
        duration.bits > 0x7ff0_0000_0000_0000 ==> audio_kbps(duration) == 192,
        duration.bits <= 0x4072_c000_0000_0000 ==> audio_kbps(duration) == 192,
        0x4072_c000_0000_0000 < duration.bits <= 0x4082_c000_0000_0000 ==> audio_kbps(duration)
            == 160,
        0x4082_c000_0000_0000 < duration.bits <= 0x7ff0_0000_0000_0000 ==> audio_kbps(duration)
            == 128,
{
}

/// An unusable length is told as such; a usable one that leaves nothing as too
/// long.
pub proof fn lemma_missing_budgets_tell_why(
    e: Error,
    stage: TranscodeStage,
    duration: FloatBits,
    too_long: Seq<char>,
)
    requires
        budget_failure(e, stage, duration, too_long),
    ensures
        e matches Error::TranscodeFailed { stage: s, exit_code, stderr_tail } && s == stage
            && exit_code is None && stderr_tail@ == (if whole_file_params(duration, Some(1)) is Some {
            too_long
        } else {
            "invalid media duration"@
        }),
{
}

/// The shorter of two lengths is one of them and no longer than the other.
pub proof fn lemma_shorter_is_no_longer(a: FloatBits, b: FloatBits)
    ensures
        shorter(a, b).bits <= a.bits && shorter(a, b).bits <= b.bits,
        shorter(a, b) == a || shorter(a, b) == b,
{
}

} // verus!
