//! How a downloaded file becomes the file that is kept.
//!
//! There is no upload limit here: one file is written, in the codec that was
//! asked for.

use crate::cli::args::CodecChoice;
use crate::config::{
    FloatBits, HardwareAcceleration, QualityPreset, TargetVideoCodec, TranscodeSettings,
};
use crate::pipeline::ffmpeg::{
    device_args, filter_args, option_at, push_hw_device_input_args, remux_args, remux_list, sets,
    video_filter, Args,
};
use crate::text::{decimal, decimal_of, same, views};
use vstd::prelude::*;
use vstd::string::StringExecFns;

verus! {

#[derive(Debug, Clone, Copy)]
pub struct TranscodeOptions {
    pub codec: CodecChoice,
    pub quality: QualityPreset,
    pub crf: Option<u8>,
    pub max_size_bytes: Option<u64>,
    pub hw: HardwareAcceleration,
    /// Jobs that run at once.
    pub concurrency: u32,
}

/// The file that was written.
#[derive(Debug)]
pub struct LocalOutput {
    pub path: String,
    pub size: u64,
    pub mode: &'static str,
    pub encoder: Option<&'static str>,
}

/// The way a file is produced.
#[derive(Debug, Clone, Copy, PartialEq, Eq, Structural)]
pub enum LocalPlan {
    /// Write a fresh container around the same streams, as the downloaded one
    /// is broken.
    FixContainer,
    /// Copy the file.
    Copy,
    /// The streams fit as they are: change the container only.
    Remux,
    /// Encode to a size, for a known duration.
    EncodeToSize { codec: TargetVideoCodec, max_size_bytes: u64, duration: FloatBits },
    /// Encode at a constant quality.
    EncodeByQuality { codec: TargetVideoCodec },
    /// A size is asked for, but the duration is not known.
    UnknownDuration,
}

/// The duration of the file, else the one that was announced.
pub open spec fn either(a: Option<FloatBits>, b: Option<FloatBits>) -> Option<FloatBits> {
    match a {
        Some(_) => a,
        None => b,
    }
}

pub open spec fn local_plan(
    opts: TranscodeOptions,
    needs_container_fix: bool,
    copy_viable: bool,
    file_duration: Option<FloatBits>,
    announced_duration: Option<FloatBits>,
) -> LocalPlan {
    match opts.codec.target() {
        None => if needs_container_fix {
            LocalPlan::FixContainer
        } else {
            LocalPlan::Copy
        },
        Some(codec) => if copy_viable {
            LocalPlan::Remux
        } else {
            match opts.max_size_bytes {
                Some(max_size_bytes) => match either(file_duration, announced_duration) {
                    Some(duration) => LocalPlan::EncodeToSize { codec, max_size_bytes, duration },
                    None => LocalPlan::UnknownDuration,
                },
                None => LocalPlan::EncodeByQuality { codec },
            }
        },
    }
}

/// Decide how to produce the file.
pub fn produce(
    opts: &TranscodeOptions,
    needs_container_fix: bool,
    copy_viable: bool,
    file_duration: Option<FloatBits>,
    announced_duration: Option<FloatBits>,
) -> (plan: LocalPlan)
    ensures
        plan == local_plan(
            *opts,
            needs_container_fix,
            copy_viable,
            file_duration,
            announced_duration,
        ),
{
    let codec = match opts.codec.target_codec() {
        None => {
            if needs_container_fix {
                return LocalPlan::FixContainer;
            }
            return LocalPlan::Copy;
        },
        Some(codec) => codec,
    };
    if copy_viable {
        return LocalPlan::Remux;
    }
    match opts.max_size_bytes {
        Some(max_size_bytes) => {
            let duration = match file_duration {
                Some(d) => Some(d),
                None => announced_duration,
            };
            match duration {
                Some(duration) => LocalPlan::EncodeToSize { codec, max_size_bytes, duration },
                None => LocalPlan::UnknownDuration,
            }
        },
        None => LocalPlan::EncodeByQuality { codec },
    }
}

/// A plan to copy comes only where nothing is to be encoded: a broken
/// container is never kept byte for byte.
pub proof fn lemma_broken_container_is_never_copied(
    opts: TranscodeOptions,
    copy_viable: bool,
    file_duration: Option<FloatBits>,
    announced_duration: Option<FloatBits>,
)
    ensures
        local_plan(opts, true, copy_viable, file_duration, announced_duration) !is Copy,
{
}

impl LocalPlan {
    pub open spec fn mode_name(self) -> Seq<char> {
        match self {
            LocalPlan::FixContainer => "remux (container fix)"@,
            LocalPlan::Copy => "copy"@,
            LocalPlan::Remux => "remux"@,
            _ => "encode"@,
        }
    }

    /// How the plan is called in the summary.
    pub fn mode(self) -> (s: &'static str)
        ensures
            s@ == self.mode_name(),
    {
        match self {
            LocalPlan::FixContainer => "remux (container fix)",
            LocalPlan::Copy => "copy",
            LocalPlan::Remux => "remux",
            _ => "encode",
        }
    }
}

/// The arguments of a remux without the options of one container.
pub open spec fn plain_remux_list(input: Seq<char>, output: Seq<char>, threads: u32) -> Seq<
    Seq<char>,
> {
    seq!["-y"@, "-i"@, input, "-c"@, "copy"@] + (if threads > 0 {
        seq!["-threads"@, decimal(threads as nat)]
    } else {
        Seq::empty()
    }) + seq![output]
}

/// A remux; only an MP4 target takes the options of that container.
pub fn remux_args_for(input: &str, output: &str, threads: u32, is_mp4: bool) -> (args: Args)
    ensures
        args@ == (if is_mp4 {
            remux_list(input@, output@, threads)
        } else {
            plain_remux_list(input@, output@, threads)
        }),
{
    if is_mp4 {
        return remux_args(input, output, threads);
    }
    let mut args = Args::new();
    args.push("-y");
    args.option("-i", input);
    args.option("-c", "copy");
    if threads > 0 {
        args.option("-threads", decimal_of(threads as u64).as_str());
    }
    args.push(output);
    assert(args@ =~= plain_remux_list(input@, output@, threads));
    args
}

/// The encoder of a codec on a backend. AV1 has no encoder on VideoToolbox and
/// is encoded in software there.
pub open spec fn encoder_name(codec: TargetVideoCodec, backend: HardwareAcceleration) -> Seq<char> {
    match (codec, backend) {
        (TargetVideoCodec::H264, _) => backend.encoder_name(),
        (TargetVideoCodec::Hevc, HardwareAcceleration::Software) => "libx265"@,
        (TargetVideoCodec::Hevc, HardwareAcceleration::Nvenc) => "hevc_nvenc"@,
        (TargetVideoCodec::Hevc, HardwareAcceleration::Vaapi) => "hevc_vaapi"@,
        (TargetVideoCodec::Hevc, HardwareAcceleration::VideoToolbox) => "hevc_videotoolbox"@,
        (TargetVideoCodec::Hevc, HardwareAcceleration::Qsv) => "hevc_qsv"@,
        (TargetVideoCodec::Hevc, HardwareAcceleration::Amf) => "hevc_amf"@,
        (TargetVideoCodec::Av1, HardwareAcceleration::Nvenc) => "av1_nvenc"@,
        (TargetVideoCodec::Av1, HardwareAcceleration::Vaapi) => "av1_vaapi"@,
        (TargetVideoCodec::Av1, HardwareAcceleration::Qsv) => "av1_qsv"@,
        (TargetVideoCodec::Av1, HardwareAcceleration::Amf) => "av1_amf"@,
        (TargetVideoCodec::Av1, _) => "libsvtav1"@,
    }
}

pub fn encoder_of(codec: TargetVideoCodec, backend: HardwareAcceleration) -> (s: &'static str)
    ensures
        s@ == encoder_name(codec, backend),
{
    match codec {
        TargetVideoCodec::H264 => backend.encoder(),
        TargetVideoCodec::Hevc => match backend {
            HardwareAcceleration::Software => "libx265",
            HardwareAcceleration::Nvenc => "hevc_nvenc",
            HardwareAcceleration::Vaapi => "hevc_vaapi",
            HardwareAcceleration::VideoToolbox => "hevc_videotoolbox",
            HardwareAcceleration::Qsv => "hevc_qsv",
            HardwareAcceleration::Amf => "hevc_amf",
        },
        TargetVideoCodec::Av1 => match backend {
            HardwareAcceleration::Nvenc => "av1_nvenc",
            HardwareAcceleration::Vaapi => "av1_vaapi",
            HardwareAcceleration::Qsv => "av1_qsv",
            HardwareAcceleration::Amf => "av1_amf",
            _ => "libsvtav1",
        },
    }
}

/// The same arguments, but for what stands behind the encoder option.
pub open spec fn encoder_replaced(args: Seq<Seq<char>>, encoder: Seq<char>) -> Seq<Seq<char>> {
    Seq::new(
        args.len(),
        |i: int|
            if i > 0 && args[i - 1] == "-c:v"@ {
                encoder
            } else {
                args[i]
            },
    )
}

/// The same arguments with another video encoder.
pub fn with_encoder(args: &Args, encoder: &str) -> (changed: Args)
    ensures
        changed@ == encoder_replaced(args@, encoder@),
{
    let list = args.to_vec();
    let mut changed = Args::new();
    let mut i: usize = 0;
    while i < list.len()
        invariant
            i <= list@.len(),
            views(list@) == args@,
            changed@ == encoder_replaced(args@, encoder@).take(i as int),
        decreases list@.len() - i,
    {
        assert(views(list@)[i as int] == list@[i as int]@);
        if i > 0 {
            assert(views(list@)[i - 1] == list@[i - 1]@);
        }
        if i > 0 && same(list[i - 1].as_str(), "-c:v") {
            changed.push(encoder);
        } else {
            changed.push(list[i].as_str());
        }
        i = i + 1;
        assert(changed@ =~= encoder_replaced(args@, encoder@).take(i as int));
    }
    assert(changed@ =~= encoder_replaced(args@, encoder@));
    changed
}

/// The option by which a backend takes a constant quality.
pub open spec fn quality_option(backend: HardwareAcceleration) -> Seq<char> {
    match backend {
        HardwareAcceleration::Software => "-crf"@,
        HardwareAcceleration::Nvenc => "-cq"@,
        HardwareAcceleration::Vaapi | HardwareAcceleration::Qsv => "-global_quality"@,
        HardwareAcceleration::VideoToolbox | HardwareAcceleration::Amf => "-q:v"@,
    }
}

/// An encode at a constant quality, by the preset unless one is given. The
/// sound is kept as it is.
pub open spec fn crf_list(
    input: Seq<char>,
    output: Seq<char>,
    settings: TranscodeSettings,
    codec: TargetVideoCodec,
    crf: Option<u8>,
    threads: u32,
    unix: bool,
) -> Seq<Seq<char>> {
    let backend = settings.hardware_acceleration;
    let quality = match crf {
        Some(value) => value,
        None => settings.quality_preset.crf_value(),
    };
    seq!["-y"@] + device_args(settings, unix) + seq!["-i"@, input] + filter_args(None, backend)
        + seq![
        "-c:v"@,
        encoder_name(codec, backend),
        quality_option(backend),
        decimal(quality as nat),
    ] + (if threads > 0 {
        seq!["-threads"@, decimal(threads as nat)]
    } else {
        Seq::empty()
    }) + seq!["-c:a"@, "copy"@, output]
}

pub fn crf_encode_args(
    input: &str,
    output: &str,
    settings: &TranscodeSettings,
    codec: TargetVideoCodec,
    crf: Option<u8>,
    threads: u32,
    unix: bool,
) -> (args: Args)
    ensures
        args@ == crf_list(input@, output@, *settings, codec, crf, threads, unix),
{
    let backend = settings.hardware_acceleration;
    let quality: u8 = match crf {
        Some(value) => value,
        None => settings.quality_preset.crf(),
    };
    let option = match backend {
        HardwareAcceleration::Software => "-crf",
        HardwareAcceleration::Nvenc => "-cq",
        HardwareAcceleration::Vaapi | HardwareAcceleration::Qsv => "-global_quality",
        HardwareAcceleration::VideoToolbox | HardwareAcceleration::Amf => "-q:v",
    };
    let mut args = Args::new();
    args.push("-y");
    push_hw_device_input_args(&mut args, settings, unix);
    args.option("-i", input);
    if let Some(filter) = video_filter(None, backend) {
        args.option("-vf", filter.as_str());
    }
    args.option("-c:v", encoder_of(codec, backend));
    args.option(option, decimal_of(quality as u64).as_str());
    if threads > 0 {
        args.option("-threads", decimal_of(threads as u64).as_str());
    }
    args.option("-c:a", "copy");
    args.push(output);
    assert(args@ =~= crf_list(input@, output@, *settings, codec, crf, threads, unix));
    args
}

/// What stands before a failure to copy.
pub fn copy_context(from: &str, to: &str) -> (s: String)
    ensures
        s@ == "copy "@ + from@ + " to "@ + to@,
{
    let mut s = "copy ".to_owned();
    s.append(from);
    s.append(" to ");
    s.append(to);
    s
}

// ---------------------------------------------------------------------------
// What is asked for is done
// ---------------------------------------------------------------------------
/// A file is encoded only where a codec is asked for that its streams do not
/// have, to that codec; to a size only where one is asked for, for the length
/// of the file itself where it is known.
pub proof fn lemma_plans_do_what_is_asked(
    opts: TranscodeOptions,
    needs_container_fix: bool,
    copy_viable: bool,
    file_duration: Option<FloatBits>,
    announced_duration: Option<FloatBits>,
)
    ensures
        ({
            let plan = local_plan(
                opts,
                needs_container_fix,
                copy_viable,
                file_duration,
                announced_duration,
            );
            let encodes = plan is EncodeToSize || plan is EncodeByQuality || plan
                is UnknownDuration;
            &&& encodes <==> opts.codec != CodecChoice::Copy && !copy_viable
            &&& plan is Remux <==> opts.codec != CodecChoice::Copy && copy_viable
            &&& plan is FixContainer <==> opts.codec == CodecChoice::Copy && needs_container_fix
            &&& plan is Copy <==> opts.codec == CodecChoice::Copy && !needs_container_fix
            &&& plan matches LocalPlan::EncodeByQuality { codec } ==> opts.codec.target() == Some(
                codec,
            ) && opts.max_size_bytes is None
            &&& plan matches LocalPlan::EncodeToSize { codec, max_size_bytes, duration }
                ==> opts.codec.target() == Some(codec) && opts.max_size_bytes == Some(
                max_size_bytes,
            ) && (file_duration is Some ==> duration == file_duration->0) && (file_duration is None
                ==> announced_duration == Some(duration))
            &&& plan is UnknownDuration ==> opts.max_size_bytes is Some && file_duration is None
                && announced_duration is None
        }),
{
}

/// Only an encode is called one, and a copy is called what it is.
pub proof fn lemma_modes_are_called_what_they_are(plan: LocalPlan)
    ensures
        plan is Copy <==> plan.mode_name() == "copy"@,
        plan is Remux <==> plan.mode_name() == "remux"@,
        plan is FixContainer <==> plan.mode_name() == "remux (container fix)"@,
        plan.mode_name() == "encode"@ <==> !(plan is Copy || plan is Remux || plan is FixContainer),
{
    reveal_strlit("remux (container fix)");
    reveal_strlit("copy");
    reveal_strlit("remux");
    reveal_strlit("encode");
    assert("remux (container fix)"@.len() == 21);
    assert("copy"@.len() == 4);
    assert("remux"@.len() == 5);
    assert("encode"@.len() == 6);
}

/// The encoder of a device is called after the codec and the device; each codec
/// has one in software, which also does what VideoToolbox cannot.
pub proof fn lemma_encoders_are_called_after_codec_and_device(backend: HardwareAcceleration)
    ensures
        backend != HardwareAcceleration::Software ==> encoder_name(TargetVideoCodec::Hevc, backend)
            == "hevc_"@ + backend.config_name(),
        backend != HardwareAcceleration::Software ==> encoder_name(TargetVideoCodec::H264, backend)
            == "h264_"@ + backend.config_name(),
        backend != HardwareAcceleration::Software && backend != HardwareAcceleration::VideoToolbox
            ==> encoder_name(TargetVideoCodec::Av1, backend) == "av1_"@ + backend.config_name(),
        encoder_name(TargetVideoCodec::Hevc, HardwareAcceleration::Software) == "libx265"@,
        encoder_name(TargetVideoCodec::H264, HardwareAcceleration::Software) == "libx264"@,
        encoder_name(TargetVideoCodec::Av1, HardwareAcceleration::Software) == "libsvtav1"@,
        encoder_name(TargetVideoCodec::Av1, HardwareAcceleration::VideoToolbox) == encoder_name(
            TargetVideoCodec::Av1,
            HardwareAcceleration::Software,
        ),
{
    reveal_strlit("libx265");
    reveal_strlit("hevc_nvenc");
    reveal_strlit("hevc_vaapi");
    reveal_strlit("hevc_videotoolbox");
    reveal_strlit("hevc_qsv");
    reveal_strlit("hevc_amf");
    reveal_strlit("av1_nvenc");
    reveal_strlit("av1_vaapi");
    reveal_strlit("av1_qsv");
    reveal_strlit("av1_amf");
    reveal_strlit("libsvtav1");
    reveal_strlit("libx264");
    reveal_strlit("h264_nvenc");
    reveal_strlit("h264_vaapi");
    reveal_strlit("h264_videotoolbox");
    reveal_strlit("h264_qsv");
    reveal_strlit("h264_amf");
    reveal_strlit("none");
    reveal_strlit("nvenc");
    reveal_strlit("vaapi");
    reveal_strlit("videotoolbox");
    reveal_strlit("qsv");
    reveal_strlit("amf");
    reveal_strlit("hevc_");
    reveal_strlit("h264_");
    reveal_strlit("av1_");
    assert(backend != HardwareAcceleration::Software ==> encoder_name(
        TargetVideoCodec::Hevc,
        backend,
    ) =~= "hevc_"@ + backend.config_name());
    assert(backend != HardwareAcceleration::Software ==> encoder_name(
        TargetVideoCodec::H264,
        backend,
    ) =~= "h264_"@ + backend.config_name());
    assert(backend != HardwareAcceleration::Software && backend
        != HardwareAcceleration::VideoToolbox ==> encoder_name(TargetVideoCodec::Av1, backend)
        =~= "av1_"@ + backend.config_name());
}

/// Whatever encoder was asked for before, the new one is; nothing else changes.
pub proof fn lemma_only_the_encoder_is_replaced(args: Seq<Seq<char>>, encoder: Seq<char>, i: int)
    requires
        0 <= i < args.len(),
    ensures
        encoder_replaced(args, encoder).len() == args.len(),
        i + 1 < args.len() && args[i] == "-c:v"@ ==> encoder_replaced(args, encoder)[i + 1]
            == encoder,
        i == 0 || args[i - 1] != "-c:v"@ ==> encoder_replaced(args, encoder)[i] == args[i],
{
}

/// A remux reads its input, copies the streams and writes its output, with as
/// many threads as are asked for.
pub proof fn lemma_remux_copies_streams(input: Seq<char>, output: Seq<char>, threads: u32)
    ensures
        ({
            let args = plain_remux_list(input, output, threads);
            &&& sets(args, "-i"@, input)
            &&& sets(args, "-c"@, "copy"@)
            &&& args.last() == output
            &&& threads > 0 ==> sets(args, "-threads"@, decimal(threads as nat))
        }),
{
    let args = plain_remux_list(input, output, threads);
    assert(option_at(args, 1, "-i"@, input));
    assert(option_at(args, 3, "-c"@, "copy"@));
    if threads > 0 {
        assert(option_at(args, 5, "-threads"@, decimal(threads as nat)));
    }
}

/// An encode at a quality reads its input, uses the encoder of the codec with
/// the quality that is asked for, else the preset's, keeps the sound as it is
/// and writes its output.
pub proof fn lemma_quality_encode_follows_its_settings(
    input: Seq<char>,
    output: Seq<char>,
    settings: TranscodeSettings,
    codec: TargetVideoCodec,
    crf: Option<u8>,
    threads: u32,
    unix: bool,
)
    ensures
        ({
            let args = crf_list(input, output, settings, codec, crf, threads, unix);
            let backend = settings.hardware_acceleration;
            &&& sets(args, "-i"@, input)
            &&& sets(args, "-c:v"@, encoder_name(codec, backend))
            &&& crf matches Some(q) ==> sets(args, quality_option(backend), decimal(q as nat))
            &&& crf is None ==> sets(
                args,
                quality_option(backend),
                decimal(settings.quality_preset.crf_value() as nat),
            )
            &&& sets(args, "-c:a"@, "copy"@)
            &&& threads > 0 ==> sets(args, "-threads"@, decimal(threads as nat))
            &&& args.last() == output
        }),
{
    let args = crf_list(input, output, settings, codec, crf, threads, unix);
    let backend = settings.hardware_acceleration;
    let d = device_args(settings, unix).len() as int;
    let f = filter_args(None, backend).len() as int;
    let quality = match crf {
        Some(value) => value,
        None => settings.quality_preset.crf_value(),
    };
    assert(option_at(args, 1 + d, "-i"@, input));
    assert(option_at(args, 3 + d + f, "-c:v"@, encoder_name(codec, backend)));
    assert(option_at(args, 5 + d + f, quality_option(backend), decimal(quality as nat)));
    if threads > 0 {
        assert(option_at(args, 7 + d + f, "-threads"@, decimal(threads as nat)));
        assert(option_at(args, 9 + d + f, "-c:a"@, "copy"@));
    } else {
        assert(option_at(args, 7 + d + f, "-c:a"@, "copy"@));
    }
}

/// Each backend takes its quality by the option that it knows.
pub proof fn lemma_quality_options(backend: HardwareAcceleration)
    ensures
        quality_option(backend) == "-crf"@ <==> backend == HardwareAcceleration::Software,
        quality_option(backend) == "-cq"@ <==> backend == HardwareAcceleration::Nvenc,
        quality_option(backend) == "-global_quality"@ <==> backend == HardwareAcceleration::Vaapi
            || backend == HardwareAcceleration::Qsv,
        quality_option(backend) == "-q:v"@ <==> backend == HardwareAcceleration::VideoToolbox
            || backend == HardwareAcceleration::Amf,
{
    reveal_strlit("-crf");
    reveal_strlit("-cq");
    reveal_strlit("-global_quality");
    reveal_strlit("-q:v");
    assert("-crf"@.len() == 4);
    assert("-cq"@.len() == 3);
    assert("-global_quality"@.len() == 15);
    assert("-q:v"@.len() == 4);
    assert("-crf"@[1] != "-q:v"@[1]);
}

} // verus!
