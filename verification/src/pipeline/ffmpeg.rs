//! ffmpeg argument lists, and the course of one ffmpeg run.

use crate::config::{
    thread_share, HardwareAcceleration, QualityPreset, TargetVideoCodec, TranscodeSettings,
};
use crate::pipeline::errors::{Error, TranscodeStage};
use crate::pipeline::process::BoundedRead;
use crate::pipeline::types::{AudioCodec, MediaFacts, VideoCodec};
use crate::text::{
    chars_of, decimal, decimal_of, ends_with, has_char, is_digit, lemma_decimal_value, lossy_text,
    same, split, split_str, string_of, utf8_lossy, views,
};
use smallvec::SmallVec;
use vstd::prelude::*;
use vstd::string::StringExecFns;

verus! {

/// Highest bitrate that is handed to ffmpeg.
pub const MAX_FFMPEG_KBPS: u64 = 100_000;

/// Lines of error output in a failure.
pub const FFMPEG_ERROR_STDERR_TAIL_LINES: usize = 10;

/// Lines of error output in the log of a success.
pub const FFMPEG_SUCCESS_STDERR_TAIL_LINES: usize = 20;

/// Seconds to wait for the rest of the error output.
pub const STDERR_DRAIN_TIMEOUT_SECS: u64 = 2;

/// Seconds to wait for the process once its output has ended.
pub const WAIT_TIMEOUT_SECS: u64 = 30;

/// Seconds between two signs of life in the log.
pub const PROGRESS_HEARTBEAT_SECS: u64 = 30;

// ---------------------------------------------------------------------------
// Argument lists
// ---------------------------------------------------------------------------
/// An argument list, held inline for up to forty arguments.
#[verifier::external_body]
pub struct Args {
    items: SmallVec<[String; 40]>,
}

/// The arguments that a list holds, in order.
pub uninterp spec fn arg_items(args: Args) -> Seq<Seq<char>>;

/// `SmallVec::new`: an empty list.
#[verifier::external_body]
fn new_args() -> (args: Args)
    ensures
        arg_items(args) == Seq::<Seq<char>>::empty(),
{
    Args { items: SmallVec::new() }
}

/// `SmallVec::push`: the argument comes last.
#[verifier::external_body]
fn push_arg(args: &mut Args, arg: String)
    ensures
        arg_items(*final(args)) == arg_items(*old(args)).push(arg@),
{
    args.items.push(arg)
}

/// `SmallVec::len`: the number of arguments.
#[verifier::external_body]
fn arg_count(args: &Args) -> (n: usize)
    ensures
        n == arg_items(*args).len(),
{
    args.items.len()
}

/// `SmallVec::as_slice`, indexed: the argument at that place.
#[verifier::external_body]
fn arg_at(args: &Args, i: usize) -> (arg: &str)
    requires
        i < arg_items(*args).len(),
    ensures
        arg@ == arg_items(*args)[i as int],
{
    args.items.as_slice()[i].as_str()
}

impl View for Args {
    type V = Seq<Seq<char>>;

    open spec fn view(&self) -> Seq<Seq<char>> {
        arg_items(*self)
    }
}

impl Args {
    pub fn new() -> (r: Self)
        ensures
            r@ == Seq::<Seq<char>>::empty(),
    {
        new_args()
    }

    /// Append an argument.
    pub fn push(&mut self, arg: &str)
        ensures
            final(self)@ == old(self)@.push(arg@),
    {
        push_arg(self, arg.to_owned());
    }

    /// Append an option and its value.
    pub fn option(&mut self, flag: &str, value: &str)
        ensures
            final(self)@ == old(self)@ + seq![flag@, value@],
    {
        push_arg(self, flag.to_owned());
        push_arg(self, value.to_owned());
        assert(self@ =~= old(self)@ + seq![flag@, value@]);
    }

    pub fn len(&self) -> (n: usize)
        ensures
            n == self@.len(),
    {
        arg_count(self)
    }

    /// The arguments as owned strings.
    pub fn to_vec(&self) -> (v: Vec<String>)
        ensures
            views(v@) == self@,
    {
        let mut v: Vec<String> = Vec::new();
        let mut i: usize = 0;
        let n = arg_count(self);
        while i < n
            invariant
                i <= n,
                n == self@.len(),
                views(v@) == self@.take(i as int),
            decreases n - i,
        {
            let ghost before = v@;
            v.push(arg_at(self, i).to_owned());
            assert(views(v@) =~= views(before).push(self@[i as int]));
            i = i + 1;
            assert(views(v@) =~= self@.take(i as int));
        }
        assert(self@.take(i as int) =~= self@);
        v
    }

    /// Whether a flag stands among the arguments.
    pub fn has_flag(&self, flag: &str) -> (r: bool)
        ensures
            r == self@.contains(flag@),
    {
        let n = arg_count(self);
        let mut i: usize = 0;
        while i < n
            invariant
                i <= n,
                n == self@.len(),
                forall|j: int| 0 <= j < i ==> self@[j] != flag@,
            decreases n - i,
        {
            if same(arg_at(self, i), flag) {
                return true;
            }
            i = i + 1;
        }
        false
    }

    /// What stands behind a flag, at the first place where something does.
    pub fn arg_value(&self, flag: &str) -> (r: Option<String>)
        ensures
            match r {
                Some(value) => exists|i: int| #[trigger]
                    value_stands_at(self@, flag@, i) && self@[i + 1] == value@ && forall|j: int|
                    0 <= j < i ==> !#[trigger] value_stands_at(self@, flag@, j),
                None => forall|i: int| !#[trigger] value_stands_at(self@, flag@, i),
            },
    {
        let n = arg_count(self);
        let mut i: usize = 0;
        while i < n
            invariant
                i <= n,
                n == self@.len(),
                forall|j: int| 0 <= j < i ==> !#[trigger] value_stands_at(self@, flag@, j),
            decreases n - i,
        {
            if same(arg_at(self, i), flag) && i + 1 < n {
                let value = arg_at(self, i + 1).to_owned();
                assert(value_stands_at(self@, flag@, i as int));
                return Some(value);
            }
            i = i + 1;
        }
        None
    }
}

/// A flag stands at place `i` and something behind it.
pub open spec fn value_stands_at(args: Seq<Seq<char>>, flag: Seq<char>, i: int) -> bool {
    0 <= i && i + 1 < args.len() && args[i] == flag
}

pub open spec fn capped_kbps(value: int) -> nat {
    if value > MAX_FFMPEG_KBPS {
        MAX_FFMPEG_KBPS as nat
    } else {
        value as nat
    }
}

/// `<n>k`.
pub open spec fn kbps_text(n: nat) -> Seq<char> {
    decimal(n) + "k"@
}

pub fn clamp_kbps(value: u64) -> (r: u64)
    ensures
        r == capped_kbps(value as int),
{
    if value > MAX_FFMPEG_KBPS {
        MAX_FFMPEG_KBPS
    } else {
        value
    }
}

fn kbps_arg(n: u64) -> (s: String)
    ensures
        s@ == kbps_text(n as nat),
{
    let mut s = decimal_of(n);
    s.append("k");
    s
}

// ---------------------------------------------------------------------------
// Device and filter arguments
// ---------------------------------------------------------------------------
/// Device set-up in front of the input.
pub open spec fn device_args(config: TranscodeSettings, unix: bool) -> Seq<Seq<char>> {
    match config.hardware_acceleration {
        HardwareAcceleration::Vaapi => seq![
            "-init_hw_device"@,
            "vaapi=va:"@ + config.vaapi_device@,
            "-filter_hw_device"@,
            "va"@,
            "-hwaccel"@,
            "vaapi"@,
            "-hwaccel_output_format"@,
            "vaapi"@,
            "-hwaccel_device"@,
            "va"@,
        ],
        HardwareAcceleration::Qsv => if unix {
            seq![
                "-init_hw_device"@,
                "vaapi=va:"@ + config.vaapi_device@,
                "-init_hw_device"@,
                "qsv=qsv@va"@,
                "-filter_hw_device"@,
                "qsv"@,
            ]
        } else {
            seq![
                "-init_hw_device"@,
                "qsv=qsv:MFX_IMPL_hw_any"@,
                "-filter_hw_device"@,
                "qsv"@,
            ]
        },
        _ => Seq::empty(),
    }
}

fn vaapi_device_arg(config: &TranscodeSettings) -> (s: String)
    ensures
        s@ == "vaapi=va:"@ + config.vaapi_device@,
{
    let mut s = "vaapi=va:".to_owned();
    s.append(config.vaapi_device.as_str());
    s
}

/// Append the device set-up of the backend.
pub fn push_hw_device_input_args(args: &mut Args, config: &TranscodeSettings, unix: bool)
    ensures
        final(args)@ == old(args)@ + device_args(*config, unix),
{
    let ghost before = args@;
    match config.hardware_acceleration {
        HardwareAcceleration::Vaapi => {
            let device = vaapi_device_arg(config);
            args.option("-init_hw_device", device.as_str());
            args.option("-filter_hw_device", "va");
            args.option("-hwaccel", "vaapi");
            args.option("-hwaccel_output_format", "vaapi");
            args.option("-hwaccel_device", "va");
        },
        HardwareAcceleration::Qsv => {
            if unix {
                let device = vaapi_device_arg(config);
                args.option("-init_hw_device", device.as_str());
                args.option("-init_hw_device", "qsv=qsv@va");
                args.option("-filter_hw_device", "qsv");
            } else {
                args.option("-init_hw_device", "qsv=qsv:MFX_IMPL_hw_any");
                args.option("-filter_hw_device", "qsv");
            }
        },
        _ => {},
    }
    assert(args@ =~= before + device_args(*config, unix));
}

/// The video filter for a height and a backend.
pub open spec fn filter_text(height: Option<u32>, backend: HardwareAcceleration) -> Option<Seq<char>> {
    match (backend, height) {
        (HardwareAcceleration::Vaapi, Some(h)) => Some(
            "format=nv12|vaapi,hwupload,scale_vaapi=-2:"@ + decimal(h as nat),
        ),
        (HardwareAcceleration::Vaapi, None) => Some("format=nv12|vaapi,hwupload"@),
        (HardwareAcceleration::Qsv, Some(h)) => Some(
            "format=nv12,hwupload=extra_hw_frames=64,scale_qsv=-1:"@ + decimal(h as nat),
        ),
        (HardwareAcceleration::Qsv, None) => Some(
            "format=nv12,hwupload=extra_hw_frames=64,format=qsv"@,
        ),
        (_, Some(h)) => Some("scale=-2:"@ + decimal(h as nat)),
        (_, None) => None,
    }
}

pub fn video_filter(height: Option<u32>, hardware_acceleration: HardwareAcceleration) -> (r: Option<
    String,
>)
    ensures
        r is Some <==> filter_text(height, hardware_acceleration) is Some,
        r matches Some(s) ==> filter_text(height, hardware_acceleration) == Some(s@),
{
    match hardware_acceleration {
        HardwareAcceleration::Vaapi => match height {
            Some(h) => {
                let mut s = "format=nv12|vaapi,hwupload,scale_vaapi=-2:".to_owned();
                s.append(decimal_of(h as u64).as_str());
                Some(s)
            },
            None => Some("format=nv12|vaapi,hwupload".to_owned()),
        },
        HardwareAcceleration::Qsv => match height {
            Some(h) => {
                let mut s = "format=nv12,hwupload=extra_hw_frames=64,scale_qsv=-1:".to_owned();
                s.append(decimal_of(h as u64).as_str());
                Some(s)
            },
            None => Some("format=nv12,hwupload=extra_hw_frames=64,format=qsv".to_owned()),
        },
        _ => match height {
            Some(h) => {
                let mut s = "scale=-2:".to_owned();
                s.append(decimal_of(h as u64).as_str());
                Some(s)
            },
            None => None,
        },
    }
}

/// The filter option, where there is a filter.
pub open spec fn filter_args(height: Option<u32>, backend: HardwareAcceleration) -> Seq<Seq<char>> {
    match filter_text(height, backend) {
        Some(f) => seq!["-vf"@, f],
        None => Seq::empty(),
    }
}

fn push_filter_args(args: &mut Args, height: Option<u32>, backend: HardwareAcceleration)
    ensures
        final(args)@ == old(args)@ + filter_args(height, backend),
{
    let ghost before = args@;
    if let Some(filter) = video_filter(height, backend) {
        args.option("-vf", filter.as_str());
    }
    assert(args@ =~= before + filter_args(height, backend));
}

/// Stream copies are written as MP4, so only H.264 with AAC or without sound
/// can be copied.
pub fn mp4_stream_copy_viable(facts: MediaFacts) -> (r: bool)
    ensures
        r == copy_viable(facts),
{
    facts.video_codec == VideoCodec::H264 && (facts.audio_codec == AudioCodec::Aac
        || facts.audio_codec == AudioCodec::Absent)
}

pub open spec fn copy_viable(facts: MediaFacts) -> bool {
    facts.video_codec == VideoCodec::H264 && (facts.audio_codec == AudioCodec::Aac
        || facts.audio_codec == AudioCodec::Absent)
}

/// Whether the streams can be kept where a codec is asked for: only H.264 is
/// copied.
pub fn stream_copy_viable_for(facts: MediaFacts, codec: TargetVideoCodec) -> (r: bool)
    ensures
        r == (codec == TargetVideoCodec::H264 && copy_viable(facts)),
{
    codec == TargetVideoCodec::H264 && mp4_stream_copy_viable(facts)
}

// ---------------------------------------------------------------------------
// Encoder arguments
// ---------------------------------------------------------------------------
pub open spec fn x264_params_text(preset: QualityPreset, threads: u32) -> Seq<char> {
    match preset {
        QualityPreset::Fast | QualityPreset::Balanced => "threads="@ + decimal(threads as nat),
        _ => "threads="@ + decimal(threads as nat) + ":lookahead_threads="@ + decimal(
            if threads < 2 {
                threads as nat
            } else {
                2
            },
        ),
    }
}

pub open spec fn nvenc_cq(preset: QualityPreset) -> nat {
    match preset {
        QualityPreset::Fast => 28,
        QualityPreset::Balanced => 23,
        QualityPreset::Quality => 19,
        QualityPreset::Size => 32,
    }
}

pub open spec fn amf_quality(preset: QualityPreset) -> Seq<char> {
    match preset {
        QualityPreset::Fast => "speed"@,
        QualityPreset::Balanced | QualityPreset::Size => "balanced"@,
        QualityPreset::Quality => "quality"@,
    }
}

/// The rate control arguments of each backend.
pub open spec fn encoder_args(config: TranscodeSettings, kbps: u32, concurrency: u32, cpus: u32) -> Seq<
    Seq<char>,
> {
    let rate = kbps_text(capped_kbps(kbps as int));
    let buf = kbps_text(capped_kbps(kbps * 2));
    let preset = config.quality_preset;
    match config.hardware_acceleration {
        HardwareAcceleration::Software => {
            let threads = thread_share(config.ffmpeg_threads, cpus, concurrency);
            seq![
                "-preset"@,
                preset.preset_name(),
                "-crf"@,
                decimal(preset.crf_value() as nat),
                "-maxrate"@,
                rate,
                "-bufsize"@,
                buf,
                "-threads"@,
                decimal(threads as nat),
                "-x264-params"@,
                x264_params_text(preset, threads),
                "-tune"@,
                "zerolatency"@,
            ]
        },
        HardwareAcceleration::Nvenc => seq![
            "-preset"@,
            "p4"@,
            "-rc"@,
            "vbr"@,
            "-cq"@,
            decimal(nvenc_cq(preset)),
            "-b:v"@,
            rate,
            "-maxrate"@,
            rate,
            "-bufsize"@,
            buf,
        ],
        HardwareAcceleration::Vaapi => seq!["-b:v"@, rate, "-maxrate"@, rate],
        HardwareAcceleration::VideoToolbox => seq!["-b:v"@, rate, "-realtime"@, "true"@],
        HardwareAcceleration::Qsv => seq![
            "-b:v"@,
            rate,
            "-maxrate"@,
            rate,
            "-bufsize"@,
            buf,
            "-bitrate_limit"@,
            "1"@,
            "-low_delay_brc"@,
            "1"@,
        ],
        HardwareAcceleration::Amf => seq![
            "-rc"@,
            "vbr_latency"@,
            "-quality"@,
            amf_quality(preset),
            "-b:v"@,
            rate,
            "-maxrate"@,
            rate,
            "-bufsize"@,
            buf,
        ],
    }
}

fn x264_params(preset: QualityPreset, threads: u32) -> (s: String)
    ensures
        s@ == x264_params_text(preset, threads),
{
    let mut s = "threads=".to_owned();
    s.append(decimal_of(threads as u64).as_str());
    match preset {
        QualityPreset::Fast | QualityPreset::Balanced => {},
        _ => {
            let lookahead: u32 = if threads < 2 {
                threads
            } else {
                2
            };
            s.append(":lookahead_threads=");
            s.append(decimal_of(lookahead as u64).as_str());
        },
    }
    s
}

/// Append the encoder's rate control arguments.
#[verifier::rlimit(40)]
pub fn push_video_encoding_args(
    args: &mut Args,
    config: &TranscodeSettings,
    video_kbps: u32,
    transcode_concurrency: u32,
    cpus: u32,
)
    ensures
        final(args)@ == old(args)@ + encoder_args(*config, video_kbps, transcode_concurrency, cpus),
{
    let ghost before = args@;
    let kbps: u64 = video_kbps as u64;
    let rate = kbps_arg(clamp_kbps(kbps));
    let buf = kbps_arg(clamp_kbps(kbps * 2));
    let preset = config.quality_preset;
    match config.hardware_acceleration {
        HardwareAcceleration::Software => {
            let threads = config.effective_ffmpeg_threads(transcode_concurrency, cpus);
            args.option("-preset", preset.ffmpeg_preset());
            args.option("-crf", decimal_of(preset.crf() as u64).as_str());
            args.option("-maxrate", rate.as_str());
            args.option("-bufsize", buf.as_str());
            args.option("-threads", decimal_of(threads as u64).as_str());
            args.option("-x264-params", x264_params(preset, threads).as_str());
            args.option("-tune", "zerolatency");
        },
        HardwareAcceleration::Nvenc => {
            let cq: u64 = match preset {
                QualityPreset::Fast => 28,
                QualityPreset::Balanced => 23,
                QualityPreset::Quality => 19,
                QualityPreset::Size => 32,
            };
            args.option("-preset", "p4");
            args.option("-rc", "vbr");
            args.option("-cq", decimal_of(cq).as_str());
            args.option("-b:v", rate.as_str());
            args.option("-maxrate", rate.as_str());
            args.option("-bufsize", buf.as_str());
        },
        HardwareAcceleration::Vaapi => {
            args.option("-b:v", rate.as_str());
            args.option("-maxrate", rate.as_str());
        },
        HardwareAcceleration::VideoToolbox => {
            args.option("-b:v", rate.as_str());
            args.option("-realtime", "true");
        },
        HardwareAcceleration::Qsv => {
            args.option("-b:v", rate.as_str());
            args.option("-maxrate", rate.as_str());
            args.option("-bufsize", buf.as_str());
            args.option("-bitrate_limit", "1");
            args.option("-low_delay_brc", "1");
        },
        HardwareAcceleration::Amf => {
            let quality = match preset {
                QualityPreset::Fast => "speed",
                QualityPreset::Balanced | QualityPreset::Size => "balanced",
                QualityPreset::Quality => "quality",
            };
            args.option("-rc", "vbr_latency");
            args.option("-quality", quality);
            args.option("-b:v", rate.as_str());
            args.option("-maxrate", rate.as_str());
            args.option("-bufsize", buf.as_str());
        },
    }
    assert(args@ =~= before + encoder_args(*config, video_kbps, transcode_concurrency, cpus));
}

// ---------------------------------------------------------------------------
// Whole command lines
// ---------------------------------------------------------------------------
/// Stream copy into a container that starts playing at once.
pub open spec fn remux_list(input: Seq<char>, output: Seq<char>, threads: u32) -> Seq<Seq<char>> {
    let threads_args = if threads > 0 {
        seq!["-threads"@, decimal(threads as nat)]
    } else {
        Seq::empty()
    };
    seq!["-y"@, "-i"@, input, "-c"@, "copy"@] + threads_args + seq![
        "-movflags"@,
        "+faststart"@,
        output,
    ]
}

pub fn remux_args(input: &str, output: &str, threads: u32) -> (args: Args)
    ensures
        args@ == remux_list(input@, output@, threads),
{
    let mut args = Args::new();
    args.push("-y");
    args.option("-i", input);
    args.option("-c", "copy");
    if threads > 0 {
        args.option("-threads", decimal_of(threads as u64).as_str());
    }
    args.option("-movflags", "+faststart");
    args.push(output);
    assert(args@ =~= remux_list(input@, output@, threads));
    args
}

/// Stream copy into parts that are cut at given times.
pub fn copy_segment_args(input: &str, pattern: &str, times: &str) -> (args: Args)
    ensures
        args@ == seq![
            "-y"@,
            "-i"@,
            input@,
            "-c"@,
            "copy"@,
            "-f"@,
            "segment"@,
            "-segment_times"@,
            times@,
            "-reset_timestamps"@,
            "1"@,
            pattern@,
        ],
{
    let mut args = Args::new();
    args.push("-y");
    args.option("-i", input);
    args.option("-c", "copy");
    args.option("-f", "segment");
    args.option("-segment_times", times);
    args.option("-reset_timestamps", "1");
    args.push(pattern);
    args
}

/// Stereo AAC at a bitrate.
pub open spec fn audio_args(audio_kbps: u32) -> Seq<Seq<char>> {
    seq!["-c:a"@, "aac"@, "-b:a"@, kbps_text(audio_kbps as nat), "-ac"@, "2"@]
}

pub open spec fn transcode_list(
    input: Seq<char>,
    output: Seq<char>,
    video_kbps: u32,
    audio_kbps: u32,
    max_height: Option<u32>,
    config: TranscodeSettings,
    concurrency: u32,
    cpus: u32,
    unix: bool,
) -> Seq<Seq<char>> {
    seq!["-y"@] + device_args(config, unix) + seq!["-i"@, input] + filter_args(
        max_height,
        config.hardware_acceleration,
    ) + seq!["-c:v"@, config.hardware_acceleration.encoder_name()] + encoder_args(
        config,
        video_kbps,
        concurrency,
        cpus,
    ) + audio_args(audio_kbps) + seq!["-movflags"@, "+faststart"@, output]
}

fn push_audio_args(args: &mut Args, audio_kbps: u32)
    ensures
        final(args)@ == old(args)@ + audio_args(audio_kbps),
{
    let ghost before = args@;
    args.option("-c:a", "aac");
    args.option("-b:a", kbps_arg(audio_kbps as u64).as_str());
    args.option("-ac", "2");
    assert(args@ =~= before + audio_args(audio_kbps));
}

/// Encode a whole file.
pub fn transcode_args(
    input: &str,
    output: &str,
    video_kbps: u32,
    audio_kbps: u32,
    max_height: Option<u32>,
    config: &TranscodeSettings,
    transcode_concurrency: u32,
    cpus: u32,
    unix: bool,
) -> (args: Args)
    ensures
        args@ == transcode_list(
            input@,
            output@,
            video_kbps,
            audio_kbps,
            max_height,
            *config,
            transcode_concurrency,
            cpus,
            unix,
        ),
{
    let mut args = Args::new();
    args.push("-y");
    assert(args@ =~= seq!["-y"@]);
    push_hw_device_input_args(&mut args, config, unix);
    args.option("-i", input);
    push_filter_args(&mut args, max_height, config.hardware_acceleration);
    args.option("-c:v", config.hardware_acceleration.encoder());
    push_video_encoding_args(&mut args, config, video_kbps, transcode_concurrency, cpus);
    push_audio_args(&mut args, audio_kbps);
    let ghost before = args@;
    args.option("-movflags", "+faststart");
    args.push(output);
    assert(args@ =~= before + seq!["-movflags"@, "+faststart"@, output@]);
    args
}

pub open spec fn segment_list(
    input: Seq<char>,
    output: Seq<char>,
    start: Seq<char>,
    duration: Seq<char>,
    video_kbps: u32,
    audio_kbps: u32,
    config: TranscodeSettings,
    concurrency: u32,
    cpus: u32,
    unix: bool,
) -> Seq<Seq<char>> {
    seq!["-y"@] + device_args(config, unix) + seq!["-ss"@, start] + seq!["-i"@, input] + seq![
        "-t"@,
        duration,
    ] + filter_args(None, config.hardware_acceleration) + seq![
        "-c:v"@,
        config.hardware_acceleration.encoder_name(),
    ] + encoder_args(config, video_kbps, concurrency, cpus) + audio_args(audio_kbps) + seq![
        "-force_key_frames"@,
        "expr:gte(t,0)"@,
        "-reset_timestamps"@,
        "1"@,
        "-avoid_negative_ts"@,
        "make_zero"@,
        "-movflags"@,
        "+faststart"@,
        output,
    ]
}

/// Encode one segment; `start` and `duration` are seconds with three decimals.
pub fn transcode_segment_args(
    input: &str,
    output: &str,
    start: &str,
    duration: &str,
    video_kbps: u32,
    audio_kbps: u32,
    config: &TranscodeSettings,
    transcode_concurrency: u32,
    cpus: u32,
    unix: bool,
) -> (args: Args)
    ensures
        args@ == segment_list(
            input@,
            output@,
            start@,
            duration@,
            video_kbps,
            audio_kbps,
            *config,
            transcode_concurrency,
            cpus,
            unix,
        ),
{
    let mut args = Args::new();
    args.push("-y");
    assert(args@ =~= seq!["-y"@]);
    push_hw_device_input_args(&mut args, config, unix);
    args.option("-ss", start);
    args.option("-i", input);
    args.option("-t", duration);
    push_filter_args(&mut args, None, config.hardware_acceleration);
    args.option("-c:v", config.hardware_acceleration.encoder());
    push_video_encoding_args(&mut args, config, video_kbps, transcode_concurrency, cpus);
    push_audio_args(&mut args, audio_kbps);
    let ghost before = args@;
    args.option("-force_key_frames", "expr:gte(t,0)");
    args.option("-reset_timestamps", "1");
    args.option("-avoid_negative_ts", "make_zero");
    args.option("-movflags", "+faststart");
    args.push(output);
    assert(args@ =~= before + seq![
        "-force_key_frames"@,
        "expr:gte(t,0)"@,
        "-reset_timestamps"@,
        "1"@,
        "-avoid_negative_ts"@,
        "make_zero"@,
        "-movflags"@,
        "+faststart"@,
        output@,
    ]);
    args
}

/// A segment is sought before its input is opened, with every backend.
pub proof fn lemma_segment_seeks_before_input(
    input: Seq<char>,
    output: Seq<char>,
    start: Seq<char>,
    duration: Seq<char>,
    video_kbps: u32,
    audio_kbps: u32,
    config: TranscodeSettings,
    concurrency: u32,
    cpus: u32,
    unix: bool,
)
    ensures
        ({
            let args = segment_list(
                input,
                output,
                start,
                duration,
                video_kbps,
                audio_kbps,
                config,
                concurrency,
                cpus,
                unix,
            );
            let at = 1 + device_args(config, unix).len() as int;
            args[at] == "-ss"@ && args[at + 1] == start && args[at + 2] == "-i"@ && args[at
                + 3] == input
        }),
{
}

/// The arguments of a run: those of the task, then progress reports on the
/// standard output.
pub fn execution_args(args: Args) -> (r: Args)
    ensures
        r@ == args@ + seq!["-progress"@, "pipe:1"@, "-nostats"@],
{
    let mut args = args;
    let ghost before = args@;
    args.option("-progress", "pipe:1");
    args.push("-nostats");
    assert(args@ =~= before + seq!["-progress"@, "pipe:1"@, "-nostats"@]);
    args
}

// ---------------------------------------------------------------------------
// Error output
// ---------------------------------------------------------------------------
/// Bytes without one line end at their end.
pub open spec fn without_line_end(s: Seq<u8>) -> Seq<u8> {
    if s.len() > 0 && s.last() == 10 {
        let cut = s.drop_last();
        if cut.len() > 0 && cut.last() == 13 {
            cut.drop_last()
        } else {
            cut
        }
    } else {
        s
    }
}

/// Where the last `n` lines of `s[..i]` begin.
pub open spec fn tail_start(s: Seq<u8>, n: nat, i: int) -> int
    decreases i,
{
    if n == 0 || i <= 0 {
        if i < 0 {
            0
        } else {
            i
        }
    } else if s[i - 1] == 10 {
        if n == 1 {
            i
        } else {
            tail_start(s, (n - 1) as nat, i - 1)
        }
    } else {
        tail_start(s, n, i - 1)
    }
}

/// Line feeds in some bytes.
pub open spec fn feeds(s: Seq<u8>) -> nat
    decreases s.len(),
{
    if s.len() == 0 {
        0
    } else {
        feeds(s.drop_last()) + (if s.last() == 10 {
            1nat
        } else {
            0
        })
    }
}

/// Where the last lines begin.
pub fn stderr_tail_start(stderr: &[u8], max_lines: usize) -> (start: usize)
    ensures
        start == tail_start(stderr@, max_lines as nat, stderr@.len() as int),
        start <= stderr@.len(),
{
    let mut n: usize = max_lines;
    let mut i: usize = stderr.len();
    while n > 0 && i > 0
        invariant
            i <= stderr@.len(),
            tail_start(stderr@, max_lines as nat, stderr@.len() as int) == tail_start(
                stderr@,
                n as nat,
                i as int,
            ),
        decreases i,
    {
        if stderr[i - 1] == 10 {
            if n == 1 {
                return i;
            }
            n = n - 1;
        }
        i = i - 1;
    }
    i
}

proof fn lemma_tail_feeds(s: Seq<u8>, n: nat, i: int)
    requires
        0 <= i <= s.len(),
        n > 0,
    ensures
        0 <= tail_start(s, n, i) <= i,
        feeds(s.subrange(tail_start(s, n, i), i)) < n,
        tail_start(s, n, i) > 0 ==> s[tail_start(s, n, i) - 1] == 10 && feeds(
            s.subrange(tail_start(s, n, i), i),
        ) + 1 == n,
    decreases i,
{
    if i > 0 {
        let t = tail_start(s, n, i);
        if s[i - 1] == 10 {
            if n == 1 {
                assert(s.subrange(i, i) =~= Seq::<u8>::empty());
            } else {
                lemma_tail_feeds(s, (n - 1) as nat, i - 1);
                assert(s.subrange(t, i).drop_last() =~= s.subrange(t, i - 1));
                assert(s.subrange(t, i).last() == 10);
            }
        } else {
            lemma_tail_feeds(s, n, i - 1);
            if t < i {
                assert(s.subrange(t, i).drop_last() =~= s.subrange(t, i - 1));
                assert(s.subrange(t, i).last() != 10);
            }
        }
    } else {
        assert(s.subrange(0, 0) =~= Seq::<u8>::empty());
    }
}

/// The tail holds at most `n` lines, and exactly `n` where something was cut
/// off; a cut is made only behind a line feed.
pub proof fn lemma_tail_keeps_last_lines(s: Seq<u8>, n: nat)
    requires
        n > 0,
    ensures
        ({
            let t = tail_start(s, n, s.len() as int);
            &&& 0 <= t <= s.len()
            &&& feeds(s.skip(t)) < n
            &&& t > 0 ==> s[t - 1] == 10 && feeds(s.skip(t)) + 1 == n
        }),
{
    lemma_tail_feeds(s, n, s.len() as int);
    let t = tail_start(s, n, s.len() as int);
    assert(s.skip(t) =~= s.subrange(t, s.len() as int));
}

/// One line appended to a text, on a line of its own where the text is not
/// empty.
pub open spec fn with_line(text: Seq<char>, line: Seq<char>) -> Seq<char> {
    let cut = if line.len() > 0 && line.last() == '\r' {
        line.drop_last()
    } else {
        line
    };
    if text.len() > 0 {
        text.push('\n') + cut
    } else {
        cut
    }
}

pub open spec fn with_lines(lines: Seq<Seq<char>>) -> Seq<char>
    decreases lines.len(),
{
    if lines.len() == 0 {
        Seq::empty()
    } else {
        with_line(with_lines(lines.drop_last()), lines.last())
    }
}

/// A text with its line ends made plain.
pub open spec fn plain_line_ends(text: Seq<char>) -> Seq<char> {
    if text.contains('\r') {
        with_lines(split(text, '\n'))
    } else {
        text
    }
}

/// Decode a tail and make its line ends plain.
pub fn tail_text(stderr_tail: &[u8]) -> (s: String)
    ensures
        s@ == plain_line_ends(lossy_text(stderr_tail@)),
{
    let tail = utf8_lossy(stderr_tail);
    let chars = chars_of(tail.as_str());
    if !has_char(&chars, '\r') {
        return tail;
    }
    let lines = split_str(tail.as_str(), '\n');
    let ghost all = views(lines@);
    let mut output: Vec<char> = Vec::new();
    let mut i: usize = 0;
    while i < lines.len()
        invariant
            i <= lines@.len(),
            all == views(lines@),
            output@ == with_lines(all.take(i as int)),
        decreases lines@.len() - i,
    {
        let line = chars_of(lines[i].as_str());
        let ghost before = output@;
        assert(all.take(i + 1).drop_last() =~= all.take(i as int));
        assert(all.take(i + 1).last() == line@);
        let mut end: usize = line.len();
        if end > 0 && line[end - 1] == '\r' {
            end = end - 1;
        }
        if output.len() > 0 {
            output.push('\n');
        }
        let ghost start = output@;
        let mut j: usize = 0;
        while j < end
            invariant
                j <= end <= line@.len(),
                output@ == start + line@.take(j as int),
            decreases end - j,
        {
            output.push(line[j]);
            j = j + 1;
            assert(start + line@.take(j as int) =~= output@);
        }
        assert(output@ =~= with_line(before, line@));
        i = i + 1;
    }
    assert(all.take(i as int) =~= all);
    string_of(&output)
}

/// The last lines of error output as text.
pub open spec fn stderr_text(stderr: Seq<u8>, max_lines: nat, truncated: bool) -> Seq<char> {
    let body = without_line_end(stderr);
    let tail = plain_line_ends(
        lossy_text(body.skip(tail_start(body, max_lines, body.len() as int))),
    );
    if !truncated {
        tail
    } else if tail.len() > 0 {
        tail.push('\n') + "[stderr truncated]"@
    } else {
        tail + "[stderr truncated]"@
    }
}

/// The last lines of error output, with a mark where it was cut.
pub fn format_stderr_tail(stderr: &[u8], max_lines: usize, truncated: bool) -> (s: String)
    ensures
        s@ == stderr_text(stderr@, max_lines as nat, truncated),
{
    let mut end: usize = stderr.len();
    if end > 0 && stderr[end - 1] == 10 {
        end = end - 1;
        if end > 0 && stderr[end - 1] == 13 {
            end = end - 1;
        }
    }
    let body = copy_bytes(stderr, 0, end);
    assert(body@ =~= without_line_end(stderr@));
    let start = stderr_tail_start(&body, max_lines);
    let tail = copy_bytes(&body, start, body.len());
    assert(tail@ =~= body@.skip(start as int));
    let mut joined = tail_text(&tail);
    if truncated {
        if !joined.as_str().is_empty() {
            joined.push('\n');
        }
        joined.append("[stderr truncated]");
    }
    joined
}

fn copy_bytes(v: &[u8], from: usize, to: usize) -> (r: Vec<u8>)
    requires
        from <= to <= v@.len(),
    ensures
        r@ == v@.subrange(from as int, to as int),
{
    let mut r: Vec<u8> = Vec::new();
    let mut i: usize = from;
    while i < to
        invariant
            from <= i <= to <= v@.len(),
            r@ == v@.subrange(from as int, i as int),
        decreases to - i,
    {
        r.push(v[i]);
        i = i + 1;
    }
    r
}

// ---------------------------------------------------------------------------
// The course of a run
// ---------------------------------------------------------------------------
/// How the error output of a run came back.
#[derive(Debug)]
pub enum StderrOutcome {
    Read(BoundedRead),
    ReadFailed(String),
    TaskFailed,
    DrainTimedOut,
}

/// The text for a number of lines.
pub open spec fn outcome_text(o: StderrOutcome, lines: nat) -> Seq<char> {
    match o {
        StderrOutcome::Read(out) => stderr_text(out.data@, lines, out.exceeded),
        StderrOutcome::ReadFailed(cause) => "stderr read failed: "@ + cause@,
        StderrOutcome::TaskFailed => "stderr task failed"@,
        StderrOutcome::DrainTimedOut => "stderr drain timed out"@,
    }
}

pub fn stderr_outcome_text(outcome: &StderrOutcome, lines: usize) -> (s: String)
    ensures
        s@ == outcome_text(*outcome, lines as nat),
{
    match outcome {
        StderrOutcome::Read(out) => format_stderr_tail(&out.data, lines, out.exceeded),
        StderrOutcome::ReadFailed(cause) => {
            let mut s = "stderr read failed: ".to_owned();
            s.append(cause.as_str());
            s
        },
        StderrOutcome::TaskFailed => "stderr task failed".to_owned(),
        StderrOutcome::DrainTimedOut => "stderr drain timed out".to_owned(),
    }
}

/// Where a run stands.
#[derive(Debug, Clone, Copy, PartialEq, Eq, Structural)]
pub enum RunPhase {
    /// Progress lines are read and dropped.
    Draining,
    /// The output has ended; the process has to.
    Waiting,
    /// The process has ended; its error output is collected.
    Collecting { success: bool, exit_code: Option<i32> },
    /// The run is over.
    Over,
}

/// What happens to a run. Times are milliseconds since it began.
#[derive(Debug)]
pub enum RunEvent {
    /// A progress line came.
    Line { elapsed_ms: u64 },
    /// No line came for a while.
    Quiet { elapsed_ms: u64, since_heartbeat_ms: u64 },
    /// The output ended, or could not be read on.
    OutputEnded,
    /// The process ended.
    Exited { success: bool, exit_code: Option<i32> },
    /// Waiting for the process failed.
    WaitFailed { error: std::io::Error },
    /// The process did not end in time.
    WaitTimedOut,
    /// The error output came back.
    Stderr { outcome: StderrOutcome },
}

/// What the caller does next.
#[derive(Debug)]
pub enum RunAction {
    /// Read the next line.
    ReadLine { log_heartbeat: bool },
    /// Wait for the process, at most so many seconds.
    AwaitExit { timeout_secs: u64 },
    /// Wait for the error output, at most so many seconds.
    AwaitStderr { timeout_secs: u64 },
    /// Kill the process group, wait for it, drop its error output, and fail.
    KillAndFail { error: Error },
    /// Fail.
    Fail { error: Error },
    /// Succeed; the text goes to the log.
    Succeed { log_tail: String },
    /// Nothing: the event does not fit the phase.
    Ignore,
}

/// One ffmpeg run under a time limit.
#[derive(Debug)]
pub struct FfmpegRun {
    pub stage: TranscodeStage,
    pub timeout_ms: u64,
    pub phase: RunPhase,
}

impl FfmpegRun {
    pub fn new(stage: TranscodeStage, timeout_ms: u64) -> (r: Self)
        ensures
            r == (FfmpegRun { stage, timeout_ms, phase: RunPhase::Draining }),
    {
        FfmpegRun { stage, timeout_ms, phase: RunPhase::Draining }
    }

    /// The phase after an event.
    pub open spec fn next_phase(&self, event: RunEvent) -> RunPhase {
        match (self.phase, event) {
            (RunPhase::Draining, RunEvent::Line { elapsed_ms }) => if elapsed_ms
                > self.timeout_ms {
                RunPhase::Over
            } else {
                RunPhase::Draining
            },
            (RunPhase::Draining, RunEvent::Quiet { elapsed_ms, .. }) => if elapsed_ms
                > self.timeout_ms {
                RunPhase::Over
            } else {
                RunPhase::Draining
            },
            (RunPhase::Draining, RunEvent::OutputEnded) => RunPhase::Waiting,
            (RunPhase::Waiting, RunEvent::Exited { success, exit_code }) => RunPhase::Collecting {
                success,
                exit_code,
            },
            (RunPhase::Waiting, RunEvent::WaitFailed { .. }) => RunPhase::Over,
            (RunPhase::Waiting, RunEvent::WaitTimedOut) => RunPhase::Over,
            (RunPhase::Collecting { .. }, RunEvent::Stderr { .. }) => RunPhase::Over,
            _ => self.phase,
        }
    }

    /// The action for an event.
    pub open spec fn is_action(&self, event: RunEvent, action: RunAction) -> bool {
        match (self.phase, event) {
            (RunPhase::Draining, RunEvent::Line { elapsed_ms }) => if elapsed_ms
                > self.timeout_ms {
                action == (RunAction::KillAndFail {
                    error: Error::Timeout { operation: "ffmpeg", duration_ms: self.timeout_ms },
                })
            } else {
                action == (RunAction::ReadLine { log_heartbeat: false })
            },
            (RunPhase::Draining, RunEvent::Quiet { elapsed_ms, since_heartbeat_ms }) =>
                if elapsed_ms > self.timeout_ms {
                    action == (RunAction::KillAndFail {
                        error: Error::Timeout { operation: "ffmpeg", duration_ms: self.timeout_ms },
                    })
                } else {
                    action == (RunAction::ReadLine {
                        log_heartbeat: since_heartbeat_ms >= PROGRESS_HEARTBEAT_SECS * 1000,
                    })
                },
            (RunPhase::Draining, RunEvent::OutputEnded) => action == (RunAction::AwaitExit {
                timeout_secs: WAIT_TIMEOUT_SECS,
            }),
            (RunPhase::Waiting, RunEvent::Exited { .. }) => action == (RunAction::AwaitStderr {
                timeout_secs: STDERR_DRAIN_TIMEOUT_SECS,
            }),
            (RunPhase::Waiting, RunEvent::WaitFailed { error }) => action == (RunAction::Fail {
                error: Error::Io(error),
            }),
            (RunPhase::Waiting, RunEvent::WaitTimedOut) => action == (RunAction::KillAndFail {
                error: Error::Timeout { operation: "ffmpeg-wait", duration_ms: 30_000 },
            }),
            (RunPhase::Collecting { success, exit_code }, RunEvent::Stderr { outcome }) =>
                if success {
                    action matches RunAction::Succeed { log_tail } && log_tail@ == outcome_text(
                        outcome,
                        FFMPEG_SUCCESS_STDERR_TAIL_LINES as nat,
                    )
                } else {
                    action matches RunAction::Fail {
                        error: Error::TranscodeFailed { stage, exit_code: code, stderr_tail },
                    } && stage == self.stage && code == exit_code && stderr_tail@ == outcome_text(
                        outcome,
                        FFMPEG_ERROR_STDERR_TAIL_LINES as nat,
                    )
                },
            _ => action is Ignore,
        }
    }

    /// Take in an event and say what to do.
    pub fn on_event(&mut self, event: RunEvent) -> (action: RunAction)
        ensures
            final(self).stage == old(self).stage,
            final(self).timeout_ms == old(self).timeout_ms,
            final(self).phase == old(self).next_phase(event),
            old(self).is_action(event, action),
    {
        match self.phase {
            RunPhase::Draining => match event {
                RunEvent::Line { elapsed_ms } => self.keep_draining(elapsed_ms, false),
                RunEvent::Quiet { elapsed_ms, since_heartbeat_ms } => {
                    let due = since_heartbeat_ms >= PROGRESS_HEARTBEAT_SECS * 1000;
                    self.keep_draining(elapsed_ms, due)
                },
                RunEvent::OutputEnded => {
                    self.phase = RunPhase::Waiting;
                    RunAction::AwaitExit { timeout_secs: WAIT_TIMEOUT_SECS }
                },
                _ => RunAction::Ignore,
            },
            RunPhase::Waiting => match event {
                RunEvent::Exited { success, exit_code } => {
                    self.phase = RunPhase::Collecting { success, exit_code };
                    RunAction::AwaitStderr { timeout_secs: STDERR_DRAIN_TIMEOUT_SECS }
                },
                RunEvent::WaitFailed { error } => {
                    self.phase = RunPhase::Over;
                    RunAction::Fail { error: Error::Io(error) }
                },
                RunEvent::WaitTimedOut => {
                    self.phase = RunPhase::Over;
                    RunAction::KillAndFail {
                        error: Error::Timeout { operation: "ffmpeg-wait", duration_ms: 30_000 },
                    }
                },
                _ => RunAction::Ignore,
            },
            RunPhase::Collecting { success, exit_code } => match event {
                RunEvent::Stderr { outcome } => {
                    self.phase = RunPhase::Over;
                    if success {
                        RunAction::Succeed {
                            log_tail: stderr_outcome_text(
                                &outcome,
                                FFMPEG_SUCCESS_STDERR_TAIL_LINES,
                            ),
                        }
                    } else {
                        RunAction::Fail {
                            error: Error::TranscodeFailed {
                                stage: self.stage,
                                exit_code,
                                stderr_tail: stderr_outcome_text(
                                    &outcome,
                                    FFMPEG_ERROR_STDERR_TAIL_LINES,
                                ),
                            },
                        }
                    }
                },
                _ => RunAction::Ignore,
            },
            RunPhase::Over => RunAction::Ignore,
        }
    }

    fn keep_draining(&mut self, elapsed_ms: u64, log_heartbeat: bool) -> (action: RunAction)
        requires
            old(self).phase == RunPhase::Draining,
        ensures
            final(self).stage == old(self).stage,
            final(self).timeout_ms == old(self).timeout_ms,
            elapsed_ms > old(self).timeout_ms ==> final(self).phase == RunPhase::Over && action
                == (RunAction::KillAndFail {
                error: Error::Timeout { operation: "ffmpeg", duration_ms: old(self).timeout_ms },
            }),
            elapsed_ms <= old(self).timeout_ms ==> *final(self) == *old(self) && action
                == (RunAction::ReadLine { log_heartbeat }),
    {
        if elapsed_ms > self.timeout_ms {
            self.phase = RunPhase::Over;
            RunAction::KillAndFail {
                error: Error::Timeout { operation: "ffmpeg", duration_ms: self.timeout_ms },
            }
        } else {
            RunAction::ReadLine { log_heartbeat }
        }
    }
}

/// A run succeeds only where the process ended with success, and a run that is
/// over stays so.
pub proof fn lemma_run_success_needs_exit(run: FfmpegRun, event: RunEvent, action: RunAction)
    requires
        run.is_action(event, action),
    ensures
        action is Succeed ==> (run.phase matches RunPhase::Collecting { success, .. } && success),
        run.phase == RunPhase::Over ==> action is Ignore && run.next_phase(event)
            == RunPhase::Over,
        action is Succeed || action is Fail || action is KillAndFail ==> run.next_phase(event)
            == RunPhase::Over,
{
}

// ---------------------------------------------------------------------------
// What command lines ask for
// ---------------------------------------------------------------------------
/// An option stands at a place, with its value behind it.
pub open spec fn option_at(args: Seq<Seq<char>>, i: int, flag: Seq<char>, value: Seq<char>) -> bool {
    0 <= i && i + 1 < args.len() && args[i] == flag && args[i + 1] == value
}

/// An option with a value stands among arguments.
pub open spec fn sets(args: Seq<Seq<char>>, flag: Seq<char>, value: Seq<char>) -> bool {
    exists|i: int| #[trigger] option_at(args, i, flag, value)
}

/// A bitrate as ffmpeg reads it.
pub open spec fn kilobits(n: nat) -> Seq<char> {
    decimal(n).push('k')
}

proof fn lemma_kbps_text(n: nat)
    ensures
        kbps_text(n) == kilobits(n),
{
    reveal_strlit("k");
    assert(kbps_text(n) =~= kilobits(n));
}

/// The sound of a segment is AAC at the audio bitrate, whatever the backend and
/// the video bitrate are. No later option changes that, and two encodes that
/// differ in the audio bitrate differ nowhere else.
pub proof fn lemma_segment_sound_follows_audio_bitrate(
    input: Seq<char>,
    output: Seq<char>,
    start: Seq<char>,
    duration: Seq<char>,
    video_kbps: u32,
    other_video_kbps: u32,
    audio_kbps: u32,
    other_audio_kbps: u32,
    config: TranscodeSettings,
    concurrency: u32,
    cpus: u32,
    unix: bool,
)
    requires
        output != "-b:a"@,
        output != "-c:a"@,
    ensures
        ({
            let args = segment_list(
                input, output, start, duration, video_kbps, audio_kbps, config, concurrency, cpus,
                unix,
            );
            let at = args.len() - 13;
            let louder = segment_list(
                input, output, start, duration, video_kbps, other_audio_kbps, config, concurrency,
                cpus, unix,
            );
            let sharper = segment_list(
                input, output, start, duration, other_video_kbps, audio_kbps, config, concurrency,
                cpus, unix,
            );
            &&& option_at(args, at - 2, "-c:a"@, "aac"@)
            &&& option_at(args, at, "-b:a"@, kilobits(audio_kbps as nat))
            &&& forall|i: int| at < i < args.len() ==> #[trigger] args[i] != "-b:a"@ && args[i]
                != "-c:a"@
            &&& louder == args.update(at + 1, kilobits(other_audio_kbps as nat))
            &&& sharper.len() == args.len()
            &&& sharper.skip(at - 2) == args.skip(at - 2)
        }),
{
    lemma_kbps_text(audio_kbps as nat);
    lemma_kbps_text(other_audio_kbps as nat);
    lemma_sound_text(audio_kbps);
    reveal_strlit("-force_key_frames");
    reveal_strlit("expr:gte(t,0)");
    reveal_strlit("-reset_timestamps");
    reveal_strlit("1");
    reveal_strlit("-avoid_negative_ts");
    reveal_strlit("make_zero");
    reveal_strlit("-movflags");
    reveal_strlit("+faststart");
    assert("-force_key_frames"@.len() == 17 && "expr:gte(t,0)"@.len() == 13
        && "-reset_timestamps"@.len() == 17 && "1"@.len() == 1 && "-avoid_negative_ts"@.len() == 18
        && "make_zero"@.len() == 9 && "-movflags"@.len() == 9 && "+faststart"@.len() == 10);
    let args = segment_list(
        input, output, start, duration, video_kbps, audio_kbps, config, concurrency, cpus, unix,
    );
    let louder = segment_list(
        input, output, start, duration, video_kbps, other_audio_kbps, config, concurrency, cpus,
        unix,
    );
    let sharper = segment_list(
        input, output, start, duration, other_video_kbps, audio_kbps, config, concurrency, cpus,
        unix,
    );
    let at = args.len() - 13;
    assert(louder =~= args.update(at + 1, kilobits(other_audio_kbps as nat)));
    assert(sharper.skip(at - 2) =~= args.skip(at - 2));
}

/// A bitrate is no option, and neither is anything else about the sound.
proof fn lemma_sound_text(audio_kbps: u32)
    ensures
        "-b:a"@.len() == 4,
        "-c:a"@.len() == 4,
        "-b:a"@ != "-c:a"@,
        kilobits(audio_kbps as nat) != "-b:a"@,
        kilobits(audio_kbps as nat) != "-c:a"@,
        "aac"@.len() == 3,
        "-ac"@.len() == 3,
        "2"@.len() == 1,
{
    reveal_strlit("-b:a");
    reveal_strlit("-c:a");
    reveal_strlit("aac");
    reveal_strlit("-ac");
    reveal_strlit("2");
    assert("-b:a"@[1] != "-c:a"@[1]);
    lemma_decimal_value(audio_kbps as nat);
    let k = kilobits(audio_kbps as nat);
    assert(k[0] == decimal(audio_kbps as nat)[0]);
    assert(is_digit(k[0]));
    assert("-b:a"@[0] == '-' && "-c:a"@[0] == '-');
}

/// The same of a whole file.
pub proof fn lemma_file_sound_follows_audio_bitrate(
    input: Seq<char>,
    output: Seq<char>,
    video_kbps: u32,
    other_video_kbps: u32,
    audio_kbps: u32,
    other_audio_kbps: u32,
    height: Option<u32>,
    config: TranscodeSettings,
    concurrency: u32,
    cpus: u32,
    unix: bool,
)
    requires
        output != "-b:a"@,
        output != "-c:a"@,
    ensures
        ({
            let args = transcode_list(
                input, output, video_kbps, audio_kbps, height, config, concurrency, cpus, unix,
            );
            let louder = transcode_list(
                input, output, video_kbps, other_audio_kbps, height, config, concurrency, cpus,
                unix,
            );
            let sharper = transcode_list(
                input, output, other_video_kbps, audio_kbps, height, config, concurrency, cpus,
                unix,
            );
            let at = args.len() - 7;
            &&& option_at(args, at - 2, "-c:a"@, "aac"@)
            &&& option_at(args, at, "-b:a"@, kilobits(audio_kbps as nat))
            &&& forall|i: int| at < i < args.len() ==> #[trigger] args[i] != "-b:a"@ && args[i]
                != "-c:a"@
            &&& louder == args.update(at + 1, kilobits(other_audio_kbps as nat))
            &&& sharper.len() == args.len()
            &&& sharper.skip(at - 2) == args.skip(at - 2)
            &&& args.last() == output
        }),
{
    lemma_kbps_text(audio_kbps as nat);
    lemma_kbps_text(other_audio_kbps as nat);
    lemma_sound_text(audio_kbps);
    reveal_strlit("-movflags");
    reveal_strlit("+faststart");
    assert("-movflags"@.len() == 9 && "+faststart"@.len() == 10);
    let args = transcode_list(
        input, output, video_kbps, audio_kbps, height, config, concurrency, cpus, unix,
    );
    let louder = transcode_list(
        input, output, video_kbps, other_audio_kbps, height, config, concurrency, cpus, unix,
    );
    let sharper = transcode_list(
        input, output, other_video_kbps, audio_kbps, height, config, concurrency, cpus, unix,
    );
    let at = args.len() - 7;
    assert(louder =~= args.update(at + 1, kilobits(other_audio_kbps as nat)));
    assert(sharper.skip(at - 2) =~= args.skip(at - 2));
}

/// Every backend is held to the video bitrate, and every one that buffers to
/// twice as much. Beyond a hundred megabits both are capped.
pub proof fn lemma_encoders_hold_the_video_bitrate(
    config: TranscodeSettings,
    kbps: u32,
    concurrency: u32,
    cpus: u32,
)
    ensures
        ({
            let args = encoder_args(config, kbps, concurrency, cpus);
            let backend = config.hardware_acceleration;
            let rate = kilobits(if kbps <= 100_000 {
                kbps as nat
            } else {
                100_000
            });
            let buffer = kilobits(if kbps <= 50_000 {
                2 * kbps as nat
            } else {
                100_000
            });
            &&& backend != HardwareAcceleration::Software ==> sets(args, "-b:v"@, rate)
            &&& backend != HardwareAcceleration::VideoToolbox ==> sets(args, "-maxrate"@, rate)
            &&& backend != HardwareAcceleration::VideoToolbox && backend
                != HardwareAcceleration::Vaapi ==> sets(args, "-bufsize"@, buffer)
            &&& backend == HardwareAcceleration::Software ==> {
                &&& sets(args, "-crf"@, decimal(config.quality_preset.crf_value() as nat))
                &&& sets(args, "-preset"@, config.quality_preset.preset_name())
                &&& sets(
                    args,
                    "-threads"@,
                    decimal(thread_share(config.ffmpeg_threads, cpus, concurrency) as nat),
                )
            }
        }),
{
    let args = encoder_args(config, kbps, concurrency, cpus);
    let rate = kilobits(capped_kbps(kbps as int));
    let buffer = kilobits(capped_kbps(kbps * 2));
    lemma_kbps_text(capped_kbps(kbps as int));
    lemma_kbps_text(capped_kbps(kbps * 2));
    let preset = config.quality_preset;
    let threads = thread_share(config.ffmpeg_threads, cpus, concurrency);
    match config.hardware_acceleration {
        HardwareAcceleration::Software => {
            assert(option_at(args, 0, "-preset"@, preset.preset_name()));
            assert(option_at(args, 2, "-crf"@, decimal(preset.crf_value() as nat)));
            assert(option_at(args, 4, "-maxrate"@, rate));
            assert(option_at(args, 6, "-bufsize"@, buffer));
            assert(option_at(args, 8, "-threads"@, decimal(threads as nat)));
        },
        HardwareAcceleration::Nvenc => {
            assert(option_at(args, 6, "-b:v"@, rate));
            assert(option_at(args, 8, "-maxrate"@, rate));
            assert(option_at(args, 10, "-bufsize"@, buffer));
        },
        HardwareAcceleration::Vaapi => {
            assert(option_at(args, 0, "-b:v"@, rate));
            assert(option_at(args, 2, "-maxrate"@, rate));
        },
        HardwareAcceleration::VideoToolbox => {
            assert(option_at(args, 0, "-b:v"@, rate));
        },
        HardwareAcceleration::Qsv => {
            assert(option_at(args, 0, "-b:v"@, rate));
            assert(option_at(args, 2, "-maxrate"@, rate));
            assert(option_at(args, 4, "-bufsize"@, buffer));
        },
        HardwareAcceleration::Amf => {
            assert(option_at(args, 4, "-b:v"@, rate));
            assert(option_at(args, 6, "-maxrate"@, rate));
            assert(option_at(args, 8, "-bufsize"@, buffer));
        },
    }
}

/// NVENC spends most on the quality preset and least on the size preset.
pub proof fn lemma_nvenc_quality_follows_preset()
    ensures
        nvenc_cq(QualityPreset::Quality) < nvenc_cq(QualityPreset::Balanced) < nvenc_cq(
            QualityPreset::Fast,
        ) < nvenc_cq(QualityPreset::Size) <= 51,
{
}

proof fn lemma_sets_within(a: Seq<Seq<char>>, b: Seq<Seq<char>>, c: Seq<Seq<char>>)
    ensures
        forall|flag: Seq<char>, value: Seq<char>| #[trigger]
            sets(b, flag, value) ==> sets(a + b + c, flag, value),
{
    assert forall|flag: Seq<char>, value: Seq<char>| #[trigger] sets(b, flag, value) implies sets(
        a + b + c,
        flag,
        value,
    ) by {
        let i = choose|i: int| option_at(b, i, flag, value);
        assert(option_at(a + b + c, a.len() + i, flag, value));
    }
}

/// An encode of a whole file reads its input, uses the encoder of the backend,
/// keeps every setting of the rate control, scales where a height is given, and
/// writes to its output.
pub proof fn lemma_file_encode_keeps_its_parts(
    input: Seq<char>,
    output: Seq<char>,
    video_kbps: u32,
    audio_kbps: u32,
    height: Option<u32>,
    config: TranscodeSettings,
    concurrency: u32,
    cpus: u32,
    unix: bool,
)
    ensures
        ({
            let args = transcode_list(
                input, output, video_kbps, audio_kbps, height, config, concurrency, cpus, unix,
            );
            let rates = encoder_args(config, video_kbps, concurrency, cpus);
            let device = device_args(config, unix);
            &&& args[0] == "-y"@
            &&& option_at(args, 1 + device.len() as int, "-i"@, input)
            &&& sets(args, "-c:v"@, config.hardware_acceleration.encoder_name())
            &&& forall|flag: Seq<char>, value: Seq<char>| #[trigger]
                sets(rates, flag, value) ==> sets(args, flag, value)
            &&& forall|flag: Seq<char>, value: Seq<char>| #[trigger]
                sets(device, flag, value) ==> sets(args, flag, value)
            &&& filter_text(height, config.hardware_acceleration) matches Some(filter) ==> sets(
                args,
                "-vf"@,
                filter,
            )
            &&& sets(args, "-movflags"@, "+faststart"@)
            &&& args.last() == output
        }),
{
    let backend = config.hardware_acceleration;
    let args = transcode_list(
        input, output, video_kbps, audio_kbps, height, config, concurrency, cpus, unix,
    );
    let rates = encoder_args(config, video_kbps, concurrency, cpus);
    let device = device_args(config, unix);
    let filter = filter_args(height, backend);
    let read = seq!["-i"@, input];
    let encoder = seq!["-c:v"@, backend.encoder_name()];
    let sound = audio_args(audio_kbps);
    let tail = seq!["-movflags"@, "+faststart"@, output];
    assert(option_at(args, 1 + device.len() as int, "-i"@, input));
    let before = seq!["-y"@] + device + read + filter + encoder;
    assert(args =~= before + rates + (sound + tail));
    lemma_sets_within(before, rates, sound + tail);
    assert(args =~= seq!["-y"@] + device + (read + filter + encoder + rates + sound + tail));
    lemma_sets_within(
        seq!["-y"@],
        device,
        read + filter + encoder + rates + sound + tail,
    );
    assert(option_at(args, before.len() - 2, "-c:v"@, backend.encoder_name()));
    assert(option_at(args, args.len() - 3, "-movflags"@, "+faststart"@));
    if let Some(text) = filter_text(height, backend) {
        assert(option_at(args, 3 + device.len() as int, "-vf"@, text));
    }
}

/// The same of a segment, which is also limited to its duration.
pub proof fn lemma_segment_encode_keeps_its_parts(
    input: Seq<char>,
    output: Seq<char>,
    start: Seq<char>,
    duration: Seq<char>,
    video_kbps: u32,
    audio_kbps: u32,
    config: TranscodeSettings,
    concurrency: u32,
    cpus: u32,
    unix: bool,
)
    ensures
        ({
            let args = segment_list(
                input, output, start, duration, video_kbps, audio_kbps, config, concurrency, cpus,
                unix,
            );
            let rates = encoder_args(config, video_kbps, concurrency, cpus);
            let device = device_args(config, unix);
            &&& args[0] == "-y"@
            &&& option_at(args, 1 + device.len() as int, "-ss"@, start)
            &&& option_at(args, 3 + device.len() as int, "-i"@, input)
            &&& option_at(args, 5 + device.len() as int, "-t"@, duration)
            &&& sets(args, "-c:v"@, config.hardware_acceleration.encoder_name())
            &&& forall|flag: Seq<char>, value: Seq<char>| #[trigger]
                sets(rates, flag, value) ==> sets(args, flag, value)
            &&& forall|flag: Seq<char>, value: Seq<char>| #[trigger]
                sets(device, flag, value) ==> sets(args, flag, value)
            &&& filter_text(None, config.hardware_acceleration) matches Some(filter) ==> sets(
                args,
                "-vf"@,
                filter,
            )
            &&& sets(args, "-reset_timestamps"@, "1"@)
            &&& sets(args, "-avoid_negative_ts"@, "make_zero"@)
            &&& sets(args, "-movflags"@, "+faststart"@)
            &&& args.last() == output
        }),
{
    let backend = config.hardware_acceleration;
    let args = segment_list(
        input, output, start, duration, video_kbps, audio_kbps, config, concurrency, cpus, unix,
    );
    let rates = encoder_args(config, video_kbps, concurrency, cpus);
    let device = device_args(config, unix);
    let filter = filter_args(None, backend);
    let n = device.len() as int;
    assert(option_at(args, 1 + n, "-ss"@, start));
    assert(option_at(args, 3 + n, "-i"@, input));
    assert(option_at(args, 5 + n, "-t"@, duration));
    let before = seq!["-y"@] + device + seq!["-ss"@, start] + seq!["-i"@, input] + seq![
        "-t"@,
        duration,
    ] + filter + seq!["-c:v"@, backend.encoder_name()];
    let behind = args.skip((before.len() + rates.len()) as int);
    assert(args =~= before + rates + behind);
    lemma_sets_within(before, rates, behind);
    let rest = args.skip(1 + n);
    assert(args =~= seq!["-y"@] + device + rest);
    lemma_sets_within(seq!["-y"@], device, rest);
    assert(option_at(args, before.len() - 2, "-c:v"@, backend.encoder_name()));
    assert(option_at(args, args.len() - 7, "-reset_timestamps"@, "1"@));
    assert(option_at(args, args.len() - 5, "-avoid_negative_ts"@, "make_zero"@));
    assert(option_at(args, args.len() - 3, "-movflags"@, "+faststart"@));
    if let Some(text) = filter_text(None, backend) {
        assert(option_at(args, 7 + n, "-vf"@, text));
    }
}

/// A filter for a height ends in that height, whatever scales; without a height
/// only backends that need their frames uploaded have one.
pub proof fn lemma_filters_scale_to_the_height(height: u32, backend: HardwareAcceleration)
    ensures
        filter_text(Some(height), backend) matches Some(filter) && ends_with(
            filter,
            seq![':'] + decimal(height as nat),
        ),
        filter_text(None, backend) is Some <==> backend == HardwareAcceleration::Vaapi || backend
            == HardwareAcceleration::Qsv,
{
    let d = decimal(height as nat);
    reveal_strlit("format=nv12|vaapi,hwupload,scale_vaapi=-2:");
    reveal_strlit("format=nv12,hwupload=extra_hw_frames=64,scale_qsv=-1:");
    reveal_strlit("scale=-2:");
    let filter = filter_text(Some(height), backend)->0;
    assert(filter.skip(filter.len() - d.len() - 1) =~= seq![':'] + d);
}

/// The device of VA-API is the configured one, and so is that of Quick Sync
/// where VA-API is under it; other backends set up none.
pub proof fn lemma_devices_are_the_configured_ones(config: TranscodeSettings, unix: bool)
    ensures
        ({
            let args = device_args(config, unix);
            let backend = config.hardware_acceleration;
            &&& backend == HardwareAcceleration::Vaapi || (backend == HardwareAcceleration::Qsv
                && unix) ==> (exists|i: int|
                0 < i < args.len() && args[i - 1] == "-init_hw_device"@ && ends_with(
                    #[trigger] args[i],
                    seq![':'] + config.vaapi_device@,
                ))
            &&& backend != HardwareAcceleration::Vaapi && backend != HardwareAcceleration::Qsv
                <==> args.len() == 0
        }),
{
    let args = device_args(config, unix);
    let backend = config.hardware_acceleration;
    if backend == HardwareAcceleration::Vaapi || (backend == HardwareAcceleration::Qsv && unix) {
        reveal_strlit("vaapi=va:");
        let text = args[1];
        let device = config.vaapi_device@;
        assert(text.skip(text.len() - device.len() - 1) =~= seq![':'] + device);
    }
}

// ---------------------------------------------------------------------------
// Runs and their error output
// ---------------------------------------------------------------------------
/// One line end is taken off, in either form.
pub proof fn lemma_one_line_end_is_taken_off(s: Seq<u8>)
    ensures
        s.len() == 0 || s.last() != 13 ==> without_line_end(s.push(10u8)) == s,
        without_line_end(s.push(13u8).push(10u8)) == s,
        s.len() == 0 || s.last() != 10 ==> without_line_end(s) == s,
{
    assert(s.push(10u8).drop_last() =~= s);
    assert(s.push(13u8).push(10u8).drop_last() =~= s.push(13u8));
    assert(s.push(13u8).drop_last() =~= s);
}

/// Output that was cut says so at its end, on a line of its own; the rest is the
/// same as without the mark.
pub proof fn lemma_cut_output_says_so(stderr: Seq<u8>, max_lines: nat)
    ensures
        ({
            let whole = stderr_text(stderr, max_lines, false);
            let cut = stderr_text(stderr, max_lines, true);
            &&& whole.is_prefix_of(cut)
            &&& "[stderr truncated]"@.is_suffix_of(cut)
            &&& whole.len() == 0 ==> cut == "[stderr truncated]"@
            &&& whole.len() > 0 ==> cut == whole + "\n"@ + "[stderr truncated]"@
        }),
{
    reveal_strlit("\n");
    let whole = stderr_text(stderr, max_lines, false);
    let cut = stderr_text(stderr, max_lines, true);
    let mark = "[stderr truncated]"@;
    assert("\n"@ =~= seq!['\n']);
    if whole.len() > 0 {
        assert(cut =~= whole + "\n"@ + mark);
    } else {
        assert(cut =~= mark);
    }
    assert(cut.take(whole.len() as int) =~= whole);
    assert(cut.skip(cut.len() - mark.len()) =~= mark);
}

/// A value stands behind its option.
pub proof fn lemma_values_stand_behind_options(
    args: Seq<Seq<char>>,
    flag: Seq<char>,
    value: Seq<char>,
    i: int,
)
    ensures
        option_at(args, i, flag, value) ==> value_stands_at(args, flag, i),
        value_stands_at(args, flag, i) ==> option_at(args, i, flag, args[i + 1]),
{
}

/// A run is ended when its time is over and not before; it succeeds exactly
/// where the program did, and fails with the program's own exit code.
pub proof fn lemma_runs_end_as_the_program_does(run: FfmpegRun, event: RunEvent, action: RunAction)
    requires
        run.is_action(event, action),
    ensures
        run.phase is Draining ==> (event matches RunEvent::Line { elapsed_ms } ==> (elapsed_ms
            <= run.timeout_ms <==> action is ReadLine) && (run.next_phase(event) is Draining
            <==> elapsed_ms <= run.timeout_ms)),
        run.phase is Draining ==> (event matches RunEvent::Quiet { elapsed_ms, since_heartbeat_ms }
            ==> (elapsed_ms <= run.timeout_ms <==> action is ReadLine) && (
        action matches RunAction::ReadLine { log_heartbeat } ==> log_heartbeat == (
        since_heartbeat_ms >= 30_000))),
        run.phase is Draining && action is KillAndFail ==> (
        action matches RunAction::KillAndFail { error: Error::Timeout { operation, duration_ms } }
            && operation == "ffmpeg" && duration_ms == run.timeout_ms),
        run.phase is Draining && event is OutputEnded ==> run.next_phase(event) is Waiting
            && action is AwaitExit,
        run.phase is Waiting ==> (event matches RunEvent::Exited { success, exit_code }
            ==> run.next_phase(event) == (RunPhase::Collecting { success, exit_code })),
        run.phase is Waiting && event is WaitTimedOut ==> action is KillAndFail,
        run.phase matches RunPhase::Collecting { success, exit_code } ==> (event is Stderr ==> (
        action is Succeed <==> success) && (action matches RunAction::Fail {
            error: Error::TranscodeFailed { stage, exit_code: code, .. },
        } ==> code == exit_code && stage == run.stage) && (!success ==> action is Fail)),
{
}

/// A remux reads its input, copies its streams, puts the index in front and
/// writes its output.
pub proof fn lemma_remux_copies_and_indexes(input: Seq<char>, output: Seq<char>, threads: u32)
    ensures
        ({
            let args = remux_list(input, output, threads);
            &&& sets(args, "-i"@, input)
            &&& sets(args, "-c"@, "copy"@)
            &&& sets(args, "-movflags"@, "+faststart"@)
            &&& threads > 0 ==> sets(args, "-threads"@, decimal(threads as nat))
            &&& args.last() == output
        }),
{
    let args = remux_list(input, output, threads);
    assert(option_at(args, 1, "-i"@, input));
    assert(option_at(args, 3, "-c"@, "copy"@));
    if threads > 0 {
        assert(option_at(args, 5, "-threads"@, decimal(threads as nat)));
        assert(option_at(args, 7, "-movflags"@, "+faststart"@));
    } else {
        assert(option_at(args, 5, "-movflags"@, "+faststart"@));
    }
}

} // verus!
